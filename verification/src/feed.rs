//! The feed synthesizer: a reproducible, date-seeded selection of historical
//! comics, rendered into a feed document.
//!
//! For each of the last `FEED_ITEM_COUNT` calendar days, a generator seeded
//! with the day number alone draws one id from `1..=max_id`.  The same day
//! and the same maximum therefore always select the same ids, across
//! repeated renders and across independent processes.
use crate::comic::ComicRecord;
use crate::errors::ServiceError;
use crate::text::{dec_digits, u64_to_string};
use rand::Rng;
use rand::SeedableRng;
use rss::{ChannelBuilder, ItemBuilder};
use std::collections::BTreeMap;
use vstd::prelude::*;

verus! {

/// Number of items in the synthesized feed: one per recent calendar day.
pub const FEED_ITEM_COUNT: u64 = 10;

/// Seconds in a calendar day.
pub const SECONDS_PER_DAY: u64 = 86400;

/// The current day number: whole days since the Unix epoch.
pub fn day_of_unix_time(unix_seconds: u64) -> (d: u64)
    ensures
        d == unix_seconds as int / 86400,
{
    unix_seconds / SECONDS_PER_DAY
}

/// What the day-seeded generator draws from `1..=max_id` for a given seed.
pub uninterp spec fn day_draw(seed: u64, max_id: u64) -> u64;

/// Relies on `rand::rngs::SmallRng::seed_from_u64` and
/// `rand::Rng::random_range`: seeded from the day number alone, the draw
/// depends on the seed and the inclusive range `1..=max_id` alone, and lies
/// within that range.
#[verifier::external_body]
fn draw_id(seed: u64, max_id: u64) -> (r: u64)
    requires
        max_id >= 1,
    ensures
        r == day_draw(seed, max_id),
        1 <= r <= max_id,
{
    let mut rng = rand::rngs::SmallRng::seed_from_u64(seed);
    rng.random_range(1..=max_id)
}

/// The ids selected for the feed: position `k` holds the draw seeded with
/// `current_day - k`, for `k` below `n`.
pub open spec fn spec_selection(current_day: u64, max_id: u64, n: nat) -> Seq<u64>
    decreases n,
{
    if n == 0 {
        Seq::empty()
    } else {
        spec_selection(current_day, max_id, (n - 1) as nat).push(
            day_draw((current_day - (n - 1)) as u64, max_id),
        )
    }
}

/// Select the feed's ids for `current_day`: one per day, newest day first,
/// each drawn from `1..=max_id` by the generator seeded with that day's
/// number.  Fails exactly when `max_id` is zero: no id can be drawn from an
/// empty range.
pub fn select_feed_ids(current_day: u64, max_id: u64) -> (r: Result<Vec<u64>, ServiceError>)
    requires
        current_day >= FEED_ITEM_COUNT - 1,
    ensures
        match r {
            Ok(ids) => max_id >= 1 && ids@ == spec_selection(
                current_day,
                max_id,
                FEED_ITEM_COUNT as nat,
            ) && ids@.len() == FEED_ITEM_COUNT && forall|k: int|
                0 <= k < ids@.len() ==> 1 <= #[trigger] ids@[k] <= max_id,
            Err(e) => e == ServiceError::SeedRange && max_id == 0,
        },
{
    if max_id == 0 {
        return Err(ServiceError::SeedRange);
    }
    let mut ids: Vec<u64> = Vec::new();
    let mut offset: u64 = 0;
    while offset < FEED_ITEM_COUNT
        invariant
            max_id >= 1,
            current_day >= FEED_ITEM_COUNT - 1,
            offset <= FEED_ITEM_COUNT,
            ids@ == spec_selection(current_day, max_id, offset as nat),
            ids@.len() == offset,
            forall|k: int| 0 <= k < ids@.len() ==> 1 <= #[trigger] ids@[k] <= max_id,
        decreases FEED_ITEM_COUNT - offset,
    {
        let id = draw_id(current_day - offset, max_id);
        ids.push(id);
        offset = offset + 1;
    }
    Ok(ids)
}

/// Law: deterministic feed selection.  Two renders for the same day and the
/// same maximum id select identical ids at every offset; the selection
/// depends on nothing else.
pub proof fn lemma_deterministic_selection(
    current_day: u64,
    max_id: u64,
    first: Seq<u64>,
    second: Seq<u64>,
)
    requires
        first == spec_selection(current_day, max_id, FEED_ITEM_COUNT as nat),
        second == spec_selection(current_day, max_id, FEED_ITEM_COUNT as nat),
    ensures
        first == second,
{
}

/// One rendered feed entry.
pub struct FeedItem {
    /// The entry's title: the chosen id, as text.
    pub title: String,
    /// The entry's link: the upstream page for the chosen id.
    pub link: String,
    /// The entry's description: an embedded image reference plus the
    /// comic's title.
    pub description: String,
}

/// The rendered feed: a document plus the content type it is served under.
#[derive(Clone, Debug)]
pub struct FeedDocument {
    /// The content type of the response carrying the document.
    pub content_type: String,
    /// The rendered document text.
    pub body: String,
}

/// A feed entry's title: the chosen id as text.
pub open spec fn item_title_spec(id: u64) -> Seq<char> {
    dec_digits(id as nat)
}

/// A feed entry's link: the upstream page for the chosen id.
pub open spec fn item_link_spec(id: u64) -> Seq<char> {
    "https://www.asofterworld.com/index.php?id="@ + dec_digits(id as nat)
}

/// A feed entry's description: a link around the embedded image, then the
/// comic's title.
pub open spec fn item_description_spec(id: u64, image_url: Seq<char>, title: Seq<char>) -> Seq<
    char,
> {
    "<a href=\"http://softerworld.casualvegetables.duckdns.org/?comic="@ + dec_digits(id as nat)
        + "\"> <img src=\""@ + image_url + "\" /> </a> <br /> "@ + title
}

/// Render one feed entry from its chosen id and the resolved record.
pub fn build_feed_item(id: u64, record: &ComicRecord) -> (r: FeedItem)
    ensures
        r.title@ == item_title_spec(id),
        r.link@ == item_link_spec(id),
        r.description@ == item_description_spec(id, record.image_url@, record.title@),
{
    let digits = u64_to_string(id);
    let mut link = "https://www.asofterworld.com/index.php?id=".to_owned();
    link.append(digits.as_str());
    let mut description = "<a href=\"http://softerworld.casualvegetables.duckdns.org/?comic=".to_owned();
    description.append(digits.as_str());
    description.append("\"> <img src=\"");
    description.append(record.image_url.as_str());
    description.append("\" /> </a> <br /> ");
    description.append(record.title.as_str());
    FeedItem { title: digits, link, description }
}

/// The three text fields of every entry, from the chosen ids and their
/// records.
pub open spec fn feed_items_spec(ids: Seq<u64>, records: Seq<ComicRecord>) -> Seq<
    (Seq<char>, Seq<char>, Seq<char>),
> {
    Seq::new(
        ids.len(),
        |i: int|
            (
                item_title_spec(ids[i]),
                item_link_spec(ids[i]),
                item_description_spec(ids[i], records[i].image_url@, records[i].title@),
            ),
    )
}

/// The namespaces the feed document declares.
pub open spec fn feed_namespaces_spec() -> Seq<(Seq<char>, Seq<char>)> {
    seq![("atom"@, "http://www.w3.org/2005/Atom"@), ("dc"@, "http://purl.org/dc/elements/1.1/"@)]
}

/// What the feed engine renders from the channel fields, the namespaces and
/// the items.
pub uninterp spec fn rss_document(
    title: Seq<char>,
    link: Seq<char>,
    description: Seq<char>,
    language: Seq<char>,
    namespaces: Seq<(Seq<char>, Seq<char>)>,
    items: Seq<(Seq<char>, Seq<char>, Seq<char>)>,
) -> Seq<char>;

/// Relies on `rss::ChannelBuilder` and `rss::ItemBuilder`: the rendered
/// document is a function of the channel fields, the namespaces and the
/// items (title, link, description each) alone.
#[verifier::external_body]
fn render_channel(
    title: &str,
    link: &str,
    description: &str,
    language: &str,
    namespaces: &Vec<(String, String)>,
    items: &Vec<FeedItem>,
) -> (r: String)
    ensures
        r@ == rss_document(
            title@,
            link@,
            description@,
            language@,
            namespaces@.map_values(|p: (String, String)| (p.0@, p.1@)),
            items@.map_values(|it: FeedItem| (it.title@, it.link@, it.description@)),
        ),
{
    let mut xs: Vec<rss::Item> = Vec::new();
    for it in items.iter() {
        xs.push(ItemBuilder::default().title(it.title.clone()).link(it.link.clone()).description(it.description.clone()).build());
    }
    let ns: BTreeMap<String, String> = namespaces.iter().cloned().collect();
    ChannelBuilder::default().title(title).link(link).description(description).language(language.to_string()).namespaces(ns).items(xs).build().to_string()
}

/// Render the whole feed document from the chosen ids and their resolved
/// records, with the fixed channel description, under the content type the
/// feed is served as.
pub fn build_feed(ids: &Vec<u64>, records: &Vec<ComicRecord>) -> (r: FeedDocument)
    requires
        ids@.len() == records@.len(),
    ensures
        r.content_type@ == "text/html"@,
        r.body@ == rss_document(
            "A Softer World"@,
            "http://softerworld.casualvegetables.duckdns.org"@,
            "A Softer World Comic"@,
            "us-en"@,
            feed_namespaces_spec(),
            feed_items_spec(ids@, records@),
        ),
{
    let mut items: Vec<FeedItem> = Vec::new();
    let mut i: usize = 0;
    while i < ids.len()
        invariant
            ids@.len() == records@.len(),
            i <= ids@.len(),
            items@.len() == i,
            forall|j: int|
                0 <= j < i ==> (#[trigger] items@[j].title@, items@[j].link@, items@[j].description@)
                    == feed_items_spec(ids@, records@)[j],
        decreases ids@.len() - i,
    {
        let item = build_feed_item(ids[i], &records[i]);
        items.push(item);
        i = i + 1;
    }
    let mut namespaces: Vec<(String, String)> = Vec::new();
    namespaces.push(("atom".to_owned(), "http://www.w3.org/2005/Atom".to_owned()));
    namespaces.push(("dc".to_owned(), "http://purl.org/dc/elements/1.1/".to_owned()));
    proof {
        assert(namespaces@.map_values(|p: (String, String)| (p.0@, p.1@))
            =~= feed_namespaces_spec());
        assert(items@.map_values(|it: FeedItem| (it.title@, it.link@, it.description@))
            =~= feed_items_spec(ids@, records@));
    }
    let body = render_channel(
        "A Softer World",
        "http://softerworld.casualvegetables.duckdns.org",
        "A Softer World Comic",
        "us-en",
        &namespaces,
        &items,
    );
    FeedDocument { content_type: "text/html".to_owned(), body }
}

} // verus!
