//! The page queries behind the extractor: fixed CSS queries against the
//! upstream page, performed by an HTML engine, classified by verified code.
use crate::errors::{Attr, Elem, ServiceError};
use crate::extract::{classify_comic_query, classify_prev_query, ImgQuery, LinkQuery};
use crate::maxid::{embedded_id, has_embedded_id, max_id_from_href};
use scraper::{Html, Selector};
use vstd::prelude::*;

verus! {

/// What the image query finds in a document: nothing (no container), an
/// empty container (no image), or the image's two optional attributes.
pub uninterp spec fn img_query_of(
    html: Seq<char>,
    container_sel: Seq<char>,
    img_sel: Seq<char>,
    title_attr: Seq<char>,
    src_attr: Seq<char>,
) -> Option<Option<(Option<Seq<char>>, Option<Seq<char>>)>>;

/// What the link query finds in a document: nothing (no container), an
/// empty container (no link), or the link's optional target attribute.
pub uninterp spec fn link_query_of(
    html: Seq<char>,
    container_sel: Seq<char>,
    link_sel: Seq<char>,
    href_attr: Seq<char>,
) -> Option<Option<Option<Seq<char>>>>;

/// Relies on `scraper::Html::parse_document`, `scraper::Selector::parse` and
/// `Html::select`: what the fixed CSS query finds — the first image element
/// inside the first container element, and its two attributes — is a
/// function of the document text and the query strings alone.
#[verifier::external_body]
fn dom_img_query(
    html: &str,
    container_sel: &str,
    img_sel: &str,
    title_attr: &str,
    src_attr: &str,
) -> (r: ImgQuery)
    ensures
        r.as_plain() == img_query_of(html@, container_sel@, img_sel@, title_attr@, src_attr@),
{
    let doc = Html::parse_document(html);
    let (cs, im) = (Selector::parse(container_sel), Selector::parse(img_sel));
    let (Ok(cs), Ok(im)) = (cs, im) else { return ImgQuery::NoContainer };
    let Some(container) = doc.select(&cs).next() else { return ImgQuery::NoContainer };
    let Some(img) = container.select(&im).next() else { return ImgQuery::NoImage };
    let title = img.value().attr(title_attr).map(str::to_string);
    ImgQuery::Image { title, src: img.value().attr(src_attr).map(str::to_string) }
}

/// Relies on `scraper::Html::parse_document`, `scraper::Selector::parse` and
/// `Html::select`: what the fixed CSS query finds — the first link element
/// inside the first container element, and its target attribute — is a
/// function of the document text and the query strings alone.
#[verifier::external_body]
fn dom_link_query(html: &str, container_sel: &str, link_sel: &str, href_attr: &str) -> (r:
    LinkQuery)
    ensures
        r.as_plain() == link_query_of(html@, container_sel@, link_sel@, href_attr@),
{
    let doc = Html::parse_document(html);
    let (cs, ls) = (Selector::parse(container_sel), Selector::parse(link_sel));
    let (Ok(cs), Ok(ls)) = (cs, ls) else { return LinkQuery::NoContainer };
    let Some(container) = doc.select(&cs).next() else { return LinkQuery::NoContainer };
    let Some(link) = container.select(&ls).next() else { return LinkQuery::NoLink };
    LinkQuery::Link { href: link.value().attr(href_attr).map(str::to_string) }
}

/// Extract the comic's title and image URL from a fetched page.
///
/// Fails with a not-found error exactly when the container or the image
/// element is absent, and with a missing-attribute error exactly when the
/// image is there but lacks `title` or `src`; empty attribute values
/// succeed.
pub fn extract_comic_page(html: &str) -> (r: Result<(String, String), ServiceError>)
    ensures
        ({
            let q = img_query_of(html@, "div#comicimg"@, "img"@, "title"@, "src"@);
            match r {
                Ok(p) => q == Some(Some((Some(p.0@), Some(p.1@)))),
                Err(e) => match e {
                    ServiceError::NotFound(Elem::Container) => q is None,
                    ServiceError::NotFound(Elem::Image) => q == Some(
                        None::<(Option<Seq<char>>, Option<Seq<char>>)>,
                    ),
                    ServiceError::MissingAttribute(Attr::Title) => (q matches Some(Some(p))
                        && p.0 is None),
                    ServiceError::MissingAttribute(Attr::Src) => (q matches Some(Some(p))
                        && p.0 is Some && p.1 is None),
                    _ => false,
                },
            }
        }),
{
    let q = dom_img_query(html, "div#comicimg", "img", "title", "src");
    classify_comic_query(q)
}

/// Resolve the archive's current maximum id from a fetched landing page: the
/// "previous" link's target embeds the previous id, and the maximum is that
/// id plus one.
pub fn resolve_max_id(html: &str) -> (r: Result<u32, ServiceError>)
    ensures
        ({
            let q = link_query_of(html@, "div#previous"@, "a"@, "href"@);
            match r {
                Ok(m) => (q matches Some(Some(Some(h))) && has_embedded_id(h) && embedded_id(h)
                    <= u32::MAX - 1 && m == embedded_id(h) + 1),
                Err(e) => match e {
                    ServiceError::NotFound(Elem::PreviousContainer) => q is None,
                    ServiceError::NotFound(Elem::PreviousLink) => q == Some(
                        None::<Option<Seq<char>>>,
                    ),
                    ServiceError::MissingAttribute(Attr::Href) => q == Some(
                        Some(None::<Seq<char>>),
                    ),
                    ServiceError::NotFound(Elem::IdInLink) => (q matches Some(Some(Some(h))) && (
                    !has_embedded_id(h) || embedded_id(h) > u32::MAX - 1)),
                    _ => false,
                },
            }
        }),
{
    let q = dom_link_query(html, "div#previous", "a", "href");
    match classify_prev_query(q) {
        Ok(href) => max_id_from_href(href.as_str()),
        Err(e) => Err(e),
    }
}

} // verus!
