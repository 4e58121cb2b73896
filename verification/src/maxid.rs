//! Derivation of the archive's current maximum id from the landing page's
//! "previous comic" link: the link's target embeds the previous id as
//! `...asofterworld.com/index.php?id=<digits>`, and the maximum is that
//! number plus one (the landing page links backward from the newest,
//! unlisted entry).
use crate::errors::{Elem, ServiceError};
use crate::text::{dec_digits, digit_char};
use vstd::prelude::*;

verus! {

/// Decimal digit.
pub open spec fn is_digit(c: char) -> bool {
    '0' as int <= c as int && c as int <= '9' as int
}

/// Numeric value of a decimal digit.
pub open spec fn digit_val(c: char) -> int {
    c as int - '0' as int
}

/// Value of a decimal digit string, most significant first.
pub open spec fn dec_val(s: Seq<char>) -> int
    decreases s.len(),
{
    if s.len() == 0 {
        0
    } else {
        dec_val(s.drop_last()) * 10 + digit_val(s.last())
    }
}

/// The literal part of the link pattern; the id's digits follow it.
pub open spec fn id_marker() -> Seq<char> {
    "asofterworld.com/index.php?id="@
}

/// `p` occurs in `s` at position `i`.
pub open spec fn occurs_at(s: Seq<char>, p: Seq<char>, i: int) -> bool {
    0 <= i && i + p.len() <= s.len() && s.subrange(i, i + p.len()) == p
}

/// The pattern hits at `i`: the marker occurs there and at least one digit
/// follows it.
pub open spec fn marker_hit(s: Seq<char>, i: int) -> bool {
    occurs_at(s, id_marker(), i) && i + id_marker().len() < s.len() && is_digit(
        s[i + id_marker().len()],
    )
}

/// Some hit exists: the link embeds an id.
pub open spec fn has_embedded_id(s: Seq<char>) -> bool {
    exists|i: int| marker_hit(s, i)
}

/// The leftmost hit.
pub open spec fn first_hit(s: Seq<char>) -> int {
    choose|i: int| marker_hit(s, i) && forall|j: int| 0 <= j < i ==> !marker_hit(s, j)
}

/// End of the digit run that starts at `j`: the first position at or after
/// `j` holding no digit.
pub open spec fn run_end(s: Seq<char>, j: int) -> int
    decreases s.len() - j when 0 <= j <= s.len()
{
    if j < s.len() && is_digit(s[j]) {
        run_end(s, j + 1)
    } else {
        j
    }
}

/// The digits captured by the pattern: the maximal digit run after the
/// leftmost hit.
pub open spec fn embedded_digits(s: Seq<char>) -> Seq<char> {
    s.subrange(first_hit(s) + id_marker().len(), run_end(s, first_hit(s) + id_marker().len()))
}

/// The id embedded in the link.
pub open spec fn embedded_id(s: Seq<char>) -> int {
    dec_val(embedded_digits(s))
}

/// The digit run ends exactly where the digits stop.
proof fn lemma_run_end_at(s: Seq<char>, start: int, j: int)
    requires
        0 <= start <= j <= s.len(),
        forall|k: int| start <= k < j ==> is_digit(s[k]),
        j == s.len() || !is_digit(s[j]),
    ensures
        run_end(s, start) == j,
    decreases j - start,
{
    if start == j {
    } else {
        assert(is_digit(s[start]));
        lemma_run_end_at(s, start + 1, j);
    }
}

/// A string of digits has a non-negative value.
proof fn lemma_dec_val_nonneg(s: Seq<char>)
    requires
        forall|k: int| 0 <= k < s.len() ==> is_digit(#[trigger] s[k]),
    ensures
        dec_val(s) >= 0,
    decreases s.len(),
{
    if s.len() > 0 {
        lemma_dec_val_nonneg(s.drop_last());
    }
}

/// Extending a digit string multiplies its value by ten and adds the digit.
proof fn lemma_dec_val_push(s: Seq<char>, c: char)
    ensures
        dec_val(s.push(c)) == dec_val(s) * 10 + digit_val(c),
{
    assert(s.push(c).drop_last() =~= s);
    assert(s.push(c).last() == c);
}

/// Every prefix of a digit string has a value no larger than the whole.
proof fn lemma_dec_val_prefix(s: Seq<char>, i: int)
    requires
        forall|k: int| 0 <= k < s.len() ==> is_digit(#[trigger] s[k]),
        0 <= i <= s.len(),
    ensures
        dec_val(s.subrange(0, i)) <= dec_val(s),
    decreases s.len() - i,
{
    if i == s.len() {
        assert(s.subrange(0, i) =~= s);
    } else {
        let p = s.subrange(0, i);
        let q = s.subrange(0, i + 1);
        assert(q =~= p.push(s[i]));
        lemma_dec_val_push(p, s[i]);
        assert(forall|k: int| 0 <= k < p.len() ==> is_digit(#[trigger] p[k]));
        lemma_dec_val_nonneg(p);
        lemma_dec_val_prefix(s, i + 1);
    }
}

/// Law: the decimal renderer and the decimal reader agree.  The digit
/// string rendered for `n` — as in a feed item's title or a page URL —
/// reads back as the value `n`.
pub proof fn lemma_digits_round_trip(n: nat)
    ensures
        dec_val(dec_digits(n)) == n,
    decreases n,
{
    if n < 10 {
        let s = seq![digit_char(n as int)];
        assert(s.len() == 1);
        assert(s.last() == digit_char(n as int));
        assert(s.drop_last() =~= Seq::<char>::empty());
        assert(dec_val(s.drop_last()) == 0);
        assert(dec_val(s) == digit_val(digit_char(n as int)));
        assert(digit_val(digit_char(n as int)) == n);
    } else {
        lemma_digits_round_trip(n / 10);
        lemma_dec_val_push(dec_digits(n / 10), digit_char((n % 10) as int));
        assert(digit_val(digit_char((n % 10) as int)) == n % 10);
    }
}

/// The characters of `s`, as a vector; chars are read one by one, so this
/// also serves as the exec-side bridge from `&str` to indexed access.
pub fn str_to_chars(s: &str) -> (r: Vec<char>)
    ensures
        r@ == s@,
{
    let n = s.unicode_len();
    let mut v: Vec<char> = Vec::new();
    let mut i: usize = 0;
    while i < n
        invariant
            n == s@.len(),
            i <= n,
            v@ == s@.subrange(0, i as int),
        decreases n - i,
    {
        let c = s.get_char(i);
        v.push(c);
        proof {
            assert(v@ =~= s@.subrange(0, i + 1));
        }
        i = i + 1;
    }
    proof {
        assert(v@ =~= s@);
    }
    v
}

/// Whether `p` occurs in `v` at position `i`.
fn occurs_here(v: &Vec<char>, p: &Vec<char>, i: usize) -> (r: bool)
    requires
        i + p@.len() <= v@.len(),
    ensures
        r == occurs_at(v@, p@, i as int),
{
    let n = v.len();
    let mut k: usize = 0;
    while k < p.len()
        invariant
            i + p@.len() <= v@.len(),
            n == v@.len(),
            k <= p@.len(),
            forall|t: int| 0 <= t < k ==> v@[i + t] == p@[t],
        decreases p@.len() - k,
    {
        if v[i + k] != p[k] {
            assert(v@.subrange(i as int, i + p@.len())[k as int] != p@[k as int]);
            return false;
        }
        k = k + 1;
    }
    proof {
        assert(v@.subrange(i as int, i + p@.len()) =~= p@);
    }
    true
}

/// Exec test for a decimal digit.
fn digit(c: char) -> (r: bool)
    ensures
        r == is_digit(c),
{
    '0' <= c && c <= '9'
}

/// Parse the digit run `v[from..to]`; `None` exactly when its value exceeds
/// the largest id the service can represent.
fn parse_digits(v: &Vec<char>, from: usize, to: usize) -> (r: Option<u32>)
    requires
        from <= to <= v@.len(),
        forall|k: int| from <= k < to ==> is_digit(#[trigger] v@[k]),
    ensures
        match r {
            Some(x) => x as int == dec_val(v@.subrange(from as int, to as int)),
            None => dec_val(v@.subrange(from as int, to as int)) > u32::MAX,
        },
{
    let ghost whole = v@.subrange(from as int, to as int);
    proof {
        assert(forall|k: int| 0 <= k < whole.len() ==> is_digit(#[trigger] whole[k]));
    }
    let mut acc: u64 = 0;
    let mut i: usize = from;
    while i < to
        invariant
            from <= i <= to <= v@.len(),
            forall|k: int| from <= k < to ==> is_digit(#[trigger] v@[k]),
            whole == v@.subrange(from as int, to as int),
            acc as int == dec_val(v@.subrange(from as int, i as int)),
            acc <= u32::MAX,
        decreases to - i,
    {
        let c = v[i];
        let d: u64 = (c as u32 as u64) - ('0' as u32 as u64);
        let next: u64 = acc * 10 + d;
        proof {
            let p = v@.subrange(from as int, i as int);
            let q = v@.subrange(from as int, i + 1);
            assert(q =~= p.push(v@[i as int]));
            lemma_dec_val_push(p, v@[i as int]);
        }
        if next > u32::MAX as u64 {
            proof {
                assert(dec_val(v@.subrange(from as int, i + 1)) > u32::MAX);
                assert(whole =~= whole.subrange(0, whole.len() as int));
                assert(v@.subrange(from as int, i + 1) =~= whole.subrange(0, i + 1 - from));
                lemma_dec_val_prefix(whole, i + 1 - from);
            }
            return None;
        }
        acc = next;
        i = i + 1;
    }
    proof {
        assert(v@.subrange(from as int, to as int) == whole);
    }
    Some(acc as u32)
}

/// Resolve the archive's maximum id from the "previous" link's target.
///
/// The leftmost occurrence of the marker followed by digits yields the
/// previous id; the maximum is that id plus one.  When the target embeds no
/// id, or the id is too large for the service's id type, the link deviates
/// from the upstream contract and the missing-pattern error is returned.
pub fn max_id_from_href(href: &str) -> (r: Result<u32, ServiceError>)
    ensures
        match r {
            Ok(m) => has_embedded_id(href@) && 0 <= embedded_id(href@) <= u32::MAX - 1 && m
                == embedded_id(href@) + 1,
            Err(e) => e == ServiceError::NotFound(Elem::IdInLink) && (!has_embedded_id(href@)
                || embedded_id(href@) > u32::MAX - 1),
        },
{
    let chars = str_to_chars(href);
    let marker = str_to_chars("asofterworld.com/index.php?id=");
    proof {
        assert(marker@ == id_marker());
    }
    let n = chars.len();
    let m = marker.len();
    if n <= m {
        proof {
            assert forall|j: int| !marker_hit(href@, j) by {
                if 0 <= j && j + id_marker().len() < href@.len() {
                    assert(false);
                }
            }
        }
        return Err(ServiceError::NotFound(Elem::IdInLink));
    }
    let limit = n - m;
    let mut i: usize = 0;
    while i < limit
        invariant
            n == chars@.len(),
            m == id_marker().len(),
            m < n,
            limit == n - m,
            chars@ == href@,
            marker@ == id_marker(),
            i <= limit,
            forall|j: int| 0 <= j < i ==> !marker_hit(href@, j),
        decreases limit - i,
    {
        if occurs_here(&chars, &marker, i) && digit(chars[i + m]) {
            proof {
                assert(marker_hit(href@, i as int));
                let f = first_hit(href@);
                assert(marker_hit(href@, f) && forall|j: int| 0 <= j < f ==> !marker_hit(
                    href@,
                    j,
                ));
                assert(f == i as int);
            }
            let start = i + m;
            let mut j = start;
            while j < n && digit(chars[j])
                invariant
                    n == chars@.len(),
                    chars@ == href@,
                    start <= j <= n,
                    forall|k: int| start <= k < j ==> is_digit(#[trigger] href@[k]),
                decreases n - j,
            {
                j = j + 1;
            }
            proof {
                lemma_run_end_at(href@, start as int, j as int);
            }
            match parse_digits(&chars, start, j) {
                Some(x) => {
                    if x < u32::MAX {
                        return Ok(x + 1);
                    } else {
                        return Err(ServiceError::NotFound(Elem::IdInLink));
                    }
                },
                None => {
                    return Err(ServiceError::NotFound(Elem::IdInLink));
                },
            }
        }
        i = i + 1;
    }
    proof {
        assert forall|j: int| !marker_hit(href@, j) by {
            if 0 <= j && j + id_marker().len() < href@.len() {
                assert(j < limit);
            }
        }
    }
    Err(ServiceError::NotFound(Elem::IdInLink))
}

} // verus!
