//! Decimal rendering of ids and construction of upstream URLs.
use vstd::prelude::*;

verus! {

/// The character for one decimal digit.
pub open spec fn digit_char(d: int) -> char {
    if d == 0 {
        '0'
    } else if d == 1 {
        '1'
    } else if d == 2 {
        '2'
    } else if d == 3 {
        '3'
    } else if d == 4 {
        '4'
    } else if d == 5 {
        '5'
    } else if d == 6 {
        '6'
    } else if d == 7 {
        '7'
    } else if d == 8 {
        '8'
    } else {
        '9'
    }
}

/// The decimal digit string of `n`, most significant digit first, with no
/// leading zero (and `"0"` for zero).
pub open spec fn dec_digits(n: nat) -> Seq<char>
    decreases n,
{
    if n < 10 {
        seq![digit_char(n as int)]
    } else {
        dec_digits(n / 10).push(digit_char((n % 10) as int))
    }
}

/// The one-character string for a decimal digit.
fn digit_string(d: u64) -> (r: String)
    requires
        d < 10,
    ensures
        r@ == seq![digit_char(d as int)],
{
    if d == 0 {
        proof {
            reveal_strlit("0");
        }
        "0".to_owned()
    } else if d == 1 {
        proof {
            reveal_strlit("1");
        }
        "1".to_owned()
    } else if d == 2 {
        proof {
            reveal_strlit("2");
        }
        "2".to_owned()
    } else if d == 3 {
        proof {
            reveal_strlit("3");
        }
        "3".to_owned()
    } else if d == 4 {
        proof {
            reveal_strlit("4");
        }
        "4".to_owned()
    } else if d == 5 {
        proof {
            reveal_strlit("5");
        }
        "5".to_owned()
    } else if d == 6 {
        proof {
            reveal_strlit("6");
        }
        "6".to_owned()
    } else if d == 7 {
        proof {
            reveal_strlit("7");
        }
        "7".to_owned()
    } else if d == 8 {
        proof {
            reveal_strlit("8");
        }
        "8".to_owned()
    } else {
        proof {
            reveal_strlit("9");
        }
        "9".to_owned()
    }
}

/// Render `n` in decimal.
pub fn u64_to_string(n: u64) -> (r: String)
    ensures
        r@ == dec_digits(n as nat),
    decreases n,
{
    if n < 10 {
        digit_string(n)
    } else {
        proof {
            assert(n / 10 < n) by (nonlinear_arith)
                requires
                    n >= 10,
            ;
        }
        let mut s = u64_to_string(n / 10);
        let tail = digit_string(n % 10);
        s.append(tail.as_str());
        proof {
            assert(s@ =~= dec_digits((n / 10) as nat).push(digit_char((n % 10) as int)));
        }
        s
    }
}

/// The upstream page URL for a comic id; no id means the landing page, which
/// shows the most recent comic.
pub open spec fn comic_page_url_spec(id: Option<u32>) -> Seq<char> {
    match id {
        Some(i) => "https://www.asofterworld.com/index.php?id="@ + dec_digits(i as nat),
        None => "https://www.asofterworld.com/index.php"@,
    }
}

/// Build the upstream page URL for `id`.
pub fn comic_page_url(id: Option<u32>) -> (r: String)
    ensures
        r@ == comic_page_url_spec(id),
{
    match id {
        Some(i) => {
            let mut s = "https://www.asofterworld.com/index.php?id=".to_owned();
            let digits = u64_to_string(i as u64);
            s.append(digits.as_str());
            s
        },
        None => "https://www.asofterworld.com/index.php".to_owned(),
    }
}

} // verus!
