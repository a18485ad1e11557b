//! Decimal rendering of sizes and the `" --> "`-joined content string shared
//! by the list and stack renderers.

use vstd::prelude::*;
use vstd::string::StringExecFns;
use std::io::Write;

verus! {

/// The decimal digit character for `d` (meaningful for `d < 10`).
pub open spec fn dec_digit(d: nat) -> char {
    if d == 0 {
        '0'
    } else if d == 1 {
        '1'
    } else if d == 2 {
        '2'
    } else if d == 3 {
        '3'
    } else if d == 4 {
        '4'
    } else if d == 5 {
        '5'
    } else if d == 6 {
        '6'
    } else if d == 7 {
        '7'
    } else if d == 8 {
        '8'
    } else {
        '9'
    }
}

/// The decimal rendering of `n`, most significant digit first, no sign and
/// no leading zeros (except for `n == 0`, rendered as `"0"`).
pub open spec fn dec_str(n: nat) -> Seq<char>
    decreases n,
{
    if n < 10 {
        seq![dec_digit(n)]
    } else {
        dec_str(n / 10).push(dec_digit(n % 10))
    }
}

/// A one-character string slice for the decimal digit `d`.
fn digit_str(d: u8) -> (r: &'static str)
    requires
        d < 10,
    ensures
        r@ == seq![dec_digit(d as nat)],
{
    proof {
        reveal_strlit("0");
        reveal_strlit("1");
        reveal_strlit("2");
        reveal_strlit("3");
        reveal_strlit("4");
        reveal_strlit("5");
        reveal_strlit("6");
        reveal_strlit("7");
        reveal_strlit("8");
        reveal_strlit("9");
    }
    if d == 0 {
        "0"
    } else if d == 1 {
        "1"
    } else if d == 2 {
        "2"
    } else if d == 3 {
        "3"
    } else if d == 4 {
        "4"
    } else if d == 5 {
        "5"
    } else if d == 6 {
        "6"
    } else if d == 7 {
        "7"
    } else if d == 8 {
        "8"
    } else {
        "9"
    }
}

/// Maps a sequence of decimal digit values to their characters.
spec fn digit_chars(ds: Seq<u8>) -> Seq<char> {
    ds.map_values(|d: u8| dec_digit(d as nat))
}

/// Renders `n` in decimal, matching `dec_str`.
pub fn usize_to_string(n: usize) -> (s: String)
    ensures
        s@ == dec_str(n as nat),
{
    // Collect the decimal digits, least significant first.
    let mut digits: Vec<u8> = Vec::new();
    let mut m: usize = n;
    let d0: u8 = (m % 10) as u8;
    digits.push(d0);
    m = m / 10;
    proof {
        assert(digit_chars(digits@).reverse() =~= seq![dec_digit((n % 10) as nat)]);
        if m > 0 {
            assert(dec_str(n as nat) =~= dec_str(m as nat) + digit_chars(digits@).reverse());
        } else {
            assert(dec_str(n as nat) =~= digit_chars(digits@).reverse());
        }
    }
    while m > 0
        invariant
            forall|i: int| 0 <= i < digits@.len() ==> digits@[i] < 10,
            dec_str(n as nat) == if m > 0 {
                dec_str(m as nat) + digit_chars(digits@).reverse()
            } else {
                digit_chars(digits@).reverse()
            },
        decreases m,
    {
        let ghost prev_digits = digits@;
        let ghost prev_m = m as nat;
        let d: u8 = (m % 10) as u8;
        digits.push(d);
        m = m / 10;
        proof {
            assert(digit_chars(digits@).reverse() =~= seq![
                dec_digit((prev_m % 10) as nat),
            ] + digit_chars(prev_digits).reverse());
            if m > 0 {
                assert(dec_str(prev_m) =~= dec_str(m as nat).push(dec_digit(prev_m % 10)));
                assert(dec_str(n as nat) =~= dec_str(m as nat) + digit_chars(digits@).reverse());
            } else {
                assert(dec_str(prev_m) =~= seq![dec_digit(prev_m)]);
                assert(dec_str(n as nat) =~= digit_chars(digits@).reverse());
            }
        }
    }
    // Emit the digits most significant first.
    let mut s = String::new();
    let mut i: usize = digits.len();
    while i > 0
        invariant
            i <= digits@.len(),
            forall|j: int| 0 <= j < digits@.len() ==> digits@[j] < 10,
            s@ == digit_chars(digits@.subrange(i as int, digits@.len() as int)).reverse(),
        decreases i,
    {
        let ghost prev_s = s@;
        let d = digits[i - 1];
        s.append(digit_str(d));
        i = i - 1;
        proof {
            assert(s@ =~= digit_chars(
                digits@.subrange(i as int, digits@.len() as int),
            ).reverse());
        }
    }
    proof {
        assert(digits@.subrange(0, digits@.len() as int) =~= digits@);
    }
    s
}

/// The pieces joined with `" --> "` in between, nothing around them.
pub open spec fn joined_with(parts: Seq<Seq<char>>) -> Seq<char>
    decreases parts.len(),
{
    if parts.len() == 0 {
        Seq::empty()
    } else if parts.len() == 1 {
        parts[0]
    } else {
        joined_with(parts.drop_last()) + " --> "@ + parts.last()
    }
}

/// The full content string for `count` elements rendered as `parts`:
/// `"(<count> elements): <p1> --> <p2> --> ... --> <pN>"`.
pub open spec fn content_str(count: nat, parts: Seq<Seq<char>>) -> Seq<char> {
    "("@ + dec_str(count) + " elements): "@ + joined_with(parts)
}

/// Joins the already-rendered element strings behind the
/// `"(<count> elements): "` header, matching `content_str` exactly.
pub fn render_content(count: usize, parts: &Vec<String>) -> (r: String)
    ensures
        r@ == content_str(count as nat, parts@.map_values(|p: String| p@)),
{
    let ghost part_views = parts@.map_values(|p: String| p@);
    let mut s = "(".to_owned();
    s.append(usize_to_string(count).as_str());
    s.append(" elements): ");

    let ghost header = s@;
    let mut i: usize = 0;
    while i < parts.len()
        invariant
            i <= parts@.len(),
            part_views == parts@.map_values(|p: String| p@),
            part_views.len() == parts@.len(),
            header == "("@ + dec_str(count as nat) + " elements): "@,
            s@ == header + joined_with(part_views.take(i as int)),
        decreases parts@.len() - i,
    {
        if i > 0 {
            s.append(" --> ");
        }
        s.append(parts[i].as_str());
        i = i + 1;
        proof {
            let taken = part_views.take(i as int);
            assert(taken.drop_last() =~= part_views.take(i - 1));
            assert(taken.last() == part_views[i - 1]);
            if i > 1 {
                assert(s@ =~= header + joined_with(taken));
            } else {
                assert(joined_with(taken) == part_views[0]);
                assert(s@ =~= header + joined_with(taken));
            }
        }
    }
    proof {
        assert(part_views.take(parts@.len() as int) =~= part_views);
    }
    s
}

/// Relies on `format!` with the `Debug` formatting of `T` for the canonical
/// textual representation of one element; nothing is specified of the text.
#[verifier::external_body]
pub(crate) fn fmt_debug<T: std::fmt::Debug>(value: &T) -> String {
    format!("{:?}", value)
}

/// Relies on `writeln!` to `std::io::Stdout`: prints the line to standard
/// output. Diagnostic output only; nothing is specified of it.
#[verifier::external_body]
pub(crate) fn print_line(s: &str) {
    let _ = writeln!(std::io::stdout(), "{}", s);
}

} // verus!
