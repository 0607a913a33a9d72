//! Decimal rendering of port numbers and space-joining of argument lists,
//! verified against the spec-level sequences the rule compiler speaks of.

use vstd::prelude::*;

verus! {

/// The one-character string for a decimal digit.
pub open spec fn digit_seq(d: int) -> Seq<char> {
    if d == 0 {
        "0"@
    } else if d == 1 {
        "1"@
    } else if d == 2 {
        "2"@
    } else if d == 3 {
        "3"@
    } else if d == 4 {
        "4"@
    } else if d == 5 {
        "5"@
    } else if d == 6 {
        "6"@
    } else if d == 7 {
        "7"@
    } else if d == 8 {
        "8"@
    } else {
        "9"@
    }
}

/// The decimal rendering of a non-negative integer, most significant digit first.
pub open spec fn dec_digits(n: int) -> Seq<char>
    decreases n,
{
    if n < 10 {
        digit_seq(n)
    } else {
        dec_digits(n / 10) + digit_seq(n % 10)
    }
}

fn digit_str(d: u16) -> (s: &'static str)
    requires
        d < 10,
    ensures
        s@ == digit_seq(d as int),
{
    match d {
        0 => "0",
        1 => "1",
        2 => "2",
        3 => "3",
        4 => "4",
        5 => "5",
        6 => "6",
        7 => "7",
        8 => "8",
        _ => "9",
    }
}

/// Renders a port number in decimal, as the command line shows it.
pub fn u16_to_dec(n: u16) -> (s: String)
    ensures
        s@ == dec_digits(n as int),
    decreases n,
{
    if n < 10 {
        digit_str(n).to_owned()
    } else {
        let mut s = u16_to_dec(n / 10);
        s.append(digit_str(n % 10));
        s
    }
}

/// The arguments of one descriptor joined with single spaces, in order.
pub open spec fn join_spaces(parts: Seq<Seq<char>>) -> Seq<char>
    decreases parts.len(),
{
    if parts.len() == 0 {
        Seq::empty()
    } else if parts.len() == 1 {
        parts[0]
    } else {
        join_spaces(parts.drop_last()) + " "@ + parts.last()
    }
}

/// Joins an argument list with single spaces, in order.
pub fn join_with_spaces(parts: &Vec<String>) -> (r: String)
    ensures
        r@ == join_spaces(parts.deep_view()),
{
    let mut r = String::new();
    let mut i: usize = 0;
    while i < parts.len()
        invariant
            i <= parts.len(),
            r@ == join_spaces(parts.deep_view().take(i as int)),
        decreases parts.len() - i,
    {
        if i > 0 {
            r.append(" ");
        }
        r.append(parts[i].as_str());
        proof {
            let pv = parts.deep_view();
            assert(pv.take(i + 1).drop_last() =~= pv.take(i as int));
            assert(pv.take(i + 1).last() == pv[i as int]);
            if i == 0 {
                assert(r@ =~= pv.take(1)[0]);
            }
        }
        i += 1;
    }
    proof {
        assert(parts.deep_view().take(parts.len() as int) =~= parts.deep_view());
    }
    r
}

/// Dry-run execution: each descriptor becomes a (program, argument-string)
/// pair, in input order, with no other effect.
pub fn dry_run_batch(descs: &Vec<Vec<String>>) -> (r: Vec<(String, String)>)
    ensures
        r@.len() == descs@.len(),
        forall|i: int|
            0 <= i < r@.len() ==> (#[trigger] r@[i]).0@ == "iptables"@ && r@[i].1@ == join_spaces(
                descs@[i].deep_view(),
            ),
{
    let mut r: Vec<(String, String)> = Vec::new();
    let mut i: usize = 0;
    while i < descs.len()
        invariant
            i <= descs.len(),
            r@.len() == i,
            forall|j: int|
                0 <= j < i ==> (#[trigger] r@[j]).0@ == "iptables"@ && r@[j].1@ == join_spaces(
                    descs@[j].deep_view(),
                ),
        decreases descs.len() - i,
    {
        let line = join_with_spaces(&descs[i]);
        r.push(("iptables".to_owned(), line));
        i += 1;
    }
    r
}

} // verus!
