//! What the two reports hold: the header rows, the member column of the
//! membership log, and the decimal rendering of a cluster size.

use vstd::prelude::*;
use vstd::string::StringExecFns;

verus! {

/// The header of the membership log.
pub open spec fn membership_header() -> (Seq<char>, Seq<char>) {
    ("representative read id"@, "read id"@)
}

/// The header of the size summary.
pub open spec fn summary_header() -> (Seq<char>, Seq<char>) {
    ("representative read id"@, "cluster size"@)
}

/// What follows the id of a duplicate that was found by its reverse
/// complement.
pub open spec fn rc_marker() -> Seq<char> {
    seq![' ', '(', 'r', 'c', ')']
}

/// The member column of a duplicate: its id, marked if the read was flipped.
pub open spec fn member_entry(id: Seq<char>, was_flipped: bool) -> Seq<char> {
    if was_flipped {
        id + rc_marker()
    } else {
        id
    }
}

/// The decimal digit for `d`, which is below ten.
pub open spec fn digit(d: u8) -> char {
    match d {
        0 => '0',
        1 => '1',
        2 => '2',
        3 => '3',
        4 => '4',
        5 => '5',
        6 => '6',
        7 => '7',
        8 => '8',
        _ => '9',
    }
}

/// A number in decimal, without sign or leading zeros.
pub open spec fn decimal(n: nat) -> Seq<char>
    decreases n,
{
    if n < 10 {
        seq![digit(n as u8)]
    } else {
        decimal(n / 10).push(digit((n % 10) as u8))
    }
}

/// The member column for a duplicate with this id.
pub fn mark_member(id: String, was_flipped: bool) -> (entry: String)
    ensures
        entry@ == member_entry(id@, was_flipped),
{
    if was_flipped {
        proof {
            reveal_strlit(" (rc)");
            assert(" (rc)"@ =~= rc_marker());
        }
        id.concat(" (rc)")
    } else {
        id
    }
}

fn digit_str(d: u8) -> (s: &'static str)
    requires
        d < 10,
    ensures
        s@ == seq![digit(d)],
{
    proof {
        reveal_strlit("0");
        reveal_strlit("1");
        reveal_strlit("2");
        reveal_strlit("3");
        reveal_strlit("4");
        reveal_strlit("5");
        reveal_strlit("6");
        reveal_strlit("7");
        reveal_strlit("8");
        reveal_strlit("9");
    }
    let s = match d {
        0 => "0",
        1 => "1",
        2 => "2",
        3 => "3",
        4 => "4",
        5 => "5",
        6 => "6",
        7 => "7",
        8 => "8",
        _ => "9",
    };
    assert(s@ =~= seq![digit(d)]);
    s
}

/// Renders a count in decimal.
pub fn decimal_string(n: u64) -> (s: String)
    ensures
        s@ == decimal(n as nat),
{
    let mut low: Vec<u8> = Vec::new();
    let mut rest: u64 = n;
    let ghost mut tail: Seq<char> = Seq::empty();
    while rest >= 10
        invariant
            decimal(n as nat) == decimal(rest as nat) + tail,
            low@.len() == tail.len(),
            forall|k: int| 0 <= k < low@.len() ==> low@[k] < 10,
            forall|k: int| 0 <= k < tail.len() ==> tail[k] == digit(low@[tail.len() - 1 - k]),
        decreases rest,
    {
        let d: u8 = (rest % 10) as u8;
        proof {
            let longer = seq![digit(d)] + tail;
            assert(decimal(rest as nat) == decimal((rest / 10) as nat).push(digit(d)));
            assert(decimal(n as nat) =~= decimal((rest / 10) as nat) + longer);
            tail = longer;
        }
        low.push(d);
        rest = rest / 10;
    }
    let mut s = String::from_str(digit_str(rest as u8));
    let mut i: usize = low.len();
    while i > 0
        invariant
            i <= low@.len(),
            low@.len() == tail.len(),
            forall|k: int| 0 <= k < low@.len() ==> low@[k] < 10,
            forall|k: int| 0 <= k < tail.len() ==> tail[k] == digit(low@[tail.len() - 1 - k]),
            s@ == decimal(rest as nat) + tail.subrange(0, low@.len() - i),
        decreases i,
    {
        i = i - 1;
        s.append(digit_str(low[i]));
        proof {
            let done = low@.len() - i;
            assert(tail.subrange(0, done) =~= tail.subrange(0, done - 1).push(tail[done - 1]));
            assert(s@ =~= decimal(rest as nat) + tail.subrange(0, done));
        }
    }
    proof {
        assert(tail.subrange(0, low@.len() as int) =~= tail);
    }
    s
}

} // verus!
