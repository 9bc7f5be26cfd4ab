//! Decimal text for run lengths, and hints joined from it.
use crate::runs::as_lengths;
use vstd::prelude::*;
use vstd::string::*;

verus! {

/// The character that writes the digit `d`.
pub open spec fn digit_char(d: nat) -> char {
    if d == 0 {
        '0'
    } else if d == 1 {
        '1'
    } else if d == 2 {
        '2'
    } else if d == 3 {
        '3'
    } else if d == 4 {
        '4'
    } else if d == 5 {
        '5'
    } else if d == 6 {
        '6'
    } else if d == 7 {
        '7'
    } else if d == 8 {
        '8'
    } else {
        '9'
    }
}

/// `n` written in base ten, most significant digit first, without leading
/// zeros.
pub open spec fn decimal(n: nat) -> Seq<char>
    decreases n,
{
    if n < 10 {
        seq![digit_char(n)]
    } else {
        decimal(n / 10).push(digit_char(n % 10))
    }
}

/// The run lengths `lengths` written in decimal, with `sep` between each two
/// neighbours and nowhere else.
pub open spec fn joined(lengths: Seq<nat>, sep: Seq<char>) -> Seq<char>
    decreases lengths.len(),
{
    if lengths.len() == 0 {
        Seq::empty()
    } else if lengths.len() == 1 {
        decimal(lengths[0])
    } else {
        joined(lengths.drop_last(), sep) + sep + decimal(lengths.last())
    }
}

fn digit_text(d: usize) -> (s: &'static str)
    requires
        d < 10,
    ensures
        s@ == seq![digit_char(d as nat)],
{
    proof {
        reveal_strlit("0");
        reveal_strlit("1");
        reveal_strlit("2");
        reveal_strlit("3");
        reveal_strlit("4");
        reveal_strlit("5");
        reveal_strlit("6");
        reveal_strlit("7");
        reveal_strlit("8");
        reveal_strlit("9");
    }
    let s = if d == 0 {
        "0"
    } else if d == 1 {
        "1"
    } else if d == 2 {
        "2"
    } else if d == 3 {
        "3"
    } else if d == 4 {
        "4"
    } else if d == 5 {
        "5"
    } else if d == 6 {
        "6"
    } else if d == 7 {
        "7"
    } else if d == 8 {
        "8"
    } else {
        "9"
    };
    assert(s@ =~= seq![digit_char(d as nat)]);
    s
}

/// Appends `n` in decimal to `out`.
pub fn push_decimal(out: &mut String, n: usize)
    ensures
        final(out)@ == old(out)@ + decimal(n as nat),
    decreases n,
{
    if n >= 10 {
        push_decimal(out, n / 10);
    }
    out.append(digit_text(n % 10));
    assert(final(out)@ =~= old(out)@ + decimal(n as nat));
}

/// The hint text for the run lengths `lengths`: each in decimal, joined by
/// `sep`.
pub fn join_runs(lengths: &Vec<usize>, sep: &str) -> (out: String)
    ensures
        out@ == joined(as_lengths(lengths@), sep@),
{
    let ghost all = as_lengths(lengths@);
    let mut out = String::new();
    let mut i: usize = 0;
    while i < lengths.len()
        invariant
            i <= lengths@.len(),
            all == as_lengths(lengths@),
            out@ == joined(all.take(i as int), sep@),
        decreases lengths@.len() - i,
    {
        if i > 0 {
            out.append(sep);
        }
        push_decimal(&mut out, lengths[i]);
        proof {
            let next = all.take(i + 1);
            assert(next.drop_last() =~= all.take(i as int));
            assert(next.last() == lengths@[i as int] as nat);
            if i == 0 {
                assert(out@ =~= decimal(next[0]));
            }
        }
        i = i + 1;
    }
    proof {
        assert(all.take(i as int) =~= all);
    }
    out
}

} // verus!
