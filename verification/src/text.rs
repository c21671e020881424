//! Report text: decimal numbers and abbreviated index lists.

use vstd::prelude::*;

verus! {

/// The character of a decimal digit.
pub open spec fn digit_char(d: nat) -> char {
    if d == 0 {
        '0'
    } else if d == 1 {
        '1'
    } else if d == 2 {
        '2'
    } else if d == 3 {
        '3'
    } else if d == 4 {
        '4'
    } else if d == 5 {
        '5'
    } else if d == 6 {
        '6'
    } else if d == 7 {
        '7'
    } else if d == 8 {
        '8'
    } else {
        '9'
    }
}

/// The decimal representation of `n`, without leading zeros.
pub open spec fn decimal(n: nat) -> Seq<char>
    decreases n,
{
    if n < 10 {
        seq![digit_char(n)]
    } else {
        decimal(n / 10).push(digit_char(n % 10))
    }
}

/// `indices` in decimal, separated by `", "`.
pub open spec fn joined(indices: Seq<usize>) -> Seq<char>
    decreases indices.len(),
{
    if indices.len() == 0 {
        Seq::empty()
    } else if indices.len() == 1 {
        decimal(indices[0] as nat)
    } else {
        joined(indices.drop_last()) + ", "@ + decimal(indices.last() as nat)
    }
}

/// How many indices an abbreviated list spells out.
pub const SHOWN_INDICES: usize = 5;

/// `"0, 3, 7, ... (12 total)"`: at most five indices spelled out, followed
/// by the total when some were left out.
pub open spec fn abbreviated(indices: Seq<usize>) -> Seq<char> {
    if indices.len() > SHOWN_INDICES {
        joined(indices.take(SHOWN_INDICES as int)) + ", ... ("@ + decimal(indices.len()) + " total)"@
    } else {
        joined(indices)
    }
}

fn digit_text(d: usize) -> (text: &'static str)
    requires
        d < 10,
    ensures
        text@ == seq![digit_char(d as nat)],
{
    proof {
        reveal_strlit("0");
        reveal_strlit("1");
        reveal_strlit("2");
        reveal_strlit("3");
        reveal_strlit("4");
        reveal_strlit("5");
        reveal_strlit("6");
        reveal_strlit("7");
        reveal_strlit("8");
        reveal_strlit("9");
    }
    if d == 0 {
        "0"
    } else if d == 1 {
        "1"
    } else if d == 2 {
        "2"
    } else if d == 3 {
        "3"
    } else if d == 4 {
        "4"
    } else if d == 5 {
        "5"
    } else if d == 6 {
        "6"
    } else if d == 7 {
        "7"
    } else if d == 8 {
        "8"
    } else {
        "9"
    }
}

/// Appends the decimal representation of `n` to `text`.
pub fn push_decimal(text: &mut String, n: u64)
    ensures
        final(text)@ == old(text)@ + decimal(n as nat),
    decreases n,
{
    if n < 10 {
        text.append(digit_text(n as usize));
    } else {
        push_decimal(text, n / 10);
        text.append(digit_text((n % 10) as usize));
        assert(decimal(n as nat) == decimal((n / 10) as nat).push(digit_char((n % 10) as nat)));
    }
}

/// The decimal representation of `n`.
pub fn decimal_string(n: u64) -> (text: String)
    ensures
        text@ == decimal(n as nat),
{
    let mut text = String::new();
    push_decimal(&mut text, n);
    assert(text@ =~= decimal(n as nat));
    text
}

/// `"0, 3, 7, ... (12 total)"` — at most five indices spelled out.
pub fn enumerate_indices(indices: &[usize]) -> (text: String)
    ensures
        text@ == abbreviated(indices@),
{
    let shown = if indices.len() > SHOWN_INDICES {
        SHOWN_INDICES
    } else {
        indices.len()
    };
    let mut text = String::new();
    let mut i: usize = 0;
    while i < shown
        invariant
            shown <= indices@.len(),
            i <= shown,
            text@ == joined(indices@.take(i as int)),
        decreases shown - i,
    {
        if i > 0 {
            proof {
                reveal_strlit(", ");
            }
            text.append(", ");
        }
        push_decimal(&mut text, indices[i] as u64);
        proof {
            let next = indices@.take(i + 1);
            assert(next.drop_last() =~= indices@.take(i as int));
            assert(next.last() == indices@[i as int]);
            if i == 0 {
                assert(indices@.take(0) =~= Seq::<usize>::empty());
                assert(text@ =~= decimal(indices@[0] as nat));
            } else {
                assert(text@ =~= joined(indices@.take(i as int)) + ", "@ + decimal(
                    indices@[i as int] as nat,
                ));
            }
        }
        i = i + 1;
    }
    if indices.len() > SHOWN_INDICES {
        proof {
            reveal_strlit(", ... (");
            reveal_strlit(" total)");
        }
        text.append(", ... (");
        push_decimal(&mut text, indices.len() as u64);
        text.append(" total)");
        assert(text@ =~= abbreviated(indices@));
    } else {
        assert(indices@.take(indices@.len() as int) =~= indices@);
    }
    text
}

} // verus!
