//! Text of numbers, and lists of texts.

use vstd::prelude::*;

verus! {

/// The decimal digits of `n`, without leading zeros.
pub open spec fn decimal(n: nat) -> Seq<char>
    decreases n,
{
    let last = (48 + n % 10) as char;
    if n < 10 {
        seq![last]
    } else {
        decimal(n / 10).push(last)
    }
}

/// The text of a decimal digit.
fn digit(d: usize) -> (text: &'static str)
    requires
        d < 10,
    ensures
        text@ == seq![(48 + d) as char],
{
    proof {
        reveal_strlit("0");
        reveal_strlit("1");
        reveal_strlit("2");
        reveal_strlit("3");
        reveal_strlit("4");
        reveal_strlit("5");
        reveal_strlit("6");
        reveal_strlit("7");
        reveal_strlit("8");
        reveal_strlit("9");
    }
    let text = match d {
        0 => "0",
        1 => "1",
        2 => "2",
        3 => "3",
        4 => "4",
        5 => "5",
        6 => "6",
        7 => "7",
        8 => "8",
        _ => "9",
    };
    assert(text@ =~= seq![(48 + d) as char]);
    text
}

/// The decimal digits of `n`.
pub fn usize_to_string(n: usize) -> (text: String)
    ensures
        text@ == decimal(n as nat),
    decreases n,
{
    let last = digit(n % 10);
    if n < 10 {
        last.to_owned()
    } else {
        let text = usize_to_string(n / 10).concat(last);
        assert(text@ =~= decimal(n as nat));
        text
    }
}

/// The characters of each text.
pub open spec fn texts(list: Seq<String>) -> Seq<Seq<char>> {
    list.map_values(|text: String| text@)
}

/// A copy of a list of texts.
pub fn copy_texts(list: &Vec<String>) -> (copy: Vec<String>)
    ensures
        copy@ == list@,
{
    let copy = list.clone();
    assert(copy@ =~= list@);
    copy
}

/// The number that decimal digits stand for.
pub open spec fn value_of(digits: Seq<char>) -> int
    decreases digits.len(),
{
    if digits.len() == 0 {
        0
    } else {
        10 * value_of(digits.drop_last()) + (digits.last() as int - '0' as int)
    }
}

/// The digits of a number are decimal digits and stand for it, and only zero starts with a zero.
pub proof fn law_digits_stand_for_the_number(n: nat)
    ensures
        decimal(n).len() > 0,
        value_of(decimal(n)) == n,
        forall|i: int| 0 <= i < decimal(n).len() ==> '0' <= #[trigger] decimal(n)[i] <= '9',
        decimal(n)[0] == '0' ==> n == 0 && decimal(n).len() == 1,
    decreases n,
{
    let last = (48 + n % 10) as char;
    if n < 10 {
        assert(decimal(n).drop_last() =~= Seq::empty());
        assert(value_of(decimal(n).drop_last()) == 0);
    } else {
        law_digits_stand_for_the_number(n / 10);
        assert(decimal(n).drop_last() =~= decimal(n / 10));
        assert(decimal(n)[0] == decimal(n / 10)[0]);
    }
}

/// A list of texts has the characters of each text, at its place.
pub proof fn law_texts_are_at_their_place(list: Seq<String>, i: int)
    ensures
        texts(list).len() == list.len(),
        0 <= i < list.len() ==> texts(list)[i] == list[i]@,
{
}

/// The text of a number has its digits: it reads as the number.
pub proof fn law_texts_read_as_their_number(n: usize, text: String, i: int)
    requires
        call_ensures(usize_to_string, (n,), text),
    ensures
        value_of(text@) == n,
        text@.len() > 0,
        0 <= i < text@.len() ==> '0' <= text@[i] <= '9',
        text@[0] == '0' ==> n == 0 && text@.len() == 1,
{
    law_digits_stand_for_the_number(n as nat);
}

/// A copy of a list of texts holds the same texts.
pub proof fn law_copies_hold_the_same_texts(list: &Vec<String>, copy: Vec<String>, i: int)
    requires
        call_ensures(copy_texts, (list,), copy),
    ensures
        copy@.len() == list@.len(),
        0 <= i < list@.len() ==> copy@[i] == list@[i],
{
}

} // verus!
