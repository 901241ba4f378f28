use vstd::prelude::*;
use vstd::string::*;

verus! {

/// The character that writes the digit `d`.
pub open spec fn digit_char(d: nat) -> char
    recommends
        d < 10,
{
    if d == 0 {
        '0'
    } else if d == 1 {
        '1'
    } else if d == 2 {
        '2'
    } else if d == 3 {
        '3'
    } else if d == 4 {
        '4'
    } else if d == 5 {
        '5'
    } else if d == 6 {
        '6'
    } else if d == 7 {
        '7'
    } else if d == 8 {
        '8'
    } else {
        '9'
    }
}

/// `n` written in decimal, without leading zeros.
pub open spec fn decimal_text(n: nat) -> Seq<char>
    decreases n,
{
    if n < 10 {
        seq![digit_char(n)]
    } else {
        decimal_text(n / 10).push(digit_char(n % 10))
    }
}

/// Whether a count takes the word as it is: counts that end in 1, but not
/// in 11.
pub open spec fn takes_singular(count: nat) -> bool {
    count % 10 == 1 && count % 100 != 11
}

/// The count, a space, and the word, with an `s` unless the count takes the
/// word as it is.
pub open spec fn plural(word: Seq<char>, count: nat) -> Seq<char> {
    decimal_text(count) + seq![' '] + word + if takes_singular(count) {
        Seq::<char>::empty()
    } else {
        seq!['s']
    }
}

fn digit_text(d: u64) -> (text: &'static str)
    requires
        d < 10,
    ensures
        text@ == seq![digit_char(d as nat)],
{
    proof {
        reveal_strlit("0");
        reveal_strlit("1");
        reveal_strlit("2");
        reveal_strlit("3");
        reveal_strlit("4");
        reveal_strlit("5");
        reveal_strlit("6");
        reveal_strlit("7");
        reveal_strlit("8");
        reveal_strlit("9");
    }
    let text = if d == 0 {
        "0"
    } else if d == 1 {
        "1"
    } else if d == 2 {
        "2"
    } else if d == 3 {
        "3"
    } else if d == 4 {
        "4"
    } else if d == 5 {
        "5"
    } else if d == 6 {
        "6"
    } else if d == 7 {
        "7"
    } else if d == 8 {
        "8"
    } else {
        "9"
    };
    assert(text@ =~= seq![digit_char(d as nat)]);
    text
}

/// Writes `n` in decimal.
pub fn decimal_string(n: u64) -> (text: String)
    ensures
        text@ == decimal_text(n as nat),
    decreases n,
{
    if n < 10 {
        digit_text(n).to_owned()
    } else {
        let mut text = decimal_string(n / 10);
        text.append(digit_text(n % 10));
        proof {
            assert(decimal_text((n / 10) as nat) + seq![digit_char((n % 10) as nat)]
                =~= decimal_text(n as nat));
        }
        text
    }
}

/// Writes a count with its word, as in "1 time", "2 times", "11 times",
/// "21 time".
pub fn pluralize(word: &str, count: usize) -> (text: String)
    ensures
        text@ == plural(word@, count as nat),
{
    proof {
        reveal_strlit(" ");
        reveal_strlit("s");
    }
    let mut text = decimal_string(count as u64);
    text.append(" ");
    text.append(word);
    if !(count % 10 == 1 && count % 100 != 11) {
        text.append("s");
    }
    proof {
        assert(" "@ =~= seq![' ']);
        assert("s"@ =~= seq!['s']);
        assert(text@ =~= plural(word@, count as nat));
    }
    text
}

} // verus!
