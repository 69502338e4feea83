//! Small pieces of text that the notification bodies and the error messages
//! are made of.

use vstd::prelude::*;
use vstd::string::*;

verus! {

/// The character of one decimal digit.
pub open spec fn digit(d: nat) -> char {
    if d == 0 {
        '0'
    } else if d == 1 {
        '1'
    } else if d == 2 {
        '2'
    } else if d == 3 {
        '3'
    } else if d == 4 {
        '4'
    } else if d == 5 {
        '5'
    } else if d == 6 {
        '6'
    } else if d == 7 {
        '7'
    } else if d == 8 {
        '8'
    } else {
        '9'
    }
}

/// `n` written in base ten, without leading zeros.
pub open spec fn decimal(n: nat) -> Seq<char>
    decreases n,
{
    if n < 10 {
        seq![digit(n)]
    } else {
        decimal(n / 10).push(digit(n % 10))
    }
}

fn digit_text(d: usize) -> (text: &'static str)
    requires
        d < 10,
    ensures
        text@ == seq![digit(d as nat)],
{
    proof {
        reveal_strlit("0");
        reveal_strlit("1");
        reveal_strlit("2");
        reveal_strlit("3");
        reveal_strlit("4");
        reveal_strlit("5");
        reveal_strlit("6");
        reveal_strlit("7");
        reveal_strlit("8");
        reveal_strlit("9");
    }
    let text = if d == 0 {
        "0"
    } else if d == 1 {
        "1"
    } else if d == 2 {
        "2"
    } else if d == 3 {
        "3"
    } else if d == 4 {
        "4"
    } else if d == 5 {
        "5"
    } else if d == 6 {
        "6"
    } else if d == 7 {
        "7"
    } else if d == 8 {
        "8"
    } else {
        "9"
    };
    assert(text@ =~= seq![digit(d as nat)]);
    text
}

/// Writes `n` in base ten.
pub fn decimal_string(n: usize) -> (text: String)
    ensures
        text@ == decimal(n as nat),
    decreases n,
{
    if n < 10 {
        String::from_str(digit_text(n))
    } else {
        let mut text = decimal_string(n / 10);
        text.append(digit_text(n % 10));
        assert(text@ =~= decimal((n / 10) as nat).push(digit((n % 10) as nat)));
        text
    }
}

/// `prefix`, a colon, a space, and `detail`: the form of every message that
/// tells the user which operation failed and why.
pub open spec fn failure_text(prefix: Seq<char>, detail: Seq<char>) -> Seq<char> {
    prefix + seq![':', ' '] + detail
}

/// Builds the message of a failed operation.
pub fn failure_message(prefix: &str, detail: &str) -> (message: String)
    ensures
        message@ == failure_text(prefix@, detail@),
{
    proof {
        reveal_strlit(": ");
    }
    let mut message = String::from_str(prefix);
    message.append(": ");
    message.append(detail);
    assert(": "@ =~= seq![':', ' ']);
    message
}

/// Whether `text` begins with `prefix`.
pub fn starts_with(text: &str, prefix: &str) -> (begins: bool)
    ensures
        begins == prefix@.is_prefix_of(text@),
{
    let length = text.unicode_len();
    let needed = prefix.unicode_len();
    if needed > length {
        return false;
    }
    let mut i: usize = 0;
    while i < needed
        invariant
            i <= needed,
            needed == prefix@.len(),
            length == text@.len(),
            needed <= length,
            forall|j: int| 0 <= j < i ==> text@[j] == prefix@[j],
        decreases needed - i,
    {
        if text.get_char(i) != prefix.get_char(i) {
            assert(text@.subrange(0, needed as int)[i as int] != prefix@[i as int]);
            return false;
        }
        i = i + 1;
    }
    assert(prefix@ =~= text@.subrange(0, needed as int));
    true
}

} // verus!
