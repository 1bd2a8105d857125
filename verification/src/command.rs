//! The commands the panel sends to the host: switch to a buffer, close a
//! buffer. Both name the buffer by its number in decimal.

use vstd::prelude::*;

verus! {

/// The character for a single decimal digit.
pub open spec fn digit_char(d: nat) -> char {
    if d == 0 {
        '0'
    } else if d == 1 {
        '1'
    } else if d == 2 {
        '2'
    } else if d == 3 {
        '3'
    } else if d == 4 {
        '4'
    } else if d == 5 {
        '5'
    } else if d == 6 {
        '6'
    } else if d == 7 {
        '7'
    } else if d == 8 {
        '8'
    } else {
        '9'
    }
}

/// The decimal numeral of `n`, without sign or leading zeros.
pub open spec fn decimal(n: nat) -> Seq<char>
    decreases n,
{
    if n < 10 {
        seq![digit_char(n)]
    } else {
        decimal(n / 10).push(digit_char(n % 10))
    }
}

/// The command that makes buffer `id` the host's active buffer.
pub open spec fn switch_command_text(id: u64) -> Seq<char> {
    seq![':', 'b', ' '] + decimal(id as nat)
}

/// The command that closes buffer `id`.
pub open spec fn close_command_text(id: u64) -> Seq<char> {
    seq![':', 'b', 'd', ' '] + decimal(id as nat)
}

fn digit_str(d: u64) -> (s: &'static str)
    requires
        d < 10,
    ensures
        s@ == seq![digit_char(d as nat)],
{
    proof {
        reveal_strlit("0");
        reveal_strlit("1");
        reveal_strlit("2");
        reveal_strlit("3");
        reveal_strlit("4");
        reveal_strlit("5");
        reveal_strlit("6");
        reveal_strlit("7");
        reveal_strlit("8");
        reveal_strlit("9");
    }
    let s = if d == 0 {
        "0"
    } else if d == 1 {
        "1"
    } else if d == 2 {
        "2"
    } else if d == 3 {
        "3"
    } else if d == 4 {
        "4"
    } else if d == 5 {
        "5"
    } else if d == 6 {
        "6"
    } else if d == 7 {
        "7"
    } else if d == 8 {
        "8"
    } else {
        "9"
    };
    assert(s@ =~= seq![digit_char(d as nat)]);
    s
}

/// Appends the decimal numeral of `n` to `text`.
pub fn push_decimal(text: &mut String, n: u64)
    ensures
        final(text)@ == old(text)@ + decimal(n as nat),
    decreases n,
{
    if n >= 10 {
        push_decimal(text, n / 10);
    }
    text.append(digit_str(n % 10));
    assert(final(text)@ =~= old(text)@ + decimal(n as nat));
}

/// The command that makes buffer `id` the host's active buffer.
pub fn switch_command(id: u64) -> (command: String)
    ensures
        command@ == switch_command_text(id),
{
    proof {
        reveal_strlit(":b ");
    }
    let mut command = ":b ".to_owned();
    push_decimal(&mut command, id);
    assert(command@ =~= switch_command_text(id));
    command
}

/// The command that closes buffer `id`.
pub fn close_command(id: u64) -> (command: String)
    ensures
        command@ == close_command_text(id),
{
    proof {
        reveal_strlit(":bd ");
    }
    let mut command = ":bd ".to_owned();
    push_decimal(&mut command, id);
    assert(command@ =~= close_command_text(id));
    command
}

} // verus!
