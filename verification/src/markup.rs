//! The markup that replaces a marker.

use vstd::prelude::*;
use vstd::string::*;

verus! {

/// The character of a decimal digit.
pub open spec fn digit_char(d: nat) -> char
    recommends
        d < 10,
{
    if d == 0 {
        '0'
    } else if d == 1 {
        '1'
    } else if d == 2 {
        '2'
    } else if d == 3 {
        '3'
    } else if d == 4 {
        '4'
    } else if d == 5 {
        '5'
    } else if d == 6 {
        '6'
    } else if d == 7 {
        '7'
    } else if d == 8 {
        '8'
    } else {
        '9'
    }
}

/// The decimal numeral of `n`, without sign or leading zeros.
pub open spec fn decimal(n: nat) -> Seq<char>
    decreases n,
{
    if n < 10 {
        seq![digit_char(n)]
    } else {
        decimal(n / 10).push(digit_char(n % 10))
    }
}

/// The value of a decimal digit character, if it is one.
pub open spec fn digit_value(c: char) -> Option<nat> {
    if c == '0' {
        Some(0)
    } else if c == '1' {
        Some(1)
    } else if c == '2' {
        Some(2)
    } else if c == '3' {
        Some(3)
    } else if c == '4' {
        Some(4)
    } else if c == '5' {
        Some(5)
    } else if c == '6' {
        Some(6)
    } else if c == '7' {
        Some(7)
    } else if c == '8' {
        Some(8)
    } else if c == '9' {
        Some(9)
    } else {
        None
    }
}

/// The number a sequence of decimal digits denotes; `None` if the sequence is
/// empty or holds another character.
pub open spec fn decimal_value(s: Seq<char>) -> Option<nat>
    decreases s.len(),
{
    if s.len() == 0 {
        None
    } else if s.len() == 1 {
        digit_value(s[0])
    } else {
        match (decimal_value(s.drop_last()), digit_value(s.last())) {
            (Some(high), Some(low)) => Some(high * 10 + low),
            _ => None,
        }
    }
}

/// The class every generated block carries.
pub open spec fn block_class() -> Seq<char> {
    "blocky-block"@
}

/// What stands before the level in the class of a nested block.
pub open spec fn level_class_prefix() -> Seq<char> {
    "block-level-"@
}

/// The value of the class attribute of the block that `name` opens at
/// nesting level `level`: the name, the block class and, below the top level,
/// the level class, which counts the enclosing blocks.
pub open spec fn class_attribute(name: Seq<char>, level: nat) -> Seq<char> {
    if level > 1 {
        name + seq![' '] + block_class() + seq![' '] + level_class_prefix() + decimal(
            (level - 1) as nat,
        )
    } else {
        name + seq![' '] + block_class()
    }
}

/// The markup that opens the block that `name` opens at nesting level `level`.
pub open spec fn open_markup(name: Seq<char>, level: nat) -> Seq<char> {
    "<div class=\""@ + class_attribute(name, level) + "\">"@
}

/// The markup that closes a block.
pub open spec fn close_markup() -> Seq<char> {
    "</div>"@
}

/// The one-character string of a decimal digit.
fn digit_str(d: usize) -> (s: &'static str)
    requires
        d < 10,
    ensures
        s@ == seq![digit_char(d as nat)],
{
    proof {
        reveal_strlit("0");
        reveal_strlit("1");
        reveal_strlit("2");
        reveal_strlit("3");
        reveal_strlit("4");
        reveal_strlit("5");
        reveal_strlit("6");
        reveal_strlit("7");
        reveal_strlit("8");
        reveal_strlit("9");
    }
    let s = if d == 0 {
        "0"
    } else if d == 1 {
        "1"
    } else if d == 2 {
        "2"
    } else if d == 3 {
        "3"
    } else if d == 4 {
        "4"
    } else if d == 5 {
        "5"
    } else if d == 6 {
        "6"
    } else if d == 7 {
        "7"
    } else if d == 8 {
        "8"
    } else {
        "9"
    };
    assert(s@ =~= seq![digit_char(d as nat)]);
    s
}

/// Appends the decimal numeral of `n` to `out`.
fn push_decimal(out: &mut String, n: usize)
    ensures
        final(out)@ == old(out)@ + decimal(n as nat),
    decreases n,
{
    if n >= 10 {
        push_decimal(out, n / 10);
    }
    out.append(digit_str(n % 10));
    assert(out@ =~= old(out)@ + decimal(n as nat));
}

/// Builds the markup that opens the block that `name` opens at nesting level
/// `level`.
pub fn open_div(name: &str, level: usize) -> (markup: String)
    ensures
        markup@ == open_markup(name@, level as nat),
{
    proof {
        reveal_strlit(" ");
    }
    let mut markup = String::from_str("<div class=\"");
    markup.append(name);
    markup.append(" ");
    markup.append("blocky-block");
    if level > 1 {
        markup.append(" ");
        markup.append("block-level-");
        push_decimal(&mut markup, level - 1);
    }
    markup.append("\">");
    assert(markup@ =~= open_markup(name@, level as nat));
    markup
}

/// Builds the markup that closes a block.
pub fn close_div() -> (markup: String)
    ensures
        markup@ == close_markup(),
{
    String::from_str("</div>")
}

} // verus!
