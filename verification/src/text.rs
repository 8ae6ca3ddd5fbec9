//! Building blocks of the fixed-width report text: decimal numbers and
//! left-aligned, space-padded fields.

use vstd::prelude::*;

verus! {

/// The character for one decimal digit.
pub open spec fn digit(value: nat) -> char
    recommends
        value < 10,
{
    seq!['0', '1', '2', '3', '4', '5', '6', '7', '8', '9'][value as int]
}

/// The decimal notation of `value`, most significant digit first, without
/// sign or leading zeros.
pub open spec fn decimal(value: nat) -> Seq<char>
    decreases value,
{
    if value < 10 {
        seq![digit(value)]
    } else {
        decimal(value / 10).push(digit(value % 10))
    }
}

/// `count` spaces.
pub open spec fn spaces(count: nat) -> Seq<char> {
    Seq::new(count, |i: int| ' ')
}

/// `field` followed by as many spaces as it takes to reach `width`
/// characters. A field that is already that long is left as it is: nothing
/// is cut off.
pub open spec fn padded(field: Seq<char>, width: nat) -> Seq<char> {
    if field.len() < width {
        field + spaces((width - field.len()) as nat)
    } else {
        field
    }
}

/// The text of one decimal digit.
fn digit_text(value: u8) -> (text: &'static str)
    requires
        value < 10,
    ensures
        text@ == seq![digit(value as nat)],
{
    proof {
        reveal_strlit("0");
        reveal_strlit("1");
        reveal_strlit("2");
        reveal_strlit("3");
        reveal_strlit("4");
        reveal_strlit("5");
        reveal_strlit("6");
        reveal_strlit("7");
        reveal_strlit("8");
        reveal_strlit("9");
    }
    let text = match value {
        0 => "0",
        1 => "1",
        2 => "2",
        3 => "3",
        4 => "4",
        5 => "5",
        6 => "6",
        7 => "7",
        8 => "8",
        _ => "9",
    };
    text
}

/// Appends the decimal notation of `value` to `text`.
pub fn push_decimal(text: &mut String, value: u64)
    ensures
        final(text)@ == old(text)@ + decimal(value as nat),
    decreases value,
{
    if value >= 10 {
        push_decimal(text, value / 10);
    }
    text.append(digit_text((value % 10) as u8));
}

/// The decimal notation of `value`.
pub fn decimal_string(value: u64) -> (text: String)
    ensures
        text@ == decimal(value as nat),
{
    let mut text = String::new();
    push_decimal(&mut text, value);
    text
}

/// Appends `field` to `text`, left-aligned in a column of `width`
/// characters.
pub fn push_padded(text: &mut String, field: &str, width: usize)
    ensures
        final(text)@ == old(text)@ + padded(field@, width as nat),
{
    text.append(field);
    let mut column: usize = field.unicode_len();
    while column < width
        invariant
            field@.len() <= column,
            column <= width || column == field@.len(),
            text@ == old(text)@ + field@ + spaces((column - field@.len()) as nat),
        decreases width - column,
    {
        proof {
            reveal_strlit(" ");
        }
        text.append(" ");
        column += 1;
    }
}

/// The digit that a character stands for.
pub open spec fn digit_value(c: char) -> nat
    recommends
        '0' <= c <= '9',
{
    (c as nat - '0' as nat) as nat
}

/// The number that a sequence of decimal digits denotes.
pub open spec fn number_of(digits: Seq<char>) -> nat
    decreases digits.len(),
{
    if digits.len() == 0 {
        0
    } else {
        number_of(digits.drop_last()) * 10 + digit_value(digits.last())
    }
}

/// The decimal notation of a number consists of digits, denotes that
/// number, and begins with a zero only when the number is zero.
pub proof fn lemma_decimal_denotes(value: nat)
    ensures
        decimal(value).len() >= 1,
        forall|i: int| 0 <= i < decimal(value).len() ==> '0' <= #[trigger] decimal(value)[i] <= '9',
        number_of(decimal(value)) == value,
        value > 0 ==> decimal(value)[0] != '0',
    decreases value,
{
    if value >= 10 {
        lemma_decimal_denotes(value / 10);
        assert(decimal(value).drop_last() =~= decimal(value / 10));
    } else {
        reveal_with_fuel(number_of, 2);
    }
}

/// A padded field begins with the field, is at least `width` characters
/// long, and is the field itself when that is long enough already.
pub proof fn lemma_padded(field: Seq<char>, width: nat)
    ensures
        padded(field, width).len() == if field.len() < width {
            width
        } else {
            field.len()
        },
        padded(field, width).subrange(0, field.len() as int) == field,
        forall|i: int| field.len() <= i < padded(field, width).len() ==> padded(field, width)[i] == ' ',
{
}

/// The lowercase form of a text, where lowercase is what the Unicode
/// derived core property of that name says. It may be longer or shorter
/// than the text.
pub uninterp spec fn lowercase_of(text: Seq<char>) -> Seq<char>;

/// `str::to_lowercase` of the standard library. All that is claimed is that
/// the result is a function of the characters of the text: the same text
/// has the same lowercase form wherever and whenever it is asked for.
pub assume_specification[ str::to_lowercase ](text: &str) -> (lowered: String)
    ensures
        lowered@ == lowercase_of(text@),
;

} // verus!
