//! The color picker: three numeric inputs, one per channel, that set the
//! drawing color.

use vstd::prelude::*;
use crate::color::Color;
use crate::text::same_text;
use crate::tool::tool_bar::ToolBar;
use crate::tool::Tool;

verus! {

/// A channel that the color picker can set.
#[derive(Clone, Copy, Debug, PartialEq, Eq, Structural)]
pub enum Channel {
    Red,
    Green,
    Blue,
}

/// The channel whose input has the given identifier, if there is one.
pub open spec fn channel_of(id: Seq<char>) -> Option<Channel> {
    if id == "color-picker-red"@ {
        Some(Channel::Red)
    } else if id == "color-picker-green"@ {
        Some(Channel::Green)
    } else if id == "color-picker-blue"@ {
        Some(Channel::Blue)
    } else {
        None
    }
}

/// Whether the character is one of the ten decimal digits.
pub open spec fn is_digit(c: char) -> bool {
    '0' <= c <= '9'
}

/// The number a decimal digit stands for.
pub open spec fn digit_value(c: char) -> nat {
    (c as u32 - '0' as u32) as nat
}

/// The number that the decimal digits of the text spell, read from left to
/// right; every other character is passed over. A text without a digit
/// spells zero.
pub open spec fn digits_value(text: Seq<char>) -> nat
    decreases text.len(),
{
    if text.len() == 0 {
        0
    } else if is_digit(text.last()) {
        digits_value(text.drop_last()) * 10 + digit_value(text.last())
    } else {
        digits_value(text.drop_last())
    }
}

/// Whether the text holds decimal digits and nothing else.
pub open spec fn all_digits(text: Seq<char>) -> bool {
    forall|i: int| 0 <= i < text.len() ==> is_digit(#[trigger] text[i])
}

/// What an input shows while its text is typed: the number that the digits
/// of the text spell, and 255 where that is more.
pub open spec fn typed_value(text: Seq<char>) -> u8 {
    if digits_value(text) > 255 {
        255
    } else {
        digits_value(text) as u8
    }
}

/// The text of an input without the plus sign that may lead it.
pub open spec fn unsigned_part(text: Seq<char>) -> Seq<char> {
    if text.len() > 0 && text[0] == '+' {
        text.skip(1)
    } else {
        text
    }
}

/// The channel value that the text of an input stands for when the color is
/// taken over: the number it spells where the text is a number of at most
/// 255, written with decimal digits after at most one plus sign, and 255 for
/// every other text.
pub open spec fn committed_value(text: Seq<char>) -> u8 {
    let digits = unsigned_part(text);
    if digits.len() > 0 && all_digits(digits) && digits_value(digits) <= 255 {
        digits_value(digits) as u8
    } else {
        255
    }
}

/// The color with one channel replaced.
pub open spec fn with_channel(color: Color, channel: Channel, value: u8) -> Color {
    match channel {
        Channel::Red => Color { r: value, ..color },
        Channel::Green => Color { g: value, ..color },
        Channel::Blue => Color { b: value, ..color },
    }
}

/// The value of one channel of the color.
pub open spec fn channel_value(color: Color, channel: Channel) -> u8 {
    match channel {
        Channel::Red => color.r,
        Channel::Green => color.g,
        Channel::Blue => color.b,
    }
}

impl Channel {
    pub fn from_id(id: &str) -> (channel: Option<Channel>)
        ensures
            channel == channel_of(id@),
    {
        if same_text(id, "color-picker-red") {
            Some(Channel::Red)
        } else if same_text(id, "color-picker-green") {
            Some(Channel::Green)
        } else if same_text(id, "color-picker-blue") {
            Some(Channel::Blue)
        } else {
            None
        }
    }
}

/// The number a character stands for as a decimal digit, if it is one.
pub fn to_digit(c: char) -> (digit: Option<u32>)
    ensures
        digit == (if is_digit(c) {
            Some(digit_value(c) as u32)
        } else {
            None
        }),
{
    if '0' <= c && c <= '9' {
        Some(c as u32 - '0' as u32)
    } else {
        None
    }
}

/// Shows the button of the color picker as selected.
pub fn init(tool_bar: &mut ToolBar)
    ensures
        *final(tool_bar) == old(tool_bar).with(Tool::Color, true),
{
    tool_bar.set_selected(Tool::Color, true);
}

/// The value to show in an input whose text was edited.
pub fn on_input(text: &str) -> (value: u8)
    ensures
        value == typed_value(text@),
{
    let len: usize = text.unicode_len();
    let mut value: u32 = 0;
    let mut index: usize = 0;
    while index < len
        invariant
            index <= len,
            len == text@.len(),
            value <= 2559,
            value <= 255 ==> value == digits_value(text@.take(index as int)),
            value > 255 ==> digits_value(text@.take(index as int)) > 255,
        decreases len - index,
    {
        let digit = to_digit(text.get_char(index));
        proof {
            assert(text@.take(index + 1).drop_last() =~= text@.take(index as int));
        }
        if let Some(digit) = digit {
            if value <= 255 {
                value = value * 10 + digit;
            }
        }
        index = index + 1;
    }
    assert(text@.take(len as int) =~= text@);
    if value > 255 {
        value = 255;
    }
    value as u8
}

/// The value of the channel, to show in its input.
pub fn read_color(color: &Color, channel: Channel) -> (value: u8)
    ensures
        value == channel_value(*color, channel),
{
    match channel {
        Channel::Red => color.r,
        Channel::Green => color.g,
        Channel::Blue => color.b,
    }
}

/// The channel value that the text of an input stands for.
pub fn parse_channel(text: &str) -> (value: u8)
    ensures
        value == committed_value(text@),
{
    let len: usize = text.unicode_len();
    let first: usize = if len > 0 && text.get_char(0) == '+' { 1 } else { 0 };
    let ghost digits = unsigned_part(text@);
    assert(digits =~= text@.skip(first as int));
    if first == len {
        return 255;
    }
    let mut value: u32 = 0;
    let mut index: usize = first;
    while index < len
        invariant
            first <= index <= len,
            len == text@.len(),
            digits == text@.skip(first as int),
            digits == unsigned_part(text@),
            value <= 255,
            all_digits(digits.take(index - first)),
            value == digits_value(digits.take(index - first)),
        decreases len - index,
    {
        let digit = to_digit(text.get_char(index));
        proof {
            assert(digits.take(index + 1 - first).drop_last() =~= digits.take(index - first));
            assert(digits.take(index + 1 - first).last() == text@[index as int]);
        }
        match digit {
            Some(digit) => {
                value = value * 10 + digit;
                assert(value == digits_value(digits.take(index + 1 - first)));
                if value > 255 {
                    proof {
                        lemma_digits_value_grows(digits, index + 1 - first);
                    }
                    return 255;
                }
            },
            None => {
                assert(!is_digit(digits[index - first]));
                return 255;
            },
        }
        index = index + 1;
    }
    assert(digits.take(len - first) =~= digits);
    value as u8
}

/// The number spelled by the digits of a text is at least the number spelled
/// by the digits of any of its beginnings.
pub proof fn lemma_digits_value_grows(text: Seq<char>, len: int)
    requires
        0 <= len <= text.len(),
    ensures
        digits_value(text.take(len)) <= digits_value(text),
    decreases text.len() - len,
{
    if len < text.len() {
        assert(text.take(len + 1).drop_last() =~= text.take(len));
        lemma_digits_value_grows(text, len + 1);
    } else {
        assert(text.take(len) =~= text);
    }
}

/// Takes the text of the input of one channel over into the color.
pub fn write_color(color: &mut Color, channel: Channel, text: &str)
    ensures
        *final(color) == with_channel(*old(color), channel, committed_value(text@)),
{
    let color_value = parse_channel(text);
    match channel {
        Channel::Red => {
            color.r = color_value;
        },
        Channel::Green => {
            color.g = color_value;
        },
        Channel::Blue => {
            color.b = color_value;
        },
    }
}

} // verus!
