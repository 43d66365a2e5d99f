//! What the writers share: the names of the eight colours and the two ways of
//! writing a colour.

use vstd::prelude::*;
use vstd::string::StringExecFns;
use crate::palette::is_color;
use crate::text::{chars_of, is_space, push_chars};

verus! {

/// The name of the colour at `index` among the eight normal ones, and as well of
/// its bright counterpart: black, red, green, yellow, blue, magenta, cyan, white.
pub open spec fn color_name(index: int) -> Seq<char> {
    if index == 0 {
        "black"@
    } else if index == 1 {
        "red"@
    } else if index == 2 {
        "green"@
    } else if index == 3 {
        "yellow"@
    } else if index == 4 {
        "blue"@
    } else if index == 5 {
        "magenta"@
    } else if index == 6 {
        "cyan"@
    } else {
        "white"@
    }
}

/// A colour in the form `0xrrggbb`: `0x` in place of the leading `#`. A text
/// that does not start with `#` stays as it is.
pub open spec fn hex_0x(color: Seq<char>) -> Seq<char> {
    if color.len() > 0 && color[0] == '#' {
        "0x"@ + color.skip(1)
    } else {
        color
    }
}

/// The name of the colour at `index`; that of the last one for any index from
/// seven on.
pub fn color_name_text(index: usize) -> (name: &'static str)
    ensures
        name@ == color_name(index as int),
{
    if index == 0 {
        "black"
    } else if index == 1 {
        "red"
    } else if index == 2 {
        "green"
    } else if index == 3 {
        "yellow"
    } else if index == 4 {
        "blue"
    } else if index == 5 {
        "magenta"
    } else if index == 6 {
        "cyan"
    } else {
        "white"
    }
}

/// The colour in the form `0xrrggbb`.
pub fn to_0x(color: &str) -> (out: String)
    ensures
        out@ == hex_0x(color@),
{
    let chars = chars_of(color);
    if chars.len() > 0 && chars[0] == '#' {
        let mut out = String::from_str("0x");
        let mut i: usize = 1;
        while i < chars.len()
            invariant
                1 <= i <= chars.len(),
                out@ == "0x"@ + chars@.subrange(1, i as int),
            decreases chars.len() - i,
        {
            out.push(chars[i]);
            i += 1;
        }
        out
    } else {
        let mut out = String::new();
        push_chars(&mut out, &chars);
        out
    }
}

/// The names of the colours hold no line feed and no whitespace.
pub proof fn lemma_color_names_are_words(index: int)
    ensures
        color_name(index).len() > 0,
        forall|k: int|
            0 <= k < color_name(index).len() ==> !is_space(#[trigger] color_name(index)[k]),
{
    reveal_strlit("black");
    reveal_strlit("red");
    reveal_strlit("green");
    reveal_strlit("yellow");
    reveal_strlit("blue");
    reveal_strlit("magenta");
    reveal_strlit("cyan");
    reveal_strlit("white");
}

/// A colour reformatted is `0x` and the same six digits: its eight characters
/// are `0`, `x` and the characters of the colour behind its `#`.
pub proof fn lemma_hex_0x_of_color(color: Seq<char>)
    requires
        is_color(color),
    ensures
        hex_0x(color).len() == 8,
        hex_0x(color)[0] == '0',
        hex_0x(color)[1] == 'x',
        forall|k: int| 1 <= k < 7 ==> hex_0x(color)[k + 1] == color[k],
        forall|k: int| 0 <= k < 8 ==> !is_space(#[trigger] hex_0x(color)[k]),
{
    reveal_strlit("0x");
}

} // verus!
