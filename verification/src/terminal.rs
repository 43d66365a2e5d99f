//! The writer for the terminal emulator Alacritty. Its file belongs to the
//! user: only the block under the line `colors:` is replaced, by the patch
//! engine, and every other line is kept. A file without that line gets no
//! block and stays as it is, character for character.
//!
//! The new block holds the background and the foreground under `primary`, the
//! eight normal colours under `normal` and the eight bright ones under `bright`,
//! each under its name. Colours stand as `'0xrrggbb'`.

use vstd::prelude::*;
use vstd::string::StringExecFns;
use crate::format::{
    color_name, color_name_text, hex_0x, lemma_color_names_are_words, lemma_hex_0x_of_color, to_0x,
};
use crate::palette::{is_palette, Palette, PaletteView};
use crate::patch::{
    contains_marker, has_marker, in_block, lemma_patch_twice, patch, patched_text, Patched,
};
use crate::text::{all_clean, is_clean, is_space, stripped_lines, texts};

verus! {

/// The line that opens the colour block.
pub open spec fn marker() -> Seq<char> {
    "colors:"@
}

/// The line that gives the colour `value` to `name`.
pub open spec fn entry_line(name: Seq<char>, value: Seq<char>) -> Seq<char> {
    "    "@ + name + ": '"@ + value + "'"@
}

/// The eight lines of the colours from `first` on, each under its name.
pub open spec fn named_entries(colors: Seq<Seq<char>>, first: int) -> Seq<Seq<char>> {
    Seq::new(8, |i: int| entry_line(color_name(i), hex_0x(colors[first + i])))
}

/// The lines of the new block.
pub open spec fn alacritty_block(p: PaletteView) -> Seq<Seq<char>> {
    seq![
        marker(),
        "  primary:"@,
        entry_line("background"@, hex_0x(p.background)),
        entry_line("foreground"@, hex_0x(p.foreground)),
        "  normal:"@,
    ] + named_entries(p.colors, 0) + seq!["  bright:"@] + named_entries(p.colors, 8)
}

/// The new content of a file that held `existing`.
pub open spec fn alacritty_text(p: PaletteView, existing: Seq<char>) -> Seq<char> {
    patched_text(existing, marker(), alacritty_block(p))
}

/// The line that gives `color`, reformatted, to `name`.
fn entry(name: &str, color: &str) -> (line: String)
    ensures
        line@ == entry_line(name@, hex_0x(color@)),
{
    let mut line = String::from_str("    ");
    line.append(name);
    line.append(": '");
    line.append(to_0x(color).as_str());
    line.append("'");
    line
}

/// Appends the eight lines of the colours from `first` on.
fn push_entries(lines: &mut Vec<String>, colors: &Vec<String>, first: usize)
    requires
        first + 8 <= colors.len(),
    ensures
        texts(final(lines)@) == texts(old(lines)@) + named_entries(texts(colors@), first as int),
{
    let mut i: usize = 0;
    while i < 8
        invariant
            i <= 8,
            first + 8 <= colors.len(),
            texts(lines@) == texts(old(lines)@) + named_entries(texts(colors@), first as int).take(
                i as int,
            ),
        decreases 8 - i,
    {
        let ghost before = texts(lines@);
        let ghost line = entry_line(color_name(i as int), hex_0x(texts(colors@)[first + i]));
        lines.push(entry(color_name_text(i), colors[first + i].as_str()));
        assert(texts(lines@) =~= before.push(line));
        i += 1;
    }
}

/// The lines of the new block.
pub fn alacritty_block_lines(palette: &Palette) -> (block: Vec<String>)
    ensures
        texts(block@) == alacritty_block(palette@),
{
    let colors = palette.colors();
    let mut block: Vec<String> = Vec::new();
    block.push(String::from_str("colors:"));
    block.push(String::from_str("  primary:"));
    block.push(entry("background", palette.background()));
    block.push(entry("foreground", palette.foreground()));
    block.push(String::from_str("  normal:"));
    push_entries(&mut block, colors, 0);
    let ghost upper = texts(block@);
    block.push(String::from_str("  bright:"));
    assert(texts(block@) =~= upper + seq!["  bright:"@]);
    push_entries(&mut block, colors, 8);
    block
}

/// Applies `palette` to the text of an Alacritty file: the block under the first
/// line `colors:` gives way to the new block, and all other lines are kept. A
/// text without such a line comes back unchanged, and the result says so.
pub fn alacritty_patch(palette: &Palette, existing: &str) -> (out: Patched)
    ensures
        out.text@ == alacritty_text(palette@, existing@),
        out.replaced == has_marker(stripped_lines(existing@), marker()),
{
    let block = alacritty_block_lines(palette);
    patch(existing, "colors:", &block)
}

/// Whether the text holds a line `colors:`, and with it a block to replace.
pub fn has_color_block(existing: &str) -> (found: bool)
    ensures
        found == has_marker(stripped_lines(existing@), marker()),
{
    contains_marker(existing, "colors:")
}

/// The new block lists the colours in the fixed order of their names. It holds
/// twenty-two lines; the eight lines behind `  normal:` give black, red, green,
/// yellow, blue, magenta, cyan and white the colours 0 to 7, and the eight lines
/// behind `  bright:` give the same names the colours 8 to 15.
pub proof fn lemma_block_order(p: PaletteView)
    ensures
        alacritty_block(p).len() == 22,
        alacritty_block(p)[0] == "colors:"@,
        alacritty_block(p)[1] == "  primary:"@,
        alacritty_block(p)[2] == entry_line("background"@, hex_0x(p.background)),
        alacritty_block(p)[3] == entry_line("foreground"@, hex_0x(p.foreground)),
        alacritty_block(p)[4] == "  normal:"@,
        forall|i: int|
            0 <= i < 8 ==> #[trigger] alacritty_block(p)[5 + i] == entry_line(
                color_name(i),
                hex_0x(p.colors[i]),
            ),
        alacritty_block(p)[13] == "  bright:"@,
        forall|i: int|
            0 <= i < 8 ==> #[trigger] alacritty_block(p)[14 + i] == entry_line(
                color_name(i),
                hex_0x(p.colors[8 + i]),
            ),
        color_name(0) == "black"@,
        color_name(1) == "red"@,
        color_name(2) == "green"@,
        color_name(3) == "yellow"@,
        color_name(4) == "blue"@,
        color_name(5) == "magenta"@,
        color_name(6) == "cyan"@,
        color_name(7) == "white"@,
{
}

/// A line that gives a colour to a word is indented and clean.
pub proof fn lemma_entry_line_in_block(name: Seq<char>, value: Seq<char>)
    requires
        forall|k: int| 0 <= k < name.len() ==> !is_space(#[trigger] name[k]),
        forall|k: int| 0 <= k < value.len() ==> !is_space(#[trigger] value[k]),
    ensures
        in_block(entry_line(name, value)),
        is_clean(entry_line(name, value)),
{
    reveal_strlit("    ");
    reveal_strlit(": '");
    reveal_strlit("'");
}

/// The new block is one that the engine finds again: its first line is the
/// marker, every other line belongs to the block, and all lines are clean.
pub proof fn lemma_block_is_found_again(p: PaletteView)
    requires
        is_palette(p),
    ensures
        alacritty_block(p).len() > 0,
        alacritty_block(p)[0] == marker(),
        forall|i: int|
            1 <= i < alacritty_block(p).len() ==> in_block(#[trigger] alacritty_block(p)[i]),
        all_clean(alacritty_block(p)),
{
    let block = alacritty_block(p);
    lemma_block_order(p);
    reveal_strlit("colors:");
    reveal_strlit("  primary:");
    reveal_strlit("  normal:");
    reveal_strlit("  bright:");
    reveal_strlit("background");
    reveal_strlit("foreground");
    lemma_hex_0x_of_color(p.background);
    lemma_hex_0x_of_color(p.foreground);
    lemma_entry_line_in_block("background"@, hex_0x(p.background));
    lemma_entry_line_in_block("foreground"@, hex_0x(p.foreground));
    assert forall|i: int| 0 <= i < block.len() implies is_clean(#[trigger] block[i]) && (i >= 1
        ==> in_block(block[i])) by {
        if 5 <= i < 13 {
            let j = i - 5;
            lemma_color_names_are_words(j);
            lemma_hex_0x_of_color(p.colors[j]);
            lemma_entry_line_in_block(color_name(j), hex_0x(p.colors[j]));
        } else if 14 <= i {
            let j = i - 14;
            lemma_color_names_are_words(j);
            lemma_hex_0x_of_color(p.colors[8 + j]);
            lemma_entry_line_in_block(color_name(j), hex_0x(p.colors[8 + j]));
        }
    }
}

/// Applying a palette a second time changes nothing: the file that the writer
/// left is the file that it leaves again.
pub proof fn lemma_alacritty_twice(p: PaletteView, existing: Seq<char>)
    requires
        is_palette(p),
    ensures
        alacritty_text(p, alacritty_text(p, existing)) == alacritty_text(p, existing),
{
    lemma_block_is_found_again(p);
    lemma_patch_twice(existing, marker(), alacritty_block(p));
}

} // verus!
