//! The writer for the status bar Polybar. It owns its file: the whole content
//! is written anew from the palette, and nothing of an earlier content is kept.
//!
//! The file holds the section header `[color]`, the background and the
//! foreground, the eight normal colours under their names and the eight bright
//! ones under `alt` and their names. Colours stand as `#rrggbb`.

use vstd::prelude::*;
use vstd::string::StringExecFns;
use crate::format::{color_name, color_name_text};
use crate::palette::{Palette, PaletteView};
use crate::text::{join_lines, push_lines, texts};

verus! {

/// The line that sets `name` to `value`.
pub open spec fn setting_line(name: Seq<char>, value: Seq<char>) -> Seq<char> {
    name + " = "@ + value
}

/// The eight lines of the normal colours.
pub open spec fn normal_settings(colors: Seq<Seq<char>>) -> Seq<Seq<char>> {
    Seq::new(8, |i: int| setting_line(color_name(i), colors[i]))
}

/// The eight lines of the bright colours.
pub open spec fn bright_settings(colors: Seq<Seq<char>>) -> Seq<Seq<char>> {
    Seq::new(8, |i: int| setting_line("alt"@ + color_name(i), colors[8 + i]))
}

/// The lines of the file.
pub open spec fn polybar_lines(p: PaletteView) -> Seq<Seq<char>> {
    seq![
        "[color]"@,
        setting_line("background"@, p.background),
        setting_line("foreground"@, p.foreground),
    ] + normal_settings(p.colors) + bright_settings(p.colors)
}

/// The content of the file.
pub open spec fn polybar_text(p: PaletteView) -> Seq<char> {
    join_lines(polybar_lines(p))
}

/// The line that sets `name` to `value`, with `prefix` before the name.
fn setting(prefix: &str, name: &str, value: &str) -> (line: String)
    ensures
        line@ == setting_line(prefix@ + name@, value@),
{
    let mut line = String::from_str(prefix);
    line.append(name);
    line.append(" = ");
    line.append(value);
    line
}

/// The lines of the file.
pub fn polybar_settings(palette: &Palette) -> (lines: Vec<String>)
    ensures
        texts(lines@) == polybar_lines(palette@),
{
    let colors = palette.colors();
    let mut lines: Vec<String> = Vec::new();
    lines.push(String::from_str("[color]"));
    lines.push(setting("", "background", palette.background()));
    lines.push(setting("", "foreground", palette.foreground()));
    proof {
        reveal_strlit("");
    }
    let ghost head = texts(lines@);
    let mut i: usize = 0;
    while i < 8
        invariant
            i <= 8,
            colors.len() == 16,
            texts(colors@) == palette@.colors,
            texts(lines@) == head + normal_settings(palette@.colors).take(i as int),
        decreases 8 - i,
    {
        let ghost before = texts(lines@);
        lines.push(setting("", color_name_text(i), colors[i].as_str()));
        proof {
            reveal_strlit("");
            assert(texts(lines@) =~= before.push(
                setting_line(color_name(i as int), palette@.colors[i as int]),
            ));
        }
        i += 1;
    }
    let ghost middle = texts(lines@);
    let mut i: usize = 0;
    while i < 8
        invariant
            i <= 8,
            colors.len() == 16,
            texts(colors@) == palette@.colors,
            texts(lines@) == middle + bright_settings(palette@.colors).take(i as int),
        decreases 8 - i,
    {
        let ghost before = texts(lines@);
        lines.push(setting("alt", color_name_text(i), colors[8 + i].as_str()));
        proof {
            assert(texts(lines@) =~= before.push(
                setting_line("alt"@ + color_name(i as int), palette@.colors[8 + i]),
            ));
        }
        i += 1;
    }
    lines
}

/// The content of the file for `palette`. It depends on the palette alone.
pub fn polybar_render(palette: &Palette) -> (content: String)
    ensures
        content@ == polybar_text(palette@),
{
    let lines = polybar_settings(palette);
    let mut content = String::new();
    push_lines(&mut content, &lines);
    content
}

/// The file lists the colours in the fixed order of their names, each as it
/// stands in the palette. It holds nineteen lines: the header, the background,
/// the foreground, then black, red, green, yellow, blue, magenta, cyan and white
/// with the colours 0 to 7, then the same names behind `alt` with the colours 8
/// to 15.
pub proof fn lemma_settings_order(p: PaletteView)
    ensures
        polybar_lines(p).len() == 19,
        polybar_lines(p)[0] == "[color]"@,
        polybar_lines(p)[1] == "background"@ + " = "@ + p.background,
        polybar_lines(p)[2] == "foreground"@ + " = "@ + p.foreground,
        forall|i: int|
            0 <= i < 8 ==> #[trigger] polybar_lines(p)[3 + i] == color_name(i) + " = "@
                + p.colors[i],
        forall|i: int|
            0 <= i < 8 ==> #[trigger] polybar_lines(p)[11 + i] == "alt"@ + color_name(i) + " = "@
                + p.colors[8 + i],
{
}

} // verus!
