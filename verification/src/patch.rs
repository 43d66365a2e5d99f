//! The patch engine: replaces one block of an existing file and keeps every
//! other line.
//!
//! The block begins at the first line that equals the marker and runs on over the
//! lines that are empty, start with `#` or start with whitespace. The lines are
//! compared after the whitespace at their ends has been stripped. A text without
//! a marker line is not touched: it comes back character for character.

use vstd::prelude::*;
use crate::text::{
    all_clean, chars_of, is_clean, is_line, is_space, is_space_char, join_lines,
    lemma_join_of_lines, lemma_joined_text_is_normal, lemma_lines_of_join,
    lemma_strip_end_is_prefix, lines_of, push_chars, push_lines, rows, same_chars, split_lines,
    strip_all, strip_end, stripped_lines, texts,
};

verus! {

/// Whether a line, stripped at its end, belongs to the block under a marker: it
/// is empty, a comment, or indented.
pub open spec fn in_block(line: Seq<char>) -> bool {
    line.len() == 0 || line[0] == '#' || is_space(line[0])
}

/// The index of the first line at or after `from` that equals `marker`; the
/// number of lines if there is none.
pub open spec fn marker_at(lines: Seq<Seq<char>>, marker: Seq<char>, from: int) -> int
    decreases lines.len() - from,
{
    if from >= lines.len() {
        lines.len() as int
    } else if lines[from] == marker {
        from
    } else {
        marker_at(lines, marker, from + 1)
    }
}

/// Whether some line equals `marker`.
pub open spec fn has_marker(lines: Seq<Seq<char>>, marker: Seq<char>) -> bool {
    marker_at(lines, marker, 0) < lines.len()
}

/// The index of the first line at or after `from` that does not belong to the
/// block; the number of lines if the block runs to the end.
pub open spec fn block_end(lines: Seq<Seq<char>>, from: int) -> int
    decreases lines.len() - from,
{
    if from >= lines.len() {
        lines.len() as int
    } else if !in_block(lines[from]) {
        from
    } else {
        block_end(lines, from + 1)
    }
}

/// The lines after the patch: those before the first marker, then `block` in
/// place of the marker and of the old block under it, then the rest. Without a
/// marker the lines stay as they are.
pub open spec fn patch_lines(
    lines: Seq<Seq<char>>,
    marker: Seq<char>,
    block: Seq<Seq<char>>,
) -> Seq<Seq<char>> {
    let at = marker_at(lines, marker, 0);
    if at < lines.len() {
        lines.take(at) + block + lines.skip(block_end(lines, at + 1))
    } else {
        lines
    }
}

/// The text after the patch. Where a line of `existing` is the marker: the lines
/// of `existing`, stripped at their ends and patched, each followed by one line
/// feed. Where none is: `existing` itself, unchanged.
pub open spec fn patched_text(
    existing: Seq<char>,
    marker: Seq<char>,
    block: Seq<Seq<char>>,
) -> Seq<char> {
    if has_marker(stripped_lines(existing), marker) {
        join_lines(patch_lines(stripped_lines(existing), marker, block))
    } else {
        existing
    }
}

/// What a patch gives back.
#[derive(Debug, PartialEq, Eq)]
pub struct Patched {
    /// The new text of the file.
    pub text: String,
    /// Whether a marker line was found and its block replaced.
    pub replaced: bool,
}

/// Whether `line` belongs to the block under a marker.
pub fn belongs_to_block(line: &Vec<char>) -> (b: bool)
    ensures
        b == in_block(line@),
{
    line.len() == 0 || line[0] == '#' || is_space_char(line[0])
}

/// Appends `lines[from..to]` to `out`, each line followed by a line feed.
fn emit(out: &mut String, lines: &Vec<Vec<char>>, from: usize, to: usize)
    requires
        from <= to <= lines.len(),
    ensures
        final(out)@ == old(out)@ + join_lines(rows(lines@).subrange(from as int, to as int)),
{
    let mut i: usize = from;
    while i < to
        invariant
            from <= i <= to <= lines.len(),
            out@ == old(out)@ + join_lines(rows(lines@).subrange(from as int, i as int)),
        decreases to - i,
    {
        proof {
            let upto = rows(lines@).subrange(from as int, i + 1);
            assert(upto.drop_last() == rows(lines@).subrange(from as int, i as int));
        }
        push_chars(out, &lines[i]);
        out.push('\n');
        i += 1;
    }
}

/// The index of the first line that equals `marker`; the number of lines if
/// there is none.
pub fn find_marker(lines: &Vec<Vec<char>>, marker: &Vec<char>) -> (at: usize)
    ensures
        at == marker_at(rows(lines@), marker@, 0),
        at <= lines.len(),
{
    let mut at: usize = 0;
    while at < lines.len() && !same_chars(&lines[at], marker)
        invariant
            at <= lines.len(),
            marker_at(rows(lines@), marker@, 0) == marker_at(rows(lines@), marker@, at as int),
        decreases lines.len() - at,
    {
        at += 1;
    }
    at
}

/// The index of the first line at or after `from` that does not belong to the
/// block; the number of lines if the block runs to the end.
pub fn find_block_end(lines: &Vec<Vec<char>>, from: usize) -> (end: usize)
    ensures
        end == block_end(rows(lines@), from as int),
        end <= lines.len(),
        from <= lines.len() ==> from <= end,
{
    if from >= lines.len() {
        return lines.len();
    }
    let mut end: usize = from;
    while end < lines.len() && belongs_to_block(&lines[end])
        invariant
            from <= end <= lines.len(),
            block_end(rows(lines@), from as int) == block_end(rows(lines@), end as int),
        decreases lines.len() - end,
    {
        end += 1;
    }
    end
}

/// Whether a line of `existing`, stripped at its end, equals `marker`.
pub fn contains_marker(existing: &str, marker: &str) -> (found: bool)
    ensures
        found == has_marker(stripped_lines(existing@), marker@),
{
    let lines = split_lines(existing);
    let wanted = chars_of(marker);
    find_marker(&lines, &wanted) < lines.len()
}

/// Patches `existing`: the first line that equals `marker`, and the block under
/// it, give way to `block`; every other line is kept, stripped at its end, in its
/// place. Without a marker line nothing is put in and nothing is changed: the
/// text comes back as it is.
pub fn patch(existing: &str, marker: &str, block: &Vec<String>) -> (out: Patched)
    ensures
        out.text@ == patched_text(existing@, marker@, texts(block@)),
        out.replaced == has_marker(stripped_lines(existing@), marker@),
{
    let lines = split_lines(existing);
    let wanted = chars_of(marker);
    let ghost all = rows(lines@);
    let at = find_marker(&lines, &wanted);
    if at == lines.len() {
        return Patched { text: existing.to_owned(), replaced: false };
    }
    let mut text = String::new();
    emit(&mut text, &lines, 0, at);
    push_lines(&mut text, block);
    let end = find_block_end(&lines, at + 1);
    emit(&mut text, &lines, end, lines.len());
    proof {
        let head = all.take(at as int);
        let tail = all.skip(end as int);
        lemma_join_concat(head, texts(block@));
        lemma_join_concat(head + texts(block@), tail);
    }
    Patched { text, replaced: true }
}

/// Joining two lists of lines one after the other joins their texts.
pub proof fn lemma_join_concat(a: Seq<Seq<char>>, b: Seq<Seq<char>>)
    ensures
        join_lines(a + b) == join_lines(a) + join_lines(b),
    decreases b.len(),
{
    if b.len() > 0 {
        lemma_join_concat(a, b.drop_last());
        assert((a + b).drop_last() == a + b.drop_last());
    }
}

/// The first marker is where no earlier line equals the marker.
pub proof fn lemma_marker_at(lines: Seq<Seq<char>>, marker: Seq<char>, from: int, at: int)
    requires
        0 <= from <= at <= lines.len(),
        forall|i: int| from <= i < at ==> lines[i] != marker,
        at < lines.len() ==> lines[at] == marker,
    ensures
        marker_at(lines, marker, from) == at,
    decreases at - from,
{
    if from < at {
        lemma_marker_at(lines, marker, from + 1, at);
    }
}

/// The first marker, if there is one, is a line that equals the marker, and no
/// line before it does.
pub proof fn lemma_marker_at_is_first(lines: Seq<Seq<char>>, marker: Seq<char>, from: int)
    requires
        0 <= from <= lines.len(),
    ensures
        from <= marker_at(lines, marker, from) <= lines.len(),
        marker_at(lines, marker, from) < lines.len() ==> lines[marker_at(lines, marker, from)]
            == marker,
        forall|i: int| from <= i < marker_at(lines, marker, from) ==> lines[i] != marker,
    decreases lines.len() - from,
{
    if from < lines.len() && lines[from] != marker {
        lemma_marker_at_is_first(lines, marker, from + 1);
    }
}

/// The block ends where the first line stands that does not belong to it.
pub proof fn lemma_block_end(lines: Seq<Seq<char>>, from: int, end: int)
    requires
        0 <= from <= end <= lines.len(),
        forall|i: int| from <= i < end ==> in_block(#[trigger] lines[i]),
        end < lines.len() ==> !in_block(lines[end]),
    ensures
        block_end(lines, from) == end,
    decreases end - from,
{
    if from < end {
        lemma_block_end(lines, from + 1, end);
    }
}

/// The block's end lies at or behind its start, every line between the two
/// belongs to the block, and the line at the end does not.
pub proof fn lemma_block_end_is_first(lines: Seq<Seq<char>>, from: int)
    requires
        0 <= from <= lines.len(),
    ensures
        from <= block_end(lines, from) <= lines.len(),
        block_end(lines, from) < lines.len() ==> !in_block(lines[block_end(lines, from)]),
        forall|i: int| from <= i < block_end(lines, from) ==> in_block(#[trigger] lines[i]),
    decreases lines.len() - from,
{
    if from < lines.len() && in_block(lines[from]) {
        lemma_block_end_is_first(lines, from + 1);
    }
}

/// The patch keeps what surrounds the block. Of a file that holds `before`, a
/// marker line, the lines `replaced` of the old block and then `after`, the patch
/// leaves `before`, the new block and `after`: the lines before the marker and
/// those after the old block stay as they are and in their order, whatever they
/// hold, a second marker line among those after the block included.
pub proof fn lemma_patch_keeps_surroundings(
    before: Seq<Seq<char>>,
    replaced: Seq<Seq<char>>,
    after: Seq<Seq<char>>,
    marker: Seq<char>,
    block: Seq<Seq<char>>,
)
    requires
        forall|i: int| 0 <= i < before.len() ==> before[i] != marker,
        forall|i: int| 0 <= i < replaced.len() ==> in_block(#[trigger] replaced[i]),
        after.len() > 0 ==> !in_block(after[0]),
    ensures
        patch_lines(before + seq![marker] + replaced + after, marker, block) == before + block
            + after,
        has_marker(before + seq![marker] + replaced + after, marker),
{
    let lines = before + seq![marker] + replaced + after;
    let at = before.len() as int;
    let end = at + 1 + replaced.len();
    lemma_marker_at(lines, marker, 0, at);
    lemma_block_end(lines, at + 1, end);
}

/// Stripping a line that belongs to the block leaves it in the block.
pub proof fn lemma_strip_keeps_in_block(line: Seq<char>)
    requires
        in_block(line),
    ensures
        in_block(strip_end(line)),
{
    lemma_strip_end_is_prefix(line);
}

/// The same, of the file's text. Where the lines around the block are clean, the
/// patched text holds them unchanged, with the new block between them. The lines
/// of the old block may hold anything that keeps them in the block.
pub proof fn lemma_patch_text_keeps_surroundings(
    before: Seq<Seq<char>>,
    replaced: Seq<Seq<char>>,
    after: Seq<Seq<char>>,
    marker: Seq<char>,
    block: Seq<Seq<char>>,
)
    requires
        all_clean(before),
        all_clean(after),
        is_clean(marker),
        forall|i: int| 0 <= i < before.len() ==> before[i] != marker,
        forall|i: int|
            0 <= i < replaced.len() ==> is_line(#[trigger] replaced[i]) && in_block(replaced[i]),
        after.len() > 0 ==> !in_block(after[0]),
    ensures
        patched_text(join_lines(before + seq![marker] + replaced + after), marker, block)
            == join_lines(before + block + after),
        join_lines(before + block + after) == join_lines(before) + join_lines(block)
            + join_lines(after),
{
    let lines = before + seq![marker] + replaced + after;
    lemma_lines_of_join(lines);
    let stripped = strip_all(replaced);
    assert forall|i: int| 0 <= i < stripped.len() implies in_block(#[trigger] stripped[i]) by {
        lemma_strip_keeps_in_block(replaced[i]);
    }
    assert(strip_all(lines) =~= before + seq![marker] + stripped + after);
    lemma_patch_keeps_surroundings(before, stripped, after, marker, block);
    lemma_join_concat(before, block);
    lemma_join_concat(before + block, after);
}

/// Without a marker line the patch leaves the text as it is, whatever it holds
/// and whatever the new block is: no block is put in, no line is stripped, and
/// no line feed is added.
pub proof fn lemma_patch_without_marker(
    existing: Seq<char>,
    marker: Seq<char>,
    block: Seq<Seq<char>>,
)
    requires
        !has_marker(stripped_lines(existing), marker),
    ensures
        patched_text(existing, marker, block) == existing,
{
}

/// Where a marker line stands, the patched lines are those before it, the new
/// block, and those behind the old block: only the first marker counts.
pub proof fn lemma_patch_with_marker(
    lines: Seq<Seq<char>>,
    marker: Seq<char>,
    block: Seq<Seq<char>>,
)
    requires
        has_marker(lines, marker),
    ensures
        ({
            let at = marker_at(lines, marker, 0);
            let end = block_end(lines, at + 1);
            &&& 0 <= at < end <= lines.len()
            &&& lines[at] == marker
            &&& forall|i: int| 0 <= i < at ==> lines[i] != marker
            &&& forall|i: int| at < i < end ==> in_block(#[trigger] lines[i])
            &&& end < lines.len() ==> !in_block(lines[end])
            &&& patch_lines(lines, marker, block) == lines.take(at) + block + lines.skip(end)
        }),
{
    lemma_marker_at_is_first(lines, marker, 0);
    lemma_block_end_is_first(lines, marker_at(lines, marker, 0) + 1);
}

/// The stripped lines of any text are clean.
pub proof fn lemma_stripped_lines_clean(text: Seq<char>)
    ensures
        all_clean(stripped_lines(text)),
{
    lemma_join_of_lines(text);
    assert forall|i: int| 0 <= i < stripped_lines(text).len() implies is_clean(
        #[trigger] stripped_lines(text)[i],
    ) by {
        lemma_strip_end_is_prefix(lines_of(text)[i]);
    }
}

/// Patching a second time changes nothing, where the new block is one that the
/// engine finds again: its first line is the marker, its other lines belong to
/// the block, and all of them are clean.
pub proof fn lemma_patch_twice(existing: Seq<char>, marker: Seq<char>, block: Seq<Seq<char>>)
    requires
        block.len() > 0,
        block[0] == marker,
        forall|i: int| 1 <= i < block.len() ==> in_block(#[trigger] block[i]),
        all_clean(block),
    ensures
        patched_text(patched_text(existing, marker, block), marker, block) == patched_text(
            existing,
            marker,
            block,
        ),
{
    let lines = stripped_lines(existing);
    let once = patch_lines(lines, marker, block);
    lemma_stripped_lines_clean(existing);
    if has_marker(lines, marker) {
        lemma_patch_with_marker(lines, marker, block);
        let at = marker_at(lines, marker, 0);
        let end = block_end(lines, at + 1);
        let before = lines.take(at);
        let rest = block.skip(1);
        let after = lines.skip(end);
        assert(once =~= before + seq![marker] + rest + after);
        assert(all_clean(once));
        lemma_joined_text_is_normal(once);
        lemma_patch_keeps_surroundings(before, rest, after, marker, block);
    }
}

} // verus!
