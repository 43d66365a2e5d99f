//! Characters, lines and whitespace: the vocabulary that the writers and the
//! patch engine share.
//!
//! A text is modelled as a `Seq<char>`, a line as a `Seq<char>` without a line
//! feed, and a file as the lines it holds, each followed by one line feed.

use vstd::prelude::*;
use vstd::string::StringExecFns;

verus! {

/// `String::push` appends one character to the end of the string.
pub assume_specification[ String::push ](s: &mut String, c: char)
    ensures
        final(s)@ == old(s)@.push(c),
;

/// The characters that Unicode gives the property `White_Space`.
pub open spec fn is_space(c: char) -> bool {
    ||| '\u{9}' <= c <= '\u{d}'
    ||| c == ' '
    ||| c == '\u{85}'
    ||| c == '\u{a0}'
    ||| c == '\u{1680}'
    ||| '\u{2000}' <= c <= '\u{200a}'
    ||| c == '\u{2028}'
    ||| c == '\u{2029}'
    ||| c == '\u{202f}'
    ||| c == '\u{205f}'
    ||| c == '\u{3000}'
}

/// A line as it stands in a file: no line feed inside it.
pub open spec fn is_line(line: Seq<char>) -> bool {
    forall|i: int| 0 <= i < line.len() ==> line[i] != '\n'
}

/// A line that stripping would leave as it is: no line feed, no whitespace at its end.
pub open spec fn is_clean(line: Seq<char>) -> bool {
    &&& is_line(line)
    &&& line.len() > 0 ==> !is_space(line.last())
}

/// Every line of `lines` is clean.
pub open spec fn all_clean(lines: Seq<Seq<char>>) -> bool {
    forall|i: int| 0 <= i < lines.len() ==> is_clean(#[trigger] lines[i])
}

/// `line` without the whitespace at its end.
pub open spec fn strip_end(line: Seq<char>) -> Seq<char>
    decreases line.len(),
{
    if line.len() > 0 && is_space(line.last()) {
        strip_end(line.drop_last())
    } else {
        line
    }
}

/// `line` without the whitespace at its start.
pub open spec fn strip_start(line: Seq<char>) -> Seq<char>
    decreases line.len(),
{
    if line.len() > 0 && is_space(line[0]) {
        strip_start(line.skip(1))
    } else {
        line
    }
}

/// `line` without the whitespace at either end.
pub open spec fn strip(line: Seq<char>) -> Seq<char> {
    strip_start(strip_end(line))
}

/// Each line of `lines` without the whitespace at its end.
pub open spec fn strip_all(lines: Seq<Seq<char>>) -> Seq<Seq<char>> {
    Seq::new(lines.len(), |i: int| strip_end(lines[i]))
}

/// What lies between the line feeds of `text`: one piece more than there are
/// line feeds, the last of them what follows the last line feed.
pub open spec fn pieces(text: Seq<char>) -> Seq<Seq<char>>
    decreases text.len(),
{
    if text.len() == 0 {
        seq![Seq::<char>::empty()]
    } else {
        let before = pieces(text.drop_last());
        if text.last() == '\n' {
            before.push(Seq::<char>::empty())
        } else {
            before.drop_last().push(before.last().push(text.last()))
        }
    }
}

/// The lines of `text`. A line ends at a line feed or at the end of the text; a
/// line feed at the very end opens no further line.
pub open spec fn lines_of(text: Seq<char>) -> Seq<Seq<char>> {
    let all = pieces(text);
    if all.last().len() == 0 {
        all.drop_last()
    } else {
        all
    }
}

/// The lines of `text`, each without the whitespace at its end.
pub open spec fn stripped_lines(text: Seq<char>) -> Seq<Seq<char>> {
    strip_all(lines_of(text))
}

/// The text that holds `lines` in order, each followed by exactly one line feed.
pub open spec fn join_lines(lines: Seq<Seq<char>>) -> Seq<char>
    decreases lines.len(),
{
    if lines.len() == 0 {
        Seq::<char>::empty()
    } else {
        join_lines(lines.drop_last()) + lines.last().push('\n')
    }
}

/// A text that reading and writing back leaves as it is: empty or ended by a line
/// feed, and no line of it ends in whitespace.
pub open spec fn is_normal(text: Seq<char>) -> bool {
    &&& text.len() > 0 ==> text.last() == '\n'
    &&& all_clean(lines_of(text))
}

/// The character views of a list of strings.
pub open spec fn texts(items: Seq<String>) -> Seq<Seq<char>> {
    Seq::new(items.len(), |i: int| items[i]@)
}

/// The character views of a list of character vectors.
pub open spec fn rows(items: Seq<Vec<char>>) -> Seq<Seq<char>> {
    Seq::new(items.len(), |i: int| items[i]@)
}

/// Whether `c` is whitespace.
pub fn is_space_char(c: char) -> (b: bool)
    ensures
        b == is_space(c),
{
    ('\u{9}' <= c && c <= '\u{d}') || c == ' ' || c == '\u{85}' || c == '\u{a0}' || c
        == '\u{1680}' || ('\u{2000}' <= c && c <= '\u{200a}') || c == '\u{2028}' || c
        == '\u{2029}' || c == '\u{202f}' || c == '\u{205f}' || c == '\u{3000}'
}

/// The characters of `s`, in order.
pub fn chars_of(s: &str) -> (v: Vec<char>)
    ensures
        v@ == s@,
{
    let mut v: Vec<char> = Vec::new();
    for c in it: s.chars()
        invariant
            it.seq() == s@,
            v@ == s@.take(it.index() as int),
    {
        v.push(c);
    }
    v
}

/// Appends the characters of `line` to `out`.
pub fn push_chars(out: &mut String, line: &Vec<char>)
    ensures
        final(out)@ == old(out)@ + line@,
{
    let mut i: usize = 0;
    while i < line.len()
        invariant
            i <= line.len(),
            out@ == old(out)@ + line@.take(i as int),
        decreases line.len() - i,
    {
        out.push(line[i]);
        i += 1;
    }
}

/// Whether the two texts hold the same characters.
pub fn same_chars(a: &Vec<char>, b: &Vec<char>) -> (same: bool)
    ensures
        same == (a@ == b@),
{
    if a.len() != b.len() {
        return false;
    }
    let mut i: usize = 0;
    while i < a.len()
        invariant
            i <= a.len(),
            a.len() == b.len(),
            a@.take(i as int) == b@.take(i as int),
        decreases a.len() - i,
    {
        if a[i] != b[i] {
            return false;
        }
        i += 1;
    }
    assert(a@ == a@.take(a.len() as int));
    assert(b@ == b@.take(b.len() as int));
    true
}

/// Removes the whitespace at the end of `line`.
pub fn trim_end(line: &mut Vec<char>)
    ensures
        final(line)@ == strip_end(old(line)@),
{
    while line.len() > 0 && is_space_char(line[line.len() - 1])
        invariant
            strip_end(line@) == strip_end(old(line)@),
        decreases line.len(),
    {
        line.pop();
    }
}

/// The part of `line` that lies between the whitespace at its two ends.
pub fn trim(line: &Vec<char>) -> (out: Vec<char>)
    ensures
        out@ == strip(line@),
{
    let mut end: usize = line.len();
    assert(line@.take(end as int) == line@);
    while end > 0 && is_space_char(line[end - 1])
        invariant
            end <= line.len(),
            strip_end(line@.take(end as int)) == strip_end(line@),
        decreases end,
    {
        assert(line@.take(end as int).drop_last() == line@.take(end - 1));
        end -= 1;
    }
    let mut start: usize = 0;
    while start < end && is_space_char(line[start])
        invariant
            start <= end <= line.len(),
            strip_start(line@.subrange(start as int, end as int)) == strip(line@),
        decreases end - start,
    {
        assert(line@.subrange(start as int, end as int).skip(1) == line@.subrange(
            start + 1,
            end as int,
        ));
        start += 1;
    }
    let mut out: Vec<char> = Vec::new();
    let mut i: usize = start;
    while i < end
        invariant
            start <= i <= end <= line.len(),
            out@ == line@.subrange(start as int, i as int),
        decreases end - i,
    {
        out.push(line[i]);
        i += 1;
    }
    out
}

/// The lines of `text`, each without the whitespace at its end.
pub fn split_lines(text: &str) -> (lines: Vec<Vec<char>>)
    ensures
        rows(lines@) == stripped_lines(text@),
{
    let mut lines: Vec<Vec<char>> = Vec::new();
    let mut current: Vec<char> = Vec::new();
    for c in it: text.chars()
        invariant
            it.seq() == text@,
            rows(lines@) == strip_all(pieces(text@.take(it.index() as int)).drop_last()),
            current@ == pieces(text@.take(it.index() as int)).last(),
    {
        let ghost seen = text@.take(it.index() as int);
        let ghost next = text@.take(it.index() + 1);
        proof {
            lemma_pieces_nonempty(seen);
            assert(next.drop_last() == seen);
        }
        if c == '\n' {
            let ghost done = rows(lines@);
            trim_end(&mut current);
            lines.push(current);
            current = Vec::new();
            assert(rows(lines@) =~= done.push(strip_end(pieces(seen).last())));
        } else {
            current.push(c);
        }
    }
    proof {
        assert(text@.take(text@.len() as int) == text@);
        lemma_pieces_nonempty(text@);
    }
    if current.len() > 0 {
        let ghost done = rows(lines@);
        trim_end(&mut current);
        lines.push(current);
        assert(rows(lines@) =~= done.push(strip_end(pieces(text@).last())));
    }
    lines
}

/// Appends the lines to `out`, each followed by a line feed.
pub fn push_lines(out: &mut String, lines: &Vec<String>)
    ensures
        final(out)@ == old(out)@ + join_lines(texts(lines@)),
{
    let mut i: usize = 0;
    while i < lines.len()
        invariant
            i <= lines.len(),
            out@ == old(out)@ + join_lines(texts(lines@).take(i as int)),
        decreases lines.len() - i,
    {
        proof {
            let upto = texts(lines@).take(i + 1);
            assert(upto.drop_last() == texts(lines@).take(i as int));
        }
        out.append(lines[i].as_str());
        out.push('\n');
        i += 1;
    }
    assert(texts(lines@).take(lines.len() as int) == texts(lines@));
}

/// `pieces` never returns an empty list.
pub proof fn lemma_pieces_nonempty(text: Seq<char>)
    ensures
        pieces(text).len() >= 1,
    decreases text.len(),
{
    if text.len() > 0 {
        lemma_pieces_nonempty(text.drop_last());
    }
}

/// Stripping leaves a prefix of the line that does not end in whitespace.
pub proof fn lemma_strip_end_is_prefix(line: Seq<char>)
    ensures
        strip_end(line).len() <= line.len(),
        strip_end(line) == line.take(strip_end(line).len() as int),
        strip_end(line).len() > 0 ==> !is_space(strip_end(line).last()),
        is_line(line) ==> is_clean(strip_end(line)),
    decreases line.len(),
{
    if line.len() > 0 && is_space(line.last()) {
        let shorter = line.drop_last();
        lemma_strip_end_is_prefix(shorter);
        assert(shorter.take(strip_end(shorter).len() as int) == line.take(
            strip_end(shorter).len() as int,
        ));
    } else {
        assert(line.take(line.len() as int) == line);
    }
}

/// Stripping leaves clean lines as they are.
pub proof fn lemma_strip_all_clean(lines: Seq<Seq<char>>)
    requires
        all_clean(lines),
    ensures
        strip_all(lines) == lines,
{
    assert forall|i: int| 0 <= i < lines.len() implies strip_end(lines[i]) == lines[i] by {
        assert(is_clean(lines[i]));
    }
    assert(strip_all(lines) =~= lines);
}

/// A line put behind a text goes on the text's last piece; a line feed behind a
/// text opens a new, empty piece.
pub proof fn lemma_pieces_append(text: Seq<char>, line: Seq<char>)
    requires
        is_line(line),
    ensures
        pieces(text + line) == pieces(text).drop_last().push(pieces(text).last() + line),
        pieces((text + line).push('\n')) == pieces(text).drop_last().push(
            pieces(text).last() + line,
        ).push(Seq::<char>::empty()),
    decreases line.len(),
{
    lemma_pieces_nonempty(text);
    if line.len() == 0 {
        assert(text + line == text);
        assert(pieces(text).last() + line == pieces(text).last());
        assert(pieces(text).drop_last().push(pieces(text).last()) == pieces(text));
    } else {
        let shorter = line.drop_last();
        lemma_pieces_append(text, shorter);
        assert((text + line).drop_last() == text + shorter);
        assert((text + line).last() == line.last());
        let before = pieces(text + shorter);
        assert(before.drop_last() == pieces(text).drop_last());
        assert(before.last().push(line.last()) == pieces(text).last() + line);
    }
    assert((text + line).push('\n').drop_last() == text + line);
}

/// The pieces of a joined text are its lines and one empty piece behind them.
pub proof fn lemma_pieces_of_join(lines: Seq<Seq<char>>)
    requires
        forall|i: int| 0 <= i < lines.len() ==> is_line(#[trigger] lines[i]),
    ensures
        pieces(join_lines(lines)) == lines.push(Seq::<char>::empty()),
    decreases lines.len(),
{
    if lines.len() == 0 {
        assert(pieces(join_lines(lines)) =~= lines.push(Seq::<char>::empty()));
    } else {
        let head = lines.drop_last();
        lemma_pieces_of_join(head);
        assert(is_line(lines.last()));
        lemma_pieces_append(join_lines(head), lines.last());
        assert(join_lines(lines) == (join_lines(head) + lines.last()).push('\n'));
        let before = pieces(join_lines(head));
        assert(before.drop_last() == head);
        assert(before.last() + lines.last() == lines.last());
        assert(head.push(lines.last()) == lines);
    }
}

/// Splitting a joined text gives the lines back.
pub proof fn lemma_lines_of_join(lines: Seq<Seq<char>>)
    requires
        forall|i: int| 0 <= i < lines.len() ==> is_line(#[trigger] lines[i]),
    ensures
        lines_of(join_lines(lines)) == lines,
{
    lemma_pieces_of_join(lines);
    assert(lines.push(Seq::<char>::empty()).drop_last() == lines);
}

/// The pieces of a text, with a line feed between each two of them, are the text.
pub proof fn lemma_join_of_pieces(text: Seq<char>)
    ensures
        join_lines(pieces(text).drop_last()) + pieces(text).last() == text,
        forall|i: int| 0 <= i < pieces(text).len() ==> is_line(#[trigger] pieces(text)[i]),
    decreases text.len(),
{
    lemma_pieces_nonempty(text);
    if text.len() == 0 {
        assert(join_lines(pieces(text).drop_last()) + pieces(text).last() =~= text);
    } else {
        let shorter = text.drop_last();
        lemma_join_of_pieces(shorter);
        lemma_pieces_nonempty(shorter);
        let before = pieces(shorter);
        if text.last() == '\n' {
            assert(pieces(text).drop_last() == before);
            assert(join_lines(before) == join_lines(before.drop_last()) + before.last().push(
                '\n',
            ));
            assert(join_lines(before) + pieces(text).last() =~= shorter.push('\n'));
        } else {
            assert(pieces(text).drop_last() == before.drop_last());
            assert(join_lines(before.drop_last()) + before.last().push(text.last()) =~= (
            join_lines(before.drop_last()) + before.last()).push(text.last()));
        }
        assert(shorter.push(text.last()) == text);
    }
}

/// Joining the lines of a text that is empty or ends in a line feed gives the
/// text back; any other text gains the line feed that its last line lacks.
pub proof fn lemma_join_of_lines(text: Seq<char>)
    ensures
        text.len() == 0 || text.last() == '\n' ==> join_lines(lines_of(text)) == text,
        text.len() > 0 && text.last() != '\n' ==> join_lines(lines_of(text)) == text.push('\n'),
        forall|i: int| 0 <= i < lines_of(text).len() ==> is_line(#[trigger] lines_of(text)[i]),
{
    lemma_join_of_pieces(text);
    lemma_pieces_nonempty(text);
    if text.len() > 0 {
        lemma_pieces_nonempty(text.drop_last());
    }
    let all = pieces(text);
    if all.last().len() == 0 {
        assert(join_lines(all.drop_last()) + all.last() == join_lines(all.drop_last()));
    } else {
        assert(join_lines(all) == join_lines(all.drop_last()) + all.last().push('\n'));
        assert(join_lines(all.drop_last()) + all.last().push('\n') =~= (join_lines(
            all.drop_last(),
        ) + all.last()).push('\n'));
    }
}

/// Reading a normal text and writing its lines back gives the same text.
pub proof fn lemma_normal_text_round_trip(text: Seq<char>)
    requires
        is_normal(text),
    ensures
        join_lines(stripped_lines(text)) == text,
{
    lemma_join_of_lines(text);
    lemma_strip_all_clean(lines_of(text));
}

/// A text written from clean lines is normal, and reading it gives the lines back.
pub proof fn lemma_joined_text_is_normal(lines: Seq<Seq<char>>)
    requires
        all_clean(lines),
    ensures
        is_normal(join_lines(lines)),
        stripped_lines(join_lines(lines)) == lines,
{
    assert forall|i: int| 0 <= i < lines.len() implies is_line(#[trigger] lines[i]) by {
        assert(is_clean(lines[i]));
    }
    lemma_lines_of_join(lines);
    lemma_strip_all_clean(lines);
    if lines.len() > 0 {
        assert(join_lines(lines).last() == '\n');
    }
}

} // verus!
