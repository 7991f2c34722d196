//! Serialization of the document: lines are joined with a newline terminator
//! on save and split on it on load, and the two are inverse of one another for
//! documents whose lines hold no newline cell.

use vstd::prelude::*;

verus! {

/// The lines joined with a single `'\n'` between consecutive lines and no
/// trailing terminator.
pub open spec fn join_lines(lines: Seq<Seq<char>>) -> Seq<char>
    decreases lines.len(),
{
    if lines.len() == 0 {
        Seq::empty()
    } else if lines.len() == 1 {
        lines[0]
    } else {
        lines[0] + seq!['\n'] + join_lines(lines.drop_first())
    }
}

/// The text split on `'\n'`: always one more part than there are newline
/// cells, so the result is never empty (an empty text is one empty line).
pub open spec fn split_lines(text: Seq<char>) -> Seq<Seq<char>>
    decreases text.len(),
{
    if text.len() == 0 {
        seq![Seq::<char>::empty()]
    } else if text[0] == '\n' {
        seq![Seq::<char>::empty()] + split_lines(text.drop_first())
    } else {
        let rest = split_lines(text.drop_first());
        rest.update(0, seq![text[0]] + rest[0])
    }
}

/// Splitting always yields at least one line.
pub proof fn lemma_split_lines_nonempty(text: Seq<char>)
    ensures
        split_lines(text).len() >= 1,
    decreases text.len(),
{
    if text.len() == 0 {
    } else {
        lemma_split_lines_nonempty(text.drop_first());
    }
}

/// Appending one cell to the text extends the last line, or opens a new empty
/// line when the cell is a newline.
pub proof fn lemma_split_lines_push(text: Seq<char>, c: char)
    ensures
        split_lines(text.push(c)) == (if c == '\n' {
            split_lines(text).push(Seq::<char>::empty())
        } else {
            split_lines(text).update(
                split_lines(text).len() - 1,
                split_lines(text).last().push(c),
            )
        }),
    decreases text.len(),
{
    lemma_split_lines_nonempty(text);
    if text.len() == 0 {
        assert(text.push(c).drop_first() =~= text);
        if c == '\n' {
            assert(split_lines(text.push(c)) =~~= split_lines(text).push(Seq::<char>::empty()));
        } else {
            assert(split_lines(text.push(c)) =~~= split_lines(text).update(
                0,
                split_lines(text).last().push(c),
            ));
        }
    } else {
        lemma_split_lines_push(text.drop_first(), c);
        lemma_split_lines_nonempty(text.drop_first());
        assert(text.push(c).drop_first() =~= text.drop_first().push(c));
        assert(text.push(c)[0] == text[0]);
        if c == '\n' {
            assert(split_lines(text.push(c)) =~~= split_lines(text).push(Seq::<char>::empty()));
        } else {
            assert(split_lines(text.push(c)) =~~= split_lines(text).update(
                split_lines(text).len() - 1,
                split_lines(text).last().push(c),
            ));
        }
    }
}

/// Appending one more line to the document appends a separator and that line
/// to the serialized text.
pub proof fn lemma_join_lines_push(lines: Seq<Seq<char>>, line: Seq<char>)
    requires
        lines.len() >= 1,
    ensures
        join_lines(lines.push(line)) == join_lines(lines) + seq!['\n'] + line,
    decreases lines.len(),
{
    if lines.len() == 1 {
        assert(lines.push(line).drop_first() =~~= seq![line]);
        assert(join_lines(seq![line]) == line);
        assert(join_lines(lines.push(line)) =~= join_lines(lines) + seq!['\n'] + line);
    } else {
        lemma_join_lines_push(lines.drop_first(), line);
        assert(lines.push(line).drop_first() =~~= lines.drop_first().push(line));
        assert(join_lines(lines.push(line)) =~= join_lines(lines) + seq!['\n'] + line);
    }
}

/// A line with no newline cell splits into itself alone.
proof fn lemma_split_of_plain_line(line: Seq<char>)
    requires
        !line.contains('\n'),
    ensures
        split_lines(line) == seq![line],
    decreases line.len(),
{
    if line.len() == 0 {
        assert(split_lines(line) =~~= seq![line]);
    } else {
        assert(line[0] != '\n');
        assert(!line.drop_first().contains('\n')) by {
            if line.drop_first().contains('\n') {
                let i = choose|i: int|
                    0 <= i < line.drop_first().len() && line.drop_first()[i] == '\n';
                assert(line[i + 1] == '\n');
            }
        }
        lemma_split_of_plain_line(line.drop_first());
        assert(split_lines(line) =~~= seq![line]);
    }
}

/// Splitting a text that starts with a plain line and a separator yields that
/// line followed by the split of the remainder.
proof fn lemma_split_of_line_then_rest(line: Seq<char>, rest: Seq<char>)
    requires
        !line.contains('\n'),
    ensures
        split_lines(line + seq!['\n'] + rest) == seq![line] + split_lines(rest),
    decreases line.len(),
{
    let text = line + seq!['\n'] + rest;
    if line.len() == 0 {
        assert(text[0] == '\n');
        assert(text.drop_first() =~= rest);
        assert(split_lines(text) =~~= seq![line] + split_lines(rest));
    } else {
        assert(text[0] == line[0]);
        assert(line[0] != '\n');
        assert(!line.drop_first().contains('\n')) by {
            if line.drop_first().contains('\n') {
                let i = choose|i: int|
                    0 <= i < line.drop_first().len() && line.drop_first()[i] == '\n';
                assert(line[i + 1] == '\n');
            }
        }
        lemma_split_of_line_then_rest(line.drop_first(), rest);
        assert(text.drop_first() =~= line.drop_first() + seq!['\n'] + rest);
        lemma_split_lines_nonempty(text.drop_first());
        assert(split_lines(text) =~~= seq![line] + split_lines(rest));
    }
}

/// Round-trip law: serializing a document and splitting the text again
/// reproduces the same lines, provided no line holds a newline cell.
pub proof fn lemma_split_join_roundtrip(lines: Seq<Seq<char>>)
    requires
        lines.len() >= 1,
        forall|i: int| 0 <= i < lines.len() ==> !(#[trigger] lines[i]).contains('\n'),
    ensures
        split_lines(join_lines(lines)) == lines,
    decreases lines.len(),
{
    if lines.len() == 1 {
        lemma_split_of_plain_line(lines[0]);
        assert(split_lines(join_lines(lines)) =~~= lines);
    } else {
        lemma_split_join_roundtrip(lines.drop_first());
        lemma_split_of_line_then_rest(lines[0], join_lines(lines.drop_first()));
        assert(split_lines(join_lines(lines)) =~~= lines);
    }
}

} // verus!
