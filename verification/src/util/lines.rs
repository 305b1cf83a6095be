use crate::util::json_laws::has_at;
use crate::util::json_laws::lemma_has_at_index;
use crate::util::json_laws::lemma_has_at_split;
use crate::util::sequence::push_item;
use crate::util::sequence::views;
use crate::util::text::continued;
use crate::util::text::join;
use crate::util::text::lemma_continued_front;
use crate::util::text::lemma_join_first;
use crate::util::text::push_char;
use vstd::prelude::*;

verus! {

/// Whether a text holds no line feed.
pub open spec fn single_line(text: Seq<char>) -> bool {
    forall|i: int| 0 <= i < text.len() ==> #[trigger] text[i] != '\n'
}

/// Whether no text of a list holds a line feed.
pub open spec fn single_lines(parts: Seq<Seq<char>>) -> bool {
    forall|i: int| 0 <= i < parts.len() ==> single_line(#[trigger] parts[i])
}

/// The place of the first line feed from position `i` on, or the length of
/// the text where there is none.
pub open spec fn line_end(s: Seq<char>, i: int) -> int
    decreases s.len() - i,
{
    if i < 0 || i >= s.len() {
        s.len() as int
    } else if s[i] == '\n' {
        i
    } else {
        line_end(s, i + 1)
    }
}

/// The lines of a text from position `i` on: what stands between the line
/// feeds. A text that ends in a line feed has an empty last line.
pub open spec fn lines_from(s: Seq<char>, i: int) -> Seq<Seq<char>>
    decreases s.len() - i,
{
    if i < 0 || i > s.len() {
        Seq::empty()
    } else {
        let end = line_end(s, i);
        if end >= s.len() {
            seq![s.subrange(i, s.len() as int)]
        } else if end >= i {
            seq![s.subrange(i, end)] + lines_from(s, end + 1)
        } else {
            Seq::empty()
        }
    }
}

/// The lines of a text: what stands between its line feeds.
pub open spec fn lines(s: Seq<char>) -> Seq<Seq<char>> {
    lines_from(s, 0)
}

/// The first line feed is not before the position that the search starts from.
pub proof fn lemma_line_end_bounds(s: Seq<char>, i: int)
    requires
        0 <= i <= s.len(),
    ensures
        i <= line_end(s, i) <= s.len(),
        line_end(s, i) < s.len() ==> s[line_end(s, i)] == '\n',
        forall|j: int| i <= j < line_end(s, i) ==> s[j] != '\n',
    decreases s.len() - i,
{
    if i < s.len() && s[i] != '\n' {
        lemma_line_end_bounds(s, i + 1);
    }
}

/// A text without line feed that stands before a line feed or at the end is a line.
pub proof fn lemma_line_end(s: Seq<char>, i: int, line: Seq<char>)
    requires
        has_at(s, i, line),
        single_line(line),
        i + line.len() == s.len() || s[i + line.len()] == '\n',
    ensures
        line_end(s, i) == i + line.len(),
    decreases line.len(),
{
    if line.len() > 0 {
        lemma_has_at_index(s, i, line, 0);
        assert(line == seq![line[0]] + line.drop_first()) by {
            assert(line =~= seq![line[0]] + line.drop_first());
        }
        lemma_has_at_split(s, i, seq![line[0]], line.drop_first());
        assert forall|j: int| 0 <= j < line.drop_first().len() implies #[trigger] line.drop_first()[j]
            != '\n' by {
            assert(line[j + 1] != '\n');
        }
        lemma_line_end(s, i + 1, line.drop_first());
    }
}

/// Texts without line feed that are joined by line feeds are the lines of the joined text.
pub proof fn lemma_lines_from(s: Seq<char>, i: int, parts: Seq<Seq<char>>)
    requires
        parts.len() >= 1,
        single_lines(parts),
        has_at(s, i, parts[0] + continued(parts.drop_first(), seq!['\n'])),
        i + (parts[0] + continued(parts.drop_first(), seq!['\n'])).len() == s.len(),
    ensures
        lines_from(s, i) == parts,
    decreases parts.len(),
{
    let rest = parts.drop_first();
    let tail = continued(rest, seq!['\n']);
    lemma_has_at_split(s, i, parts[0], tail);
    assert(single_line(parts[0]));
    if rest.len() == 0 {
        assert(tail =~= Seq::<char>::empty());
        lemma_line_end(s, i, parts[0]);
        assert(s.subrange(i, s.len() as int) =~= parts[0]);
        assert(seq![parts[0]] =~= parts);
    } else {
        lemma_continued_front(rest, seq!['\n']);
        let next = rest[0] + continued(rest.drop_first(), seq!['\n']);
        assert(tail =~= seq!['\n'] + next);
        lemma_has_at_split(s, i + parts[0].len(), seq!['\n'], next);
        lemma_has_at_index(s, i + parts[0].len(), seq!['\n'], 0);
        lemma_line_end(s, i, parts[0]);
        assert forall|j: int| 0 <= j < rest.len() implies single_line(#[trigger] rest[j]) by {
            assert(rest[j] == parts[j + 1]);
        }
        lemma_lines_from(s, i + parts[0].len() + 1, rest);
        assert(seq![parts[0]] + rest =~= parts);
    }
}

/// Texts without line feed that are joined by line feeds are the lines of the joined text.
pub proof fn lemma_lines_of_join(parts: Seq<Seq<char>>)
    requires
        parts.len() >= 1,
        single_lines(parts),
    ensures
        lines(join(parts, seq!['\n'])) == parts,
{
    let s = join(parts, seq!['\n']);
    assert(parts =~= seq![parts[0]] + parts.drop_first());
    lemma_join_first(parts[0], parts.drop_first(), seq!['\n']);
    assert(s.subrange(0, s.len() as int) =~= s);
    lemma_lines_from(s, 0, parts);
}

/// Splits a text into its lines.
pub fn split_lines(s: &Vec<char>) -> (found: Vec<String>)
    ensures
        views(found@) == lines(s@),
        found@.len() >= 1,
{
    let mut found: Vec<String> = Vec::new();
    let mut line = String::new();
    let mut start: usize = 0;
    let mut at: usize = 0;
    assert(views(found@) + lines_from(s@, 0) =~= lines(s@));
    while at < s.len()
        invariant
            start <= at <= s.len(),
            found@.len() == views(found@).len(),
            lines(s@) == views(found@) + lines_from(s@, start as int),
            line_end(s@, start as int) == line_end(s@, at as int),
            line@ == s@.subrange(start as int, at as int),
        decreases s.len() - at,
    {
        if s[at] == '\n' {
            proof {
                assert(line_end(s@, start as int) == at);
                assert(views(found@).push(line@) + lines_from(s@, at + 1) =~= views(found@) + (
                seq![line@] + lines_from(s@, at + 1)));
            }
            push_item(&mut found, line);
            line = String::new();
            start = at + 1;
            at = at + 1;
            assert(line@ =~= s@.subrange(start as int, at as int));
        } else {
            push_char(&mut line, s[at]);
            at = at + 1;
            assert(line@ =~= s@.subrange(start as int, at as int));
        }
    }
    proof {
        assert(line_end(s@, start as int) == s@.len());
        assert(views(found@).push(line@) =~= views(found@) + seq![line@]);
    }
    push_item(&mut found, line);
    found
}

} // verus!
