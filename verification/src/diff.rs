//! The difference of two texts, line by line.
use crate::text::{chars_of, string_of};
use vstd::hash_set::StringHashSet;
use vstd::prelude::*;
use vstd::set_lib::lemma_len_union;

verus! {

/// On which side of a difference a piece of text stands.
#[derive(Debug, PartialEq, Eq, Clone, Copy, Structural)]
pub enum ChangeTag {
    /// On both sides.
    Equal,
    /// On the old side alone.
    Delete,
    /// On the new side alone.
    Insert,
}

/// A piece of text and the side or sides on which it stands.
#[derive(Debug, PartialEq, Eq)]
pub struct Change {
    pub tag: ChangeTag,
    pub text: String,
}

impl View for Change {
    type V = (ChangeTag, Seq<char>);

    open spec fn view(&self) -> (ChangeTag, Seq<char>) {
        (self.tag, self.text@)
    }
}

/// What the changes of a sequence hold.
pub open spec fn change_views(changes: Seq<Change>) -> Seq<(ChangeTag, Seq<char>)> {
    changes.map_values(|c: Change| c@)
}

/// The changes that stand on the old side of a difference.
pub open spec fn old_side(changes: Seq<(ChangeTag, Seq<char>)>) -> Seq<(ChangeTag, Seq<char>)> {
    changes.filter(|c: (ChangeTag, Seq<char>)| c.0 != ChangeTag::Insert)
}

/// The changes that stand on the new side of a difference.
pub open spec fn new_side(changes: Seq<(ChangeTag, Seq<char>)>) -> Seq<(ChangeTag, Seq<char>)> {
    changes.filter(|c: (ChangeTag, Seq<char>)| c.0 != ChangeTag::Delete)
}

/// The changes that stand on both sides of a difference.
pub open spec fn common(changes: Seq<(ChangeTag, Seq<char>)>) -> Seq<(ChangeTag, Seq<char>)> {
    changes.filter(|c: (ChangeTag, Seq<char>)| c.0 == ChangeTag::Equal)
}

/// The texts of changes.
pub open spec fn change_texts(changes: Seq<(ChangeTag, Seq<char>)>) -> Seq<Seq<char>> {
    changes.map_values(|c: (ChangeTag, Seq<char>)| c.1)
}

/// What stands on both sides of a difference is the same on both sides, in the same order.
pub proof fn law_common(changes: Seq<(ChangeTag, Seq<char>)>)
    ensures
        common(old_side(changes)) == common(changes),
        common(new_side(changes)) == common(changes),
    decreases changes.len(),
{
    reveal(Seq::filter);
    if changes.len() > 0 {
        let rest = changes.drop_last();
        law_common(rest);
        let old = old_side(changes);
        let new = new_side(changes);
        if changes.last().0 != ChangeTag::Insert {
            assert(old.drop_last() == old_side(rest));
        }
        if changes.last().0 != ChangeTag::Delete {
            assert(new.drop_last() == new_side(rest));
        }
    }
}

/// How many characters the first line of a text has, with its ending: a line feed, a carriage
/// return, or a carriage return and the line feed behind it. The last line may lack an ending.
pub open spec fn line_len(text: Seq<char>) -> nat
    decreases text.len(),
{
    if text.len() == 0 {
        0
    } else if text[0] == '\n' {
        1
    } else if text[0] == '\r' {
        if text.len() > 1 && text[1] == '\n' {
            2
        } else {
            1
        }
    } else {
        1 + line_len(text.skip(1))
    }
}

/// Whether a text is one line: not empty, and without an ending but at its end.
pub open spec fn is_one_line(line: Seq<char>) -> bool {
    &&& line.len() > 0
    &&& forall|j: int| 0 <= j < line.len() - 1 ==> (#[trigger] line[j]) != '\n'
    &&& forall|j: int|
        0 <= j < line.len() - 1 && (#[trigger] line[j]) == '\r' ==> j == line.len() - 2
            && line.last() == '\n'
}

/// Whether a line has an ending.
pub open spec fn is_ended(line: Seq<char>) -> bool {
    line.len() > 0 && (line.last() == '\n' || line.last() == '\r')
}

/// The first line of a text is one line, and has an ending unless it is the whole text.
proof fn lemma_line_len(text: Seq<char>)
    ensures
        line_len(text) <= text.len(),
        text.len() > 0 ==> is_one_line(text.take(line_len(text) as int)),
        line_len(text) < text.len() ==> is_ended(text.take(line_len(text) as int)),
    decreases text.len(),
{
    if text.len() > 0 && text[0] != '\n' && text[0] != '\r' {
        let rest = text.skip(1);
        lemma_line_len(rest);
        let line = text.take(line_len(text) as int);
        let tail = rest.take(line_len(rest) as int);
        assert(line == seq![text[0]] + tail);
        assert forall|j: int| 0 <= j < line.len() - 1 implies (#[trigger] line[j]) != '\n' by {
            if j > 0 {
                assert(line[j] == tail[j - 1]);
            }
        }
        assert forall|j: int| 0 <= j < line.len() - 1 && (#[trigger] line[j]) == '\r' implies j
            == line.len() - 2 && line.last() == '\n' by {
            assert(line[j] == tail[j - 1]);
            assert(line.last() == tail.last());
        }
        if tail.len() > 0 {
            assert(line.last() == tail.last());
        }
    }
}

/// The lines of a text, each with its ending.
pub open spec fn ended_lines(text: Seq<char>) -> Seq<Seq<char>>
    decreases text.len(),
    via ended_lines_shrinks
{
    if text.len() == 0 {
        seq![]
    } else {
        seq![text.take(line_len(text) as int)] + ended_lines(text.skip(line_len(text) as int))
    }
}

#[via_fn]
proof fn ended_lines_shrinks(text: Seq<char>) {
    lemma_line_len(text);
}

/// The lines of a text, each with its ending, are the text when they are put together. Each of
/// them is one line, and each but the last has an ending. There are no more of them than characters.
pub proof fn law_ended_lines(text: Seq<char>)
    ensures
        ended_lines(text).flatten() == text,
        ended_lines(text).len() <= text.len(),
        forall|i: int|
            0 <= i < ended_lines(text).len() ==> is_one_line(#[trigger] ended_lines(text)[i]),
        forall|i: int|
            0 <= i < ended_lines(text).len() - 1 ==> is_ended(#[trigger] ended_lines(text)[i]),
    decreases text.len(),
{
    if text.len() > 0 {
        let n = line_len(text) as int;
        let rest = text.skip(n);
        lemma_line_len(text);
        law_ended_lines(rest);
        let lines = ended_lines(text);
        assert(lines.drop_first() == ended_lines(rest));
        assert(text.take(n) + rest == text);
        assert forall|i: int| 0 <= i < lines.len() implies is_one_line(#[trigger] lines[i]) by {
            if i > 0 {
                assert(lines[i] == ended_lines(rest)[i - 1]);
            }
        }
        assert forall|i: int| 0 <= i < lines.len() - 1 implies is_ended(#[trigger] lines[i]) by {
            if i > 0 {
                assert(lines[i] == ended_lines(rest)[i - 1]);
            }
        }
    }
}

/// What holds no ending is part of the first line.
proof fn lemma_line_len_front(line: Seq<char>, rest: Seq<char>)
    requires
        !line.contains('\n'),
        !line.contains('\r'),
    ensures
        line_len(line + rest) == line.len() + line_len(rest),
    decreases line.len(),
{
    if line.len() == 0 {
        assert(line + rest == rest);
    } else {
        let tail = line.skip(1);
        assert(line.contains(line[0]));
        assert forall|i: int| 0 <= i < tail.len() implies tail[i] != '\n' && tail[i] != '\r' by {
            assert(line.contains(line[i + 1]));
        }
        lemma_line_len_front(tail, rest);
        assert((line + rest).skip(1) == tail + rest);
    }
}

/// What is compared as a line ends at `\n`, at `\r\n` or at a lone `\r`, and keeps that ending; the last
/// line needs none. An empty text has no line.
pub proof fn law_compared_lines(line: Seq<char>, text: Seq<char>)
    requires
        !line.contains('\n'),
        !line.contains('\r'),
    ensures
        ended_lines(seq![]) == Seq::<Seq<char>>::empty(),
        line.len() > 0 ==> ended_lines(line) == seq![line],
        ended_lines(line + seq!['\n'] + text) == seq![line + seq!['\n']] + ended_lines(text),
        ended_lines(line + seq!['\r', '\n'] + text) == seq![line + seq!['\r', '\n']] + ended_lines(
            text,
        ),
        text.len() == 0 || text[0] != '\n' ==> ended_lines(line + seq!['\r'] + text) == seq![
            line + seq!['\r'],
        ] + ended_lines(text),
{
    lemma_line_len_front(line, seq![]);
    assert(line + Seq::<char>::empty() == line);
    assert(line.take(line.len() as int) == line);
    assert(line.skip(line.len() as int) == Seq::<char>::empty());
    assert(line_len(seq![]) == 0);
    assert(ended_lines(seq![]) == Seq::<Seq<char>>::empty());
    assert(seq![line] + Seq::<Seq<char>>::empty() == seq![line]);
    lemma_first_line(line, seq!['\n'], text);
    lemma_first_line(line, seq!['\r', '\n'], text);
    if text.len() == 0 || text[0] != '\n' {
        lemma_first_line(line, seq!['\r'], text);
    }
}

/// A line and its ending come first, and then the lines of what follows.
proof fn lemma_first_line(line: Seq<char>, ending: Seq<char>, text: Seq<char>)
    requires
        !line.contains('\n'),
        !line.contains('\r'),
        ending.len() > 0,
        line_len(ending + text) == ending.len(),
    ensures
        ended_lines(line + ending + text) == seq![line + ending] + ended_lines(text),
{
    let whole = line + ending + text;
    let n = (line + ending).len() as int;
    lemma_line_len_front(line, ending + text);
    assert(line + (ending + text) == whole);
    assert(whole.take(n) == line + ending);
    assert(whole.skip(n) == text);
}

/// Where the line that starts at place `start` ends, with its ending.
fn line_end(chars: &Vec<char>, start: usize) -> (r: usize)
    requires
        start < chars@.len(),
    ensures
        start < r <= chars@.len(),
        r == start + line_len(chars@.skip(start as int)),
{
    let mut i: usize = start;
    while i < chars.len() && chars[i] != '\n' && chars[i] != '\r'
        invariant
            start <= i <= chars@.len(),
            line_len(chars@.skip(start as int)) == i - start + line_len(chars@.skip(i as int)),
        decreases chars@.len() - i,
    {
        assert(chars@.skip(i as int).skip(1) == chars@.skip(i + 1));
        i += 1;
    }
    if i == chars.len() {
        i
    } else if chars[i] == '\r' && chars.len() - i > 1 && chars[i + 1] == '\n' {
        i + 2
    } else {
        i + 1
    }
}

/// The distinct lines of two texts.
pub open spec fn distinct_lines(old: Seq<char>, new: Seq<char>) -> Set<Seq<char>> {
    ended_lines(old).to_set().union(ended_lines(new).to_set())
}

/// Adds the lines of a text to those that were met.
fn meet_lines(met: &mut StringHashSet, text: &str)
    ensures
        final(met)@ == old(met)@.union(ended_lines(text@).to_set()),
{
    let chars = chars_of(text);
    let mut start: usize = 0;
    assert(text@.skip(0) == text@);
    while start < chars.len()
        invariant
            chars@ == text@,
            start <= chars@.len(),
            old(met)@.union(ended_lines(text@).to_set()) == met@.union(
                ended_lines(text@.skip(start as int)).to_set(),
            ),
        decreases chars@.len() - start,
    {
        let end = line_end(&chars, start);
        let line = string_of(&chars, start, end);
        proof {
            let here = text@.skip(start as int);
            let more = ended_lines(text@.skip(end as int));
            assert(here.skip(end - start) == text@.skip(end as int));
            assert(here.take(end - start) == line@);
            let all = ended_lines(here);
            assert(all == seq![line@] + more);
            assert(all[0] == line@);
            assert forall|l: Seq<char>| more.contains(l) implies all.contains(l) by {
                let i = choose|i: int| 0 <= i < more.len() && more[i] == l;
                assert(all[i + 1] == l);
            }
            assert(all.to_set() == more.to_set().insert(line@));
        }
        met.insert(line);
        start = end;
    }
}

/// Whether two texts can be compared: their distinct lines are few enough to be numbered in 32
/// bits.
pub open spec fn can_compare(old: Seq<char>, new: Seq<char>) -> bool {
    distinct_lines(old, new).len() <= u32::MAX
}

/// Two texts that together have no more lines than can be numbered in 32 bits can be compared.
pub proof fn law_few_lines(old: Seq<char>, new: Seq<char>)
    requires
        ended_lines(old).len() + ended_lines(new).len() <= u32::MAX,
    ensures
        can_compare(old, new),
{
    broadcast use vstd::seq_lib::seq_to_set_is_finite;

    ended_lines(old).lemma_cardinality_of_set();
    ended_lines(new).lemma_cardinality_of_set();
    lemma_len_union(ended_lines(old).to_set(), ended_lines(new).to_set());
}

/// Whether two texts can be compared.
pub fn comparable(old: &str, new: &str) -> (r: bool)
    ensures
        r == can_compare(old@, new@),
        r <==> ended_lines(old@).to_set().union(ended_lines(new@).to_set()).len() <= u32::MAX,
{
    let mut met = StringHashSet::new();
    meet_lines(&mut met, old);
    meet_lines(&mut met, new);
    assert(met@ == distinct_lines(old@, new@));
    met.len() as u64 <= u32::MAX as u64
}

/// Whether the changes from one text to another hold the lines of both, in order, and nothing that
/// stands on one side alone where the texts are the same.
pub open spec fn is_difference(
    changes: Seq<(ChangeTag, Seq<char>)>,
    old: Seq<char>,
    new: Seq<char>,
) -> bool {
    &&& change_texts(old_side(changes)) == ended_lines(old)
    &&& change_texts(new_side(changes)) == ended_lines(new)
    &&& old == new ==> forall|i: int|
        0 <= i < changes.len() ==> (#[trigger] changes[i]).0 == ChangeTag::Equal
}

/// All that a difference of two texts has on its old side is the one text, complete and in order, and
/// all that it has on its new side is the other. Texts that are the same differ nowhere.
pub proof fn law_difference_complete(
    changes: Seq<(ChangeTag, Seq<char>)>,
    old: Seq<char>,
    new: Seq<char>,
)
    requires
        is_difference(changes, old, new),
    ensures
        changes.filter(|c: (ChangeTag, Seq<char>)| c.0 != ChangeTag::Insert).map_values(
            |c: (ChangeTag, Seq<char>)| c.1,
        ).flatten() == old,
        changes.filter(|c: (ChangeTag, Seq<char>)| c.0 != ChangeTag::Delete).map_values(
            |c: (ChangeTag, Seq<char>)| c.1,
        ).flatten() == new,
        old == new ==> forall|i: int|
            0 <= i < changes.len() ==> (#[trigger] changes[i]).0 == ChangeTag::Equal,
{
    law_ended_lines(old);
    law_ended_lines(new);
}

/// The changes from one text to another, in order, as `similar::TextDiff::from_lines` finds them.
pub uninterp spec fn line_changes(old: Seq<char>, new: Seq<char>) -> Seq<(ChangeTag, Seq<char>)>;

/// `similar::TextDiff::from_lines` compares two texts line by line, where a line ends at a line
/// feed, at a carriage return, or at both. Its `iter_all_changes` hands out the lines of both texts
/// in order, each with its ending and with the side on which it stands; texts that are the same have
/// all their lines on both sides. Which lines of other texts are found equal is left to the crate.
/// It numbers the distinct lines of both texts in 32 bits.
#[verifier::external_body]
pub(crate) fn diff_lines(old: &str, new: &str) -> (r: Vec<Change>)
    requires
        can_compare(old@, new@),
    ensures
        change_views(r@) == line_changes(old@, new@),
        is_difference(change_views(r@), old@, new@),
{
    similar::TextDiff::from_lines(old, new).iter_all_changes().map(|change| Change {
        tag: match change.tag() {
            similar::ChangeTag::Equal => ChangeTag::Equal,
            similar::ChangeTag::Delete => ChangeTag::Delete,
            similar::ChangeTag::Insert => ChangeTag::Insert,
        },
        text: change.as_str().unwrap().to_string(),
    }).collect()
}

} // verus!
