//! Text as sequences of characters: lines, prefixes and surrounding white space.
use crate::seqs::{before, lemma_before, lemma_before_unique};
use vstd::prelude::*;
use vstd::string::StringExecFns;
use vstd::utf8::{
    decode_utf8, decode_utf8_encode_utf8, encode_utf8, encode_utf8_decode_utf8,
    encode_utf8_valid_utf8, valid_utf8,
};

verus! {

/// `String::push` appends one character at the end of the string.
pub assume_specification[ String::push ](text: &mut String, c: char)
    ensures
        final(text)@ == old(text)@.push(c),
;

/// The text that bytes hold, where they are UTF-8.
pub open spec fn utf8_text(bytes: Seq<u8>) -> Option<Seq<char>> {
    if valid_utf8(bytes) {
        Some(decode_utf8(bytes))
    } else {
        None
    }
}

/// Bytes are text exactly where they are the UTF-8 of that text.
pub proof fn law_utf8_text(bytes: Seq<u8>, text: Seq<char>)
    ensures
        utf8_text(bytes) == Some(text) <==> bytes == encode_utf8(text),
{
    encode_utf8_valid_utf8(text);
    encode_utf8_decode_utf8(text);
    if valid_utf8(bytes) {
        decode_utf8_encode_utf8(bytes);
    }
}

/// What an optional string holds.
pub open spec fn text_of(text: Option<String>) -> Option<Seq<char>> {
    match text {
        Some(s) => Some(s@),
        None => None,
    }
}

/// An optional string holds the text of that string, or nothing.
pub proof fn law_text_of(text: String)
    ensures
        text_of(Some(text)) == Some(text@),
        text_of(None) is None,
{
}

/// A line without the carriage return that ends it, if one does.
pub open spec fn without_return(line: Seq<char>) -> Seq<char> {
    if line.len() > 0 && line.last() == '\r' {
        line.drop_last()
    } else {
        line
    }
}

/// The lines of a text. A line ends at a line feed or at a carriage return followed by one; the
/// ending is no part of the line. The last line needs no ending, and then keeps a carriage return.
pub open spec fn lines_of(text: Seq<char>) -> Seq<Seq<char>>
    decreases text.len(),
    via lines_of_shrinks
{
    let n = before(text, '\n') as int;
    if text.len() == 0 {
        seq![]
    } else if n >= text.len() {
        seq![text]
    } else {
        seq![without_return(text.take(n as int))] + lines_of(text.skip(n + 1))
    }
}

#[via_fn]
proof fn lines_of_shrinks(text: Seq<char>) {
    lemma_before(text, '\n');
}

/// Lines put together again, each with a line feed behind it.
pub open spec fn unlines(lines: Seq<Seq<char>>) -> Seq<char>
    decreases lines.len(),
{
    if lines.len() == 0 {
        seq![]
    } else {
        unlines(lines.drop_last()) + lines.last() + seq!['\n']
    }
}

/// Whether a line can be written with a line feed behind it and read back: it holds no line feed
/// and does not end in a carriage return.
pub open spec fn is_line(line: Seq<char>) -> bool {
    &&& !line.contains('\n')
    &&& line.len() > 0 ==> line.last() != '\r'
}

/// The first line of lines put together stands in front.
pub proof fn lemma_unlines_front(line: Seq<char>, rest: Seq<Seq<char>>)
    ensures
        unlines(seq![line] + rest) == line + seq!['\n'] + unlines(rest),
    decreases rest.len(),
{
    let all = seq![line] + rest;
    if rest.len() == 0 {
        assert(all.drop_last() == rest);
        assert(unlines(rest) == Seq::<char>::empty());
        assert(unlines(all) == line + seq!['\n'] + unlines(rest));
    } else {
        lemma_unlines_front(line, rest.drop_last());
        assert(all.drop_last() == seq![line] + rest.drop_last());
        assert(unlines(all) == line + seq!['\n'] + unlines(rest));
    }
}

/// The first line of a text is what stands before its first line feed.
pub proof fn lemma_lines_front(line: Seq<char>, text: Seq<char>)
    requires
        is_line(line),
    ensures
        lines_of(line + seq!['\n'] + text) == seq![line] + lines_of(text),
{
    let whole = line + seq!['\n'] + text;
    assert forall|j: int| 0 <= j < line.len() implies whole[j] != '\n' by {
        assert(line.contains(line[j]));
    }
    lemma_before_unique(whole, '\n', line.len() as int);
    assert(whole.take(line.len() as int) == line);
    assert(whole.skip(line.len() as int + 1) == text);
}

/// A line ends at `\n` or at `\r\n`, of which it keeps nothing; the last one needs no ending, and is then
/// all that is left. An empty text has no line.
pub proof fn law_lines(line: Seq<char>, text: Seq<char>)
    requires
        !line.contains('\n'),
    ensures
        lines_of(seq![]) == Seq::<Seq<char>>::empty(),
        line.len() > 0 ==> lines_of(line) == seq![line],
        lines_of(line + seq!['\r', '\n'] + text) == seq![line] + lines_of(text),
        line.len() == 0 || line.last() != '\r' ==> lines_of(line + seq!['\n'] + text) == seq![line]
            + lines_of(text),
{
    assert forall|j: int| 0 <= j < line.len() implies line[j] != '\n' by {
        assert(line.contains(line[j]));
    }
    lemma_before_unique(line, '\n', line.len() as int);
    let whole = line + seq!['\r', '\n'] + text;
    let n = line.len() as int + 1;
    lemma_before_unique(whole, '\n', n);
    assert(whole.take(n) == line.push('\r'));
    assert(line.push('\r').drop_last() == line);
    assert(whole.skip(n + 1) == text);
    if line.len() == 0 || line.last() != '\r' {
        lemma_lines_front(line, text);
    }
}

/// A text whose last line lacks its line feed has the same lines with it.
pub proof fn law_last_line_feed(text: Seq<char>)
    requires
        text.len() > 0,
        text.last() != '\n',
        text.last() != '\r',
    ensures
        lines_of(text) == lines_of(text.push('\n')),
    decreases text.len(),
{
    let n = before(text, '\n') as int;
    lemma_before(text, '\n');
    let whole = text.push('\n');
    if n >= text.len() {
        lemma_before_unique(whole, '\n', n);
        assert(whole.take(n) == text);
        assert(whole.skip(n + 1) == Seq::<char>::empty());
        assert(seq![text] + lines_of(seq![]) == seq![text]);
    } else {
        let rest = text.skip(n + 1);
        lemma_before_unique(whole, '\n', n);
        assert(whole.take(n) == text.take(n));
        assert(whole.skip(n + 1) == rest.push('\n'));
        assert(rest.last() == text.last());
        law_last_line_feed(rest);
    }
}

/// Lines put together hold every line, in order, each with a line feed behind it.
pub proof fn law_unlines(lines: Seq<Seq<char>>)
    ensures
        unlines(lines) == lines.map_values(|line: Seq<char>| line.push('\n')).flatten(),
    decreases lines.len(),
{
    let ended = |line: Seq<char>| line.push('\n');
    if lines.len() > 0 {
        let rest = lines.drop_last();
        law_unlines(rest);
        assert(lines.map_values(ended) == rest.map_values(ended).push(lines.last().push('\n')));
        rest.map_values(ended).lemma_flatten_push(lines.last().push('\n'));
        assert(unlines(rest) + lines.last() + seq!['\n'] == unlines(rest) + lines.last().push('\n'));
    }
}

/// The lines of a text without carriage returns, put together again, are the text; a line feed that
/// it lacks at its end is added.
pub proof fn law_lines_put_together(text: Seq<char>)
    requires
        !text.contains('\r'),
    ensures
        text.len() == 0 || text.last() == '\n' ==> unlines(lines_of(text)) == text,
        text.len() > 0 && text.last() != '\n' ==> unlines(lines_of(text)) == text.push('\n'),
    decreases text.len(),
{
    let n = before(text, '\n') as int;
    lemma_before(text, '\n');
    if text.len() > 0 {
        assert(text.contains(text.last()));
        if n >= text.len() {
            lemma_unlines_front(text, seq![]);
            assert(seq![text] + Seq::<Seq<char>>::empty() == seq![text]);
            assert(unlines(seq![]) == Seq::<char>::empty());
            assert(unlines(seq![text]) == text.push('\n'));
        } else {
            let line = text.take(n);
            let rest = text.skip(n + 1);
            assert forall|j: int| 0 <= j < rest.len() implies rest[j] != '\r' by {
                assert(text.contains(text[n + 1 + j]));
            }
            if line.len() > 0 {
                assert(text.contains(text[n - 1]));
            }
            assert(without_return(line) == line);
            law_lines_put_together(rest);
            lemma_unlines_front(line, lines_of(rest));
            if rest.len() > 0 {
                assert(rest.last() == text.last());
            }
            assert(line + seq!['\n'] + rest == text);
            assert(line + seq!['\n'] + rest.push('\n') == text.push('\n'));
        }
    }
}

/// Lines that are put together, each with a line feed behind it, are read back as they were.
pub proof fn law_lines_read_back(lines: Seq<Seq<char>>)
    requires
        forall|i: int| 0 <= i < lines.len() ==> is_line(#[trigger] lines[i]),
    ensures
        lines_of(unlines(lines)) == lines,
    decreases lines.len(),
{
    if lines.len() > 0 {
        let rest = lines.skip(1);
        law_lines_read_back(rest);
        lemma_unlines_front(lines[0], rest);
        lemma_lines_front(lines[0], unlines(rest));
        assert(lines == seq![lines[0]] + rest);
    }
}

/// Lines with a carriage return behind each.
pub open spec fn with_returns(lines: Seq<Seq<char>>) -> Seq<Seq<char>> {
    lines.map_values(|line: Seq<char>| line.push('\r'))
}

/// Lines that are put together, each with a carriage return and a line feed behind it, are read
/// back as they were.
pub proof fn law_return_lines_read_back(lines: Seq<Seq<char>>)
    requires
        forall|i: int| 0 <= i < lines.len() ==> !(#[trigger] lines[i]).contains('\n'),
    ensures
        lines_of(unlines(with_returns(lines))) == lines,
    decreases lines.len(),
{
    if lines.len() > 0 {
        let rest = lines.skip(1);
        let line = lines[0].push('\r');
        law_return_lines_read_back(rest);
        assert(with_returns(lines) == seq![line] + with_returns(rest));
        lemma_unlines_front(line, with_returns(rest));
        let whole = line + seq!['\n'] + unlines(with_returns(rest));
        assert forall|j: int| 0 <= j < line.len() implies whole[j] != '\n' by {
            if j < lines[0].len() {
                assert(lines[0].contains(lines[0][j]));
            }
        }
        lemma_before_unique(whole, '\n', line.len() as int);
        assert(whole.take(line.len() as int) == line);
        assert(line.drop_last() == lines[0]);
        assert(whole.skip(line.len() as int + 1) == unlines(with_returns(rest)));
        assert(lines == seq![lines[0]] + rest);
    }
}

/// A text with `\r\n` in place of each `\n`.
pub open spec fn with_crlf(text: Seq<char>) -> Seq<char>
    decreases text.len(),
{
    if text.len() == 0 {
        text
    } else if text[0] == '\n' {
        seq!['\r', '\n'] + with_crlf(text.skip(1))
    } else {
        seq![text[0]] + with_crlf(text.skip(1))
    }
}

/// What stands before the first line feed stays as it is.
proof fn lemma_with_crlf_front(line: Seq<char>, rest: Seq<char>)
    requires
        forall|j: int| 0 <= j < line.len() ==> line[j] != '\n',
    ensures
        with_crlf(line + rest) == line + with_crlf(rest),
    decreases line.len(),
{
    if line.len() == 0 {
        assert(line + rest == rest);
        assert(line + with_crlf(rest) == with_crlf(rest));
    } else {
        let tail = line.skip(1);
        lemma_with_crlf_front(tail, rest);
        assert((line + rest).skip(1) == tail + rest);
        assert(seq![line[0]] + (tail + with_crlf(rest)) == line + with_crlf(rest));
    }
}

/// A text in which no `\r\n` stands has the same lines with `\r\n` in place of each `\n`.
pub proof fn law_crlf(text: Seq<char>)
    requires
        forall|i: int| 0 <= i < text.len() - 1 && text[i] == '\r' ==> #[trigger] text[i + 1] != '\n',
    ensures
        lines_of(with_crlf(text)) == lines_of(text),
    decreases text.len(),
{
    let n = before(text, '\n') as int;
    lemma_before(text, '\n');
    let line = text.take(n);
    if n >= text.len() {
        assert(line == text);
        lemma_with_crlf_front(text, seq![]);
        assert(text + Seq::<char>::empty() == text);
        assert(with_crlf(seq![]) == Seq::<char>::empty());
    } else {
        let rest = text.skip(n + 1);
        let after = text.skip(n);
        assert(text == line + after);
        assert(after.skip(1) == rest);
        lemma_with_crlf_front(line, after);
        assert forall|i: int| 0 <= i < rest.len() - 1 && rest[i] == '\r' implies #[trigger] rest[i
            + 1] != '\n' by {
            assert(rest[i + 1] == text[(n + 1 + i) + 1]);
        }
        law_crlf(rest);
        let whole = with_crlf(text);
        let ended = line.push('\r');
        assert(whole == ended + seq!['\n'] + with_crlf(rest));
        lemma_before_unique(whole, '\n', n + 1);
        assert(whole.take(n + 1) == ended);
        assert(whole.skip(n + 2) == with_crlf(rest));
        assert(ended.drop_last() == line);
        if line.len() > 0 {
            assert(text[(n - 1) + 1] == '\n');
        }
        assert(without_return(line) == line);
    }
}

/// What the strings of a sequence hold.
pub open spec fn texts(strings: Seq<String>) -> Seq<Seq<char>> {
    strings.map_values(|s: String| s@)
}

/// The characters of a text.
pub fn chars_of(text: &str) -> (r: Vec<char>)
    ensures
        r@ == text@,
{
    let mut chars: Vec<char> = Vec::new();
    for c in it: text.chars()
        invariant
            it.seq() == text@,
            chars@ == text@.take(it.index() as int),
    {
        chars.push(c);
    }
    assert(text@.take(text@.len() as int) == text@);
    chars
}

/// The text made of the characters from place `from` to before place `to`.
pub fn string_of(chars: &Vec<char>, from: usize, to: usize) -> (r: String)
    requires
        from <= to <= chars@.len(),
    ensures
        r@ == chars@.subrange(from as int, to as int),
{
    let mut text: String = String::new();
    let mut i: usize = from;
    while i < to
        invariant
            from <= i <= to <= chars@.len(),
            text@ == chars@.subrange(from as int, i as int),
        decreases to - i,
    {
        text.push(chars[i]);
        i += 1;
    }
    text
}

/// The lines of a text, in order.
pub fn lines(text: &str) -> (r: Vec<String>)
    ensures
        texts(r@) == lines_of(text@),
{
    let chars = chars_of(text);
    let mut out: Vec<String> = Vec::new();
    let mut start: usize = 0;
    let mut i: usize = 0;
    assert(text@.skip(0) == text@);
    while i < chars.len()
        invariant
            chars@ == text@,
            start <= i <= chars@.len(),
            forall|j: int| start <= j < i ==> chars@[j] != '\n',
            lines_of(text@) == texts(out@) + lines_of(text@.skip(start as int)),
        decreases chars@.len() - i,
    {
        if chars[i] == '\n' {
            let end: usize = if i > start && chars[i - 1] == '\r' {
                i - 1
            } else {
                i
            };
            let line = string_of(&chars, start, end);
            proof {
                let rest = text@.skip(start as int);
                lemma_before_unique(rest, '\n', i - start);
                assert(rest.take(i - start) == text@.subrange(start as int, i as int));
                assert(rest.skip(i - start + 1) == text@.skip(i + 1));
                assert(line@ == without_return(rest.take(i - start)));
                assert(texts(out@.push(line)) == texts(out@) + seq![line@]);
            }
            out.push(line);
            start = i + 1;
        }
        i += 1;
    }
    proof {
        lemma_before_unique(text@.skip(start as int), '\n', i - start);
    }
    if start < chars.len() {
        let line = string_of(&chars, start, chars.len());
        proof {
            assert(line@ == text@.skip(start as int));
            assert(texts(out@.push(line)) == texts(out@) + seq![line@]);
        }
        out.push(line);
    }
    out
}

/// The lines from place `from` to before place `to`, each with a line feed behind it.
pub fn join_lines(lines: &Vec<String>, from: usize, to: usize) -> (r: String)
    requires
        from <= to <= lines@.len(),
    ensures
        r@ == unlines(texts(lines@).subrange(from as int, to as int)),
{
    let mut text: String = String::new();
    let mut i: usize = from;
    while i < to
        invariant
            from <= i <= to <= lines@.len(),
            text@ == unlines(texts(lines@).subrange(from as int, i as int)),
        decreases to - i,
    {
        proof {
            reveal_strlit("\n");
            let all = texts(lines@);
            assert(all.subrange(from as int, i + 1).drop_last() == all.subrange(
                from as int,
                i as int,
            ));
            assert("\n"@ == seq!['\n']);
        }
        text.append(lines[i].as_str());
        text.append("\n");
        i += 1;
    }
    text
}

/// Whether two texts are the same.
pub fn same_text(a: &str, b: &str) -> (r: bool)
    ensures
        r == (a@ == b@),
{
    a.to_owned() == b.to_owned()
}

/// Whether `text` begins with the first `len` characters of `prefix`.
pub fn starts_with(text: &Vec<char>, prefix: &Vec<char>, len: usize) -> (r: bool)
    requires
        len <= prefix@.len(),
    ensures
        r == prefix@.take(len as int).is_prefix_of(text@),
{
    if text.len() < len {
        return false;
    }
    let mut i: usize = 0;
    while i < len
        invariant
            i <= len <= prefix@.len(),
            len <= text@.len(),
            forall|j: int| 0 <= j < i ==> text@[j] == prefix@[j],
        decreases len - i,
    {
        if text[i] != prefix[i] {
            proof {
                assert(prefix@.take(len as int)[i as int] == prefix@[i as int]);
                assert(text@.subrange(0, len as int)[i as int] == text@[i as int]);
            }
            return false;
        }
        i += 1;
    }
    true
}

/// Whether a character has the Unicode property `White_Space`.
pub open spec fn white_space(c: char) -> bool {
    ||| '\u{9}' <= c <= '\u{d}'
    ||| c == '\u{20}'
    ||| c == '\u{85}'
    ||| c == '\u{a0}'
    ||| c == '\u{1680}'
    ||| '\u{2000}' <= c <= '\u{200a}'
    ||| c == '\u{2028}'
    ||| c == '\u{2029}'
    ||| c == '\u{202f}'
    ||| c == '\u{205f}'
    ||| c == '\u{3000}'
}

/// Whether a character has the Unicode property `White_Space`.
pub fn is_white_space(c: char) -> (r: bool)
    ensures
        r == white_space(c),
{
    ('\u{9}' <= c && c <= '\u{d}') || c == '\u{20}' || c == '\u{85}' || c == '\u{a0}' || c
        == '\u{1680}' || ('\u{2000}' <= c && c <= '\u{200a}') || c == '\u{2028}' || c == '\u{2029}'
        || c == '\u{202f}' || c == '\u{205f}' || c == '\u{3000}'
}

/// A text without the white space at its end.
pub open spec fn trimmed_end(text: Seq<char>) -> Seq<char>
    decreases text.len(),
{
    if text.len() > 0 && white_space(text.last()) {
        trimmed_end(text.drop_last())
    } else {
        text
    }
}

/// A text without the white space at its start and at its end.
pub open spec fn trimmed(text: Seq<char>) -> Seq<char>
    decreases text.len(),
{
    if text.len() > 0 && white_space(text[0]) {
        trimmed(text.skip(1))
    } else {
        trimmed_end(text)
    }
}

/// What is left of a text is all that stands from its first character that is no white space to its
/// last one.
pub proof fn law_trimmed(text: Seq<char>) -> (r: (int, int))
    ensures
        0 <= r.0 <= r.1 <= text.len(),
        trimmed(text) == text.subrange(r.0, r.1),
        forall|i: int| 0 <= i < r.0 ==> white_space(#[trigger] text[i]),
        forall|i: int| r.1 <= i < text.len() ==> white_space(#[trigger] text[i]),
        r.0 < r.1 ==> !white_space(text[r.0]) && !white_space(text[r.1 - 1]),
    decreases text.len(),
{
    if text.len() > 0 && white_space(text[0]) {
        let rest = text.skip(1);
        let (from, to) = law_trimmed(rest);
        assert(rest.subrange(from, to) == text.subrange(from + 1, to + 1));
        assert forall|i: int| 0 <= i < from + 1 implies white_space(#[trigger] text[i]) by {
            if i > 0 {
                assert(rest[i - 1] == text[i]);
            }
        }
        assert forall|i: int| to + 1 <= i < text.len() implies white_space(#[trigger] text[i]) by {
            assert(rest[i - 1] == text[i]);
        }
        (from + 1, to + 1)
    } else {
        let to = lemma_trimmed_end(text);
        (0, to)
    }
}

/// Taking the white space at the end away leaves what stands before it.
proof fn lemma_trimmed_end(text: Seq<char>) -> (to: int)
    ensures
        0 <= to <= text.len(),
        trimmed_end(text) == text.take(to),
        forall|i: int| to <= i < text.len() ==> white_space(#[trigger] text[i]),
        0 < to ==> !white_space(text[to - 1]),
    decreases text.len(),
{
    if text.len() > 0 && white_space(text.last()) {
        let rest = text.drop_last();
        let to = lemma_trimmed_end(rest);
        assert(rest.take(to) == text.take(to));
        assert forall|i: int| to <= i < text.len() implies white_space(#[trigger] text[i]) by {
            if i < rest.len() {
                assert(rest[i] == text[i]);
            }
        }
        to
    } else {
        assert(text.take(text.len() as int) == text);
        text.len() as int
    }
}

/// A text without the white space at its start and at its end.
pub fn trim(text: &str) -> (r: String)
    ensures
        r@ == trimmed(text@),
{
    let chars = chars_of(text);
    let mut from: usize = 0;
    assert(text@.skip(0) == text@);
    while from < chars.len() && is_white_space(chars[from])
        invariant
            chars@ == text@,
            from <= chars@.len(),
            trimmed(text@) == trimmed(text@.skip(from as int)),
        decreases chars@.len() - from,
    {
        assert(text@.skip(from as int).skip(1) == text@.skip(from + 1));
        from += 1;
    }
    let mut to: usize = chars.len();
    assert(text@.subrange(from as int, to as int) == text@.skip(from as int));
    while to > from && is_white_space(chars[to - 1])
        invariant
            chars@ == text@,
            from <= to <= chars@.len(),
            trimmed(text@) == trimmed_end(text@.subrange(from as int, to as int)),
        decreases to,
    {
        assert(text@.subrange(from as int, to as int).drop_last() == text@.subrange(
            from as int,
            to - 1,
        ));
        to -= 1;
    }
    string_of(&chars, from, to)
}

} // verus!
