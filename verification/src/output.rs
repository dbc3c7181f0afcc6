//! What a program under test writes: its lines, with `\r\n` read as `\n`, and its text.
use crate::seqs::{before, lemma_before};
use crate::text::utf8_text;
use vstd::prelude::*;

verus! {

/// A line with `\n` in place of the `\r\n` at its end; any other line as it is.
pub open spec fn normalized(line: Seq<u8>) -> Seq<u8> {
    if line.len() >= 2 && line[line.len() - 2] == 0x0d && line[line.len() - 1] == 0x0a {
        line.take(line.len() - 2).push(0x0a)
    } else {
        line
    }
}

/// The bytes of lines, one after the other, each normalized.
pub open spec fn collected(lines: Seq<Seq<u8>>) -> Seq<u8>
    decreases lines.len(),
{
    if lines.len() == 0 {
        seq![]
    } else {
        collected(lines.drop_last()) + normalized(lines.last())
    }
}

/// What a read up to and with the next line feed takes from a stream: all of it where there is no
/// line feed, and nothing at its end.
pub open spec fn next_line(stream: Seq<u8>) -> Seq<u8> {
    let n = before(stream, 0x0au8) as int;
    if n < stream.len() {
        stream.take(n + 1)
    } else {
        stream
    }
}

/// The lines that are taken from a stream, read by read, until a read takes nothing.
pub open spec fn stream_lines(stream: Seq<u8>) -> Seq<Seq<u8>>
    decreases stream.len(),
    via stream_lines_shrinks
{
    let line = next_line(stream);
    if line.len() == 0 {
        seq![]
    } else {
        seq![line] + stream_lines(stream.skip(line.len() as int))
    }
}

#[via_fn]
proof fn stream_lines_shrinks(stream: Seq<u8>) {
    lemma_before(stream, 0x0au8);
}

/// The lines of a stream are the stream when they are put together, so that an empty stream has
/// none. None of them is empty. Each but the last holds one line feed, at its end; the last holds
/// none, unless at its end.
pub proof fn law_stream_lines(stream: Seq<u8>)
    ensures
        stream_lines(stream).flatten() == stream,
        stream.len() == 0 ==> stream_lines(stream).len() == 0,
        forall|i: int|
            0 <= i < stream_lines(stream).len() ==> (#[trigger] stream_lines(stream)[i]).len() > 0,
        forall|i: int, j: int|
            0 <= i < stream_lines(stream).len() && 0 <= j < stream_lines(stream)[i].len() - 1
                ==> #[trigger] stream_lines(stream)[i][j] != 0x0a,
        forall|i: int|
            0 <= i < stream_lines(stream).len() - 1 ==> (#[trigger] stream_lines(stream)[i]).last()
                == 0x0a,
    decreases stream.len(),
{
    lemma_before(stream, 0x0au8);
    if stream.len() > 0 {
        let line = next_line(stream);
        let rest = stream.skip(line.len() as int);
        let lines = stream_lines(stream);
        let more = stream_lines(rest);
        law_stream_lines(rest);
        assert(lines.drop_first() == more);
        assert(line + rest == stream);
        assert forall|i: int| 0 <= i < lines.len() implies (#[trigger] lines[i]).len() > 0 by {
            if i > 0 {
                assert(lines[i] == more[i - 1]);
            }
        }
        assert forall|i: int, j: int|
            0 <= i < lines.len() && 0 <= j < lines[i].len() - 1 implies #[trigger] lines[i][j]
            != 0x0a by {
            if i > 0 {
                assert(lines[i] == more[i - 1]);
                assert(more[i - 1][j] != 0x0a);
            }
        }
        assert forall|i: int| 0 <= i < lines.len() - 1 implies (#[trigger] lines[i]).last()
            == 0x0a by {
            if i > 0 {
                assert(lines[i] == more[i - 1]);
            }
        }
    }
}

/// A stream with `\n` in place of each `\r\n`.
pub open spec fn collapsed(stream: Seq<u8>) -> Seq<u8>
    decreases stream.len(),
{
    if stream.len() == 0 {
        stream
    } else if stream.len() >= 2 && stream[0] == 0x0d && stream[1] == 0x0a {
        seq![0x0au8] + collapsed(stream.skip(2))
    } else {
        seq![stream[0]] + collapsed(stream.skip(1))
    }
}

/// The first of some lines stands in front of what is collected.
proof fn lemma_collected_front(line: Seq<u8>, rest: Seq<Seq<u8>>)
    ensures
        collected(seq![line] + rest) == normalized(line) + collected(rest),
    decreases rest.len(),
{
    let all = seq![line] + rest;
    if rest.len() == 0 {
        assert(all.drop_last() == rest);
        assert(collected(rest) == Seq::<u8>::empty());
        assert(collected(all) == normalized(line) + collected(rest));
    } else {
        lemma_collected_front(line, rest.drop_last());
        assert(all.drop_last() == seq![line] + rest.drop_last());
        assert(collected(all) == normalized(line) + collected(rest));
    }
}

/// A stream without a line feed holds no `\r\n`.
proof fn lemma_collapsed_last(line: Seq<u8>)
    requires
        forall|j: int| 0 <= j < line.len() ==> line[j] != 0x0a,
    ensures
        collapsed(line) == line,
        normalized(line) == line,
    decreases line.len(),
{
    if line.len() > 0 {
        lemma_collapsed_last(line.skip(1));
        assert(line == seq![line[0]] + line.skip(1));
    }
}

/// The first line of a stream is collapsed on its own.
proof fn lemma_collapsed_front(line: Seq<u8>, rest: Seq<u8>)
    requires
        line.len() > 0,
        line.last() == 0x0a,
        forall|j: int| 0 <= j < line.len() - 1 ==> line[j] != 0x0a,
    ensures
        collapsed(line + rest) == normalized(line) + collapsed(rest),
    decreases line.len(),
{
    let whole = line + rest;
    if line.len() == 1 {
        assert(whole.skip(1) == rest);
        assert(normalized(line) == seq![0x0au8]);
    } else if line.len() == 2 && line[0] == 0x0d {
        assert(whole.skip(2) == rest);
        assert(normalized(line) == seq![0x0au8]);
    } else {
        let tail = line.skip(1);
        lemma_collapsed_front(tail, rest);
        assert(whole.skip(1) == tail + rest);
        assert(normalized(line) == seq![line[0]] + normalized(tail));
        assert(collapsed(whole) == normalized(line) + collapsed(rest));
    }
}

/// What is collected from the lines of a stream is the stream with `\n` in place of each `\r\n`.
pub proof fn law_collected_stream(stream: Seq<u8>)
    ensures
        collected(stream_lines(stream)) == collapsed(stream),
    decreases stream.len(),
{
    lemma_before(stream, 0x0au8);
    if stream.len() > 0 {
        let line = next_line(stream);
        let rest = stream.skip(line.len() as int);
        law_collected_stream(rest);
        lemma_collected_front(line, stream_lines(rest));
        assert(stream == line + rest);
        if line.last() == 0x0a {
            lemma_collapsed_front(line, rest);
        } else {
            lemma_collapsed_last(line);
            assert(line == stream);
            assert(collapsed(rest) == Seq::<u8>::empty());
        }
    }
}

/// Of a line, only the carriage return before the line feed at its end is taken away; a line that does
/// not end in `\r\n` stays as it is.
pub proof fn law_normalized(line: Seq<u8>)
    ensures
        normalized(line + seq![0x0du8, 0x0au8]) == line + seq![0x0au8],
        !seq![0x0du8, 0x0au8].is_suffix_of(line) ==> normalized(line) == line,
{
    let ended = line + seq![0x0du8, 0x0au8];
    assert(ended.take(ended.len() - 2) == line);
    if line.len() >= 2 && line[line.len() - 2] == 0x0d && line[line.len() - 1] == 0x0a {
        assert(line.subrange(line.len() - 2, line.len() as int) == seq![0x0du8, 0x0au8]);
    }
}

/// What is collected holds every line, in order.
pub proof fn law_collected(lines: Seq<Seq<u8>>)
    ensures
        collected(lines) == lines.map_values(|line: Seq<u8>| normalized(line)).flatten(),
    decreases lines.len(),
{
    let each = |line: Seq<u8>| normalized(line);
    if lines.len() > 0 {
        let rest = lines.drop_last();
        law_collected(rest);
        assert(lines.map_values(each) == rest.map_values(each).push(normalized(lines.last())));
        rest.map_values(each).lemma_flatten_push(normalized(lines.last()));
    }
}

/// A stream in which no `\r\n` stands is collected byte for byte.
pub proof fn law_stream_kept(stream: Seq<u8>)
    requires
        forall|i: int|
            0 <= i < stream.len() - 1 && stream[i] == 0x0d ==> #[trigger] stream[i + 1] != 0x0a,
    ensures
        collected(stream_lines(stream)) == stream,
{
    law_collected_stream(stream);
    lemma_collapsed_same(stream);
}

/// A stream in which no `\r\n` stands stays as it is.
proof fn lemma_collapsed_same(stream: Seq<u8>)
    requires
        forall|i: int|
            0 <= i < stream.len() - 1 && stream[i] == 0x0d ==> #[trigger] stream[i + 1] != 0x0a,
    ensures
        collapsed(stream) == stream,
    decreases stream.len(),
{
    if stream.len() > 0 {
        let rest = stream.skip(1);
        assert forall|i: int| 0 <= i < rest.len() - 1 && rest[i] == 0x0d implies #[trigger] rest[i
            + 1] != 0x0a by {
            assert(rest[i + 1] == stream[(i + 1) + 1]);
        }
        lemma_collapsed_same(rest);
        if stream.len() >= 2 && stream[0] == 0x0d {
            assert(stream[0int + 1] != 0x0a);
        }
        assert(stream == seq![stream[0]] + rest);
    }
}

/// A `\r\n` anywhere in a stream is collected as `\n`, and what stands before and behind it as it is
/// on its own.
pub proof fn law_stream_joined(first: Seq<u8>, second: Seq<u8>)
    ensures
        collected(stream_lines(first + seq![0x0du8, 0x0au8] + second)) == collected(
            stream_lines(first),
        ) + seq![0x0au8] + collected(stream_lines(second)),
{
    law_collected_stream(first + seq![0x0du8, 0x0au8] + second);
    law_collected_stream(first);
    law_collected_stream(second);
    lemma_collapsed_joined(first, second);
}

/// A `\r\n` splits a stream into what stands before it and what stands behind it.
proof fn lemma_collapsed_joined(first: Seq<u8>, second: Seq<u8>)
    ensures
        collapsed(first + seq![0x0du8, 0x0au8] + second) == collapsed(first) + seq![0x0au8]
            + collapsed(second),
    decreases first.len(),
{
    let whole = first + seq![0x0du8, 0x0au8] + second;
    let end = seq![0x0au8] + collapsed(second);
    if first.len() == 0 {
        assert(whole.skip(2) == second);
        assert(collapsed(first) + seq![0x0au8] + collapsed(second) == end);
    } else if first.len() >= 2 && first[0] == 0x0d && first[1] == 0x0a {
        lemma_collapsed_joined(first.skip(2), second);
        assert(whole.skip(2) == first.skip(2) + seq![0x0du8, 0x0au8] + second);
        assert(collapsed(whole) == collapsed(first) + seq![0x0au8] + collapsed(second));
    } else {
        lemma_collapsed_joined(first.skip(1), second);
        assert(whole.skip(1) == first.skip(1) + seq![0x0du8, 0x0au8] + second);
        assert(collapsed(whole) == collapsed(first) + seq![0x0au8] + collapsed(second));
    }
}

/// The text of bytes, as `String::from_utf8_lossy` gives it: with replacement characters for what
/// is not UTF-8.
pub uninterp spec fn lossy_text(bytes: Seq<u8>) -> Seq<char>;

/// `String::from_utf8_lossy` gives the text of bytes, with replacement characters for what is not
/// UTF-8; bytes that are UTF-8 throughout are given as they are.
#[verifier::external_body]
pub(crate) fn from_utf8_lossy(bytes: &Vec<u8>) -> (r: String)
    ensures
        r@ == lossy_text(bytes@),
        utf8_text(bytes@) matches Some(text) ==> r@ == text,
{
    String::from_utf8_lossy(bytes).into_owned()
}

/// Adds a line that was read from a program to what it has written so far.
pub fn add_line(stdout: &mut Vec<u8>, line: Vec<u8>)
    ensures
        final(stdout)@ == old(stdout)@ + normalized(line@),
        !seq![0x0du8, 0x0au8].is_suffix_of(line@) ==> final(stdout)@ == old(stdout)@ + line@,
        seq![0x0du8, 0x0au8].is_suffix_of(line@) ==> final(stdout)@ == old(stdout)@ + line@.take(
            line@.len() - 2,
        ) + seq![0x0au8],
{
    proof {
        law_normalized(line@);
        if seq![0x0du8, 0x0au8].is_suffix_of(line@) {
            let end = line@.subrange(line@.len() - 2, line@.len() as int);
            assert(end[0] == 0x0d && end[1] == 0x0a);
        }
    }
    let mut line = line;
    let n = line.len();
    if n >= 2 && line[n - 2] == 0x0d && line[n - 1] == 0x0a {
        let ghost before_pop = line@;
        line.truncate(n - 2);
        line.push(0x0a);
        assert(line@ == normalized(before_pop));
    }
    stdout.append(&mut line);
}

/// The line that a read has put into the buffer. A read of no bytes is the end of the stream: then
/// there is no line, and the buffer stays as it is.
pub fn take_line(read: usize, buffer: &mut Vec<u8>) -> (r: Option<Vec<u8>>)
    ensures
        match r {
            Some(line) => read > 0 && line@ == old(buffer)@ && final(buffer)@ == Seq::<u8>::empty(),
            None => read == 0 && final(buffer)@ == old(buffer)@,
        },
{
    if read == 0 {
        None
    } else {
        let mut line: Vec<u8> = Vec::new();
        std::mem::swap(&mut line, buffer);
        Some(line)
    }
}

} // verus!
