//! Splitting text into chunks of bounded size.
//!
//! The text is read line by line. Lines are gathered, with a line break
//! between neighbours, until the next line would make the gathered text
//! longer than the chunk size; then the gathered text becomes a chunk and
//! the next line starts a new one. Each chunk loses the whitespace at its
//! two ends. A line longer than the chunk size becomes a chunk by itself.

use crate::text::{chars_of, join, string_of_range, texts};
use vstd::prelude::*;

verus! {

/// A segment of a source document that is embedded on its own.
#[derive(Debug)]
pub struct Chunk {
    pub text: String,
    pub source_file: String,
    pub index: usize,
}

/// Whether `c` is white space: the characters with the Unicode property
/// `White_Space`.
pub open spec fn is_whitespace(c: char) -> bool {
    let u = c as u32;
    ||| 0x09 <= u <= 0x0d
    ||| u == 0x20
    ||| u == 0x85
    ||| u == 0xa0
    ||| u == 0x1680
    ||| 0x2000 <= u <= 0x200a
    ||| u == 0x2028
    ||| u == 0x2029
    ||| u == 0x202f
    ||| u == 0x205f
    ||| u == 0x3000
}

/// Whether `c` is white space.
pub fn char_is_whitespace(c: char) -> (b: bool)
    ensures
        b == is_whitespace(c),
{
    let u = c as u32;
    (0x09 <= u && u <= 0x0d) || u == 0x20 || u == 0x85 || u == 0xa0 || u == 0x1680 || (0x2000
        <= u && u <= 0x200a) || u == 0x2028 || u == 0x2029 || u == 0x202f || u == 0x205f || u
        == 0x3000
}

/// `s` without the white space at its start.
pub open spec fn trim_start(s: Seq<char>) -> Seq<char>
    decreases s.len(),
{
    if s.len() > 0 && is_whitespace(s.first()) {
        trim_start(s.drop_first())
    } else {
        s
    }
}

/// `s` without the white space at its end.
pub open spec fn trim_end(s: Seq<char>) -> Seq<char>
    decreases s.len(),
{
    if s.len() > 0 && is_whitespace(s.last()) {
        trim_end(s.drop_last())
    } else {
        s
    }
}

/// `s` without the white space at its two ends.
pub open spec fn trim(s: Seq<char>) -> Seq<char> {
    trim_end(trim_start(s))
}

/// Whether `s` holds nothing but white space.
pub open spec fn is_blank(s: Seq<char>) -> bool {
    forall|i: int| 0 <= i < s.len() ==> is_whitespace(#[trigger] s[i])
}

/// Whether `text` holds nothing but white space.
pub fn text_is_blank(text: &str) -> (blank: bool)
    ensures
        blank == is_blank(text@),
{
    let chars = chars_of(text);
    let mut i: usize = 0;
    while i < chars.len()
        invariant
            i <= chars.len(),
            chars@ == text@,
            forall|k: int| 0 <= k < i ==> is_whitespace(#[trigger] chars@[k]),
        decreases chars.len() - i,
    {
        if !char_is_whitespace(chars[i]) {
            assert(!is_whitespace(text@[i as int]));
            return false;
        }
        i += 1;
    }
    true
}

/// `line` without one carriage return at its end.
pub open spec fn without_carriage_return(line: Seq<char>) -> Seq<char> {
    if line.len() > 0 && line.last() == '\r' {
        line.drop_last()
    } else {
        line
    }
}

/// The lines of `s` where `current` holds the characters of the line that
/// has been begun.
pub open spec fn lines_from(s: Seq<char>, current: Seq<char>) -> Seq<Seq<char>>
    decreases s.len(),
{
    if s.len() == 0 {
        if current.len() > 0 {
            seq![current]
        } else {
            Seq::empty()
        }
    } else if s.first() == '\n' {
        seq![without_carriage_return(current)] + lines_from(s.drop_first(), Seq::empty())
    } else {
        lines_from(s.drop_first(), current.push(s.first()))
    }
}

/// The lines of `s`. A line ends at a line feed, or at a carriage return
/// followed by a line feed; neither belongs to the line. The end of the text
/// ends the last line, unless nothing follows the last line feed.
pub open spec fn lines_of(s: Seq<char>) -> Seq<Seq<char>> {
    lines_from(s, Seq::empty())
}

/// The chunks made of `lines` where `current` holds the text gathered so
/// far.
pub open spec fn pack(lines: Seq<Seq<char>>, current: Seq<char>, size: nat) -> Seq<Seq<char>>
    decreases lines.len(),
{
    if lines.len() == 0 {
        if current.len() > 0 {
            seq![trim(current)]
        } else {
            Seq::empty()
        }
    } else {
        let line = lines.first();
        let rest = lines.drop_first();
        if current.len() > 0 && current.len() + line.len() + 1 > size {
            seq![trim(current)] + pack(rest, line, size)
        } else if current.len() > 0 {
            pack(rest, current + seq!['\n'] + line, size)
        } else {
            pack(rest, line, size)
        }
    }
}

/// The chunks of `text` for the chunk size `size`, counted in characters.
pub open spec fn chunked(text: Seq<char>, size: nat) -> Seq<Seq<char>> {
    pack(lines_of(text), Seq::empty(), size)
}

/// `s` without its white space.
pub open spec fn solid(s: Seq<char>) -> Seq<char>
    decreases s.len(),
{
    if s.len() == 0 {
        Seq::empty()
    } else if is_whitespace(s.last()) {
        solid(s.drop_last())
    } else {
        solid(s.drop_last()).push(s.last())
    }
}

/// The texts of `parts` written one after another.
pub open spec fn concat_all(parts: Seq<Seq<char>>) -> Seq<char>
    decreases parts.len(),
{
    if parts.len() == 0 {
        Seq::empty()
    } else {
        parts.first() + concat_all(parts.drop_first())
    }
}

proof fn lemma_solid_add(a: Seq<char>, b: Seq<char>)
    ensures
        solid(a + b) == solid(a) + solid(b),
    decreases b.len(),
{
    if b.len() == 0 {
        assert(a + b =~= a);
        assert(solid(a) + solid(b) =~= solid(a));
    } else {
        assert((a + b).drop_last() =~= a + b.drop_last());
        assert((a + b).last() == b.last());
        lemma_solid_add(a, b.drop_last());
        assert(solid(a + b) =~= solid(a) + solid(b));
    }
}

proof fn lemma_solid_one(c: char)
    ensures
        solid(seq![c]) == if is_whitespace(c) {
            Seq::<char>::empty()
        } else {
            seq![c]
        },
{
    assert(seq![c].drop_last() =~= Seq::<char>::empty());
    assert(seq![c].last() == c);
    assert(solid(seq![c].drop_last()) =~= Seq::<char>::empty());
    if !is_whitespace(c) {
        assert(Seq::<char>::empty().push(c) =~= seq![c]);
    }
}

proof fn lemma_solid_trim_start(s: Seq<char>)
    ensures
        solid(trim_start(s)) == solid(s),
    decreases s.len(),
{
    if s.len() > 0 && is_whitespace(s.first()) {
        lemma_solid_trim_start(s.drop_first());
        assert(s =~= seq![s.first()] + s.drop_first());
        lemma_solid_add(seq![s.first()], s.drop_first());
        lemma_solid_one(s.first());
        assert(Seq::<char>::empty() + solid(s.drop_first()) =~= solid(s.drop_first()));
    }
}

proof fn lemma_solid_trim_end(s: Seq<char>)
    ensures
        solid(trim_end(s)) == solid(s),
    decreases s.len(),
{
    if s.len() > 0 && is_whitespace(s.last()) {
        lemma_solid_trim_end(s.drop_last());
    }
}

proof fn lemma_solid_trim(s: Seq<char>)
    ensures
        solid(trim(s)) == solid(s),
{
    lemma_solid_trim_start(s);
    lemma_solid_trim_end(trim_start(s));
}

proof fn lemma_concat_cons(head: Seq<char>, tail: Seq<Seq<char>>)
    ensures
        concat_all(seq![head] + tail) == head + concat_all(tail),
{
    let all = seq![head] + tail;
    assert(all.first() == head);
    assert(all.drop_first() =~= tail);
}

proof fn lemma_solid_lines(s: Seq<char>, current: Seq<char>)
    ensures
        solid(concat_all(lines_from(s, current))) == solid(current) + solid(s),
    decreases s.len(),
{
    if s.len() == 0 {
        if current.len() > 0 {
            lemma_concat_cons(current, Seq::empty());
            assert(seq![current] + Seq::<Seq<char>>::empty() =~= seq![current]);
            assert(current + Seq::<char>::empty() =~= current);
        }
        assert(solid(current) + solid(s) =~= solid(current));
    } else {
        let c = s.first();
        let rest = s.drop_first();
        assert(s =~= seq![c] + rest);
        lemma_solid_add(seq![c], rest);
        lemma_solid_one(c);
        if c == '\n' {
            let line = without_carriage_return(current);
            lemma_solid_lines(rest, Seq::empty());
            lemma_concat_cons(line, lines_from(rest, Seq::empty()));
            lemma_solid_add(line, concat_all(lines_from(rest, Seq::empty())));
            assert(solid(line) == solid(current));
            assert(solid(Seq::<char>::empty()) + solid(rest) =~= solid(rest));
            assert(Seq::<char>::empty() + solid(rest) =~= solid(rest));
        } else {
            lemma_solid_lines(rest, current.push(c));
            assert(current.push(c) =~= current + seq![c]);
            lemma_solid_add(current, seq![c]);
            assert((solid(current) + solid(seq![c])) + solid(rest) =~= solid(current) + (solid(
                seq![c],
            ) + solid(rest)));
        }
    }
}

proof fn lemma_solid_pack(lines: Seq<Seq<char>>, current: Seq<char>, size: nat)
    ensures
        solid(concat_all(pack(lines, current, size))) == solid(current) + solid(
            concat_all(lines),
        ),
    decreases lines.len(),
{
    if lines.len() == 0 {
        if current.len() > 0 {
            lemma_concat_cons(trim(current), Seq::empty());
            assert(seq![trim(current)] + Seq::<Seq<char>>::empty() =~= seq![trim(current)]);
            assert(trim(current) + Seq::<char>::empty() =~= trim(current));
            lemma_solid_trim(current);
        }
        assert(solid(current) + solid(concat_all(lines)) =~= solid(current));
    } else {
        let line = lines.first();
        let rest = lines.drop_first();
        lemma_solid_add(line, concat_all(rest));
        if current.len() > 0 && current.len() + line.len() + 1 > size {
            lemma_solid_pack(rest, line, size);
            lemma_concat_cons(trim(current), pack(rest, line, size));
            lemma_solid_add(trim(current), concat_all(pack(rest, line, size)));
            lemma_solid_trim(current);
        } else if current.len() > 0 {
            lemma_solid_pack(rest, current + seq!['\n'] + line, size);
            lemma_solid_add(current + seq!['\n'], line);
            lemma_solid_add(current, seq!['\n']);
            lemma_solid_one('\n');
            assert(solid(current) + Seq::<char>::empty() =~= solid(current));
            assert((solid(current) + solid(line)) + solid(concat_all(rest)) =~= solid(current)
                + (solid(line) + solid(concat_all(rest))));
        } else {
            lemma_solid_pack(rest, line, size);
            assert(solid(current) + solid(concat_all(lines)) =~= solid(concat_all(lines)));
        }
    }
}

/// Chunking drops nothing but white space: the characters of the chunks
/// that are no white space are those of the text, in the same order.
pub proof fn lemma_chunks_keep_content(text: Seq<char>, size: nat)
    ensures
        solid(concat_all(chunked(text, size))) == solid(text),
{
    lemma_solid_pack(lines_of(text), Seq::empty(), size);
    lemma_solid_lines(text, Seq::empty());
    assert(Seq::<char>::empty() + solid(concat_all(lines_of(text))) =~= solid(
        concat_all(lines_of(text)),
    ));
    assert(Seq::<char>::empty() + solid(text) =~= solid(text));
}

proof fn lemma_join_prefix_len(lines: Seq<Seq<char>>, k: int)
    requires
        1 <= k <= lines.len(),
    ensures
        join(lines.take(k), seq!['\n']).len() <= join(lines, seq!['\n']).len(),
    decreases lines.len() - k,
{
    if k < lines.len() {
        let longer = lines.take(k + 1);
        assert(longer.drop_last() =~= lines.take(k));
        lemma_join_prefix_len(lines, k + 1);
    } else {
        assert(lines.take(k) =~= lines);
    }
}

proof fn lemma_pack_fitting(lines: Seq<Seq<char>>, k: int, current: Seq<char>, size: nat)
    requires
        1 <= k <= lines.len(),
        current == join(lines.take(k), seq!['\n']),
        current.len() > 0,
        join(lines, seq!['\n']).len() <= size,
    ensures
        pack(lines.skip(k), current, size) == seq![trim(join(lines, seq!['\n']))],
    decreases lines.len() - k,
{
    if k == lines.len() {
        assert(lines.take(k) =~= lines);
    } else {
        let rest = lines.skip(k);
        let line = lines[k];
        let longer = lines.take(k + 1);
        assert(rest.first() == line);
        assert(rest.drop_first() =~= lines.skip(k + 1));
        assert(longer.drop_last() =~= lines.take(k));
        assert(longer.last() == line);
        assert(join(longer, seq!['\n']) == current + seq!['\n'] + line);
        lemma_join_prefix_len(lines, k + 1);
        lemma_pack_fitting(lines, k + 1, current + seq!['\n'] + line, size);
    }
}

/// A text whose lines fit into one chunk makes one chunk: its lines, with a
/// line break between neighbours, trimmed. The first line has to hold
/// something.
pub proof fn lemma_fitting_text_is_one_chunk(text: Seq<char>, size: nat)
    requires
        lines_of(text).len() > 0,
        lines_of(text).first().len() > 0,
        join(lines_of(text), seq!['\n']).len() <= size,
    ensures
        chunked(text, size) == seq![trim(join(lines_of(text), seq!['\n']))],
{
    let lines = lines_of(text);
    assert(lines.take(1) =~= seq![lines.first()]);
    assert(lines.skip(0) =~= lines);
    assert(lines.drop_first() =~= lines.skip(1));
    lemma_pack_fitting(lines, 1, lines.first(), size);
}

/// `count` line breaks.
pub open spec fn line_breaks(count: nat) -> Seq<char> {
    Seq::new(count, |i: int| '\n')
}

/// The places in `lines` at which the chunks end, where the lines before
/// place `at` are dealt with and `current` holds the text gathered so far.
pub open spec fn chunk_ends(lines: Seq<Seq<char>>, at: int, current: Seq<char>, size: nat) -> Seq<
    int,
>
    decreases lines.len() - at,
{
    if at < 0 || at >= lines.len() {
        if current.len() > 0 {
            seq![lines.len() as int]
        } else {
            Seq::empty()
        }
    } else {
        let line = lines[at];
        if current.len() > 0 && current.len() + line.len() + 1 > size {
            seq![at] + chunk_ends(lines, at + 1, line, size)
        } else if current.len() > 0 {
            chunk_ends(lines, at + 1, current + seq!['\n'] + line, size)
        } else {
            chunk_ends(lines, at + 1, line, size)
        }
    }
}

/// Whether the chunk at place `i` of `chunks` is the run of lines that ends
/// at the place `ends[i]` and begins where the chunk before it ends, or at
/// `from` for the first chunk: the lines of the run with a line break
/// between neighbours, trimmed.
pub open spec fn is_run_of_lines(
    lines: Seq<Seq<char>>,
    from: int,
    ends: Seq<int>,
    chunks: Seq<Seq<char>>,
    i: int,
) -> bool {
    let start = if i == 0 {
        from
    } else {
        ends[i - 1]
    };
    &&& ends.len() == chunks.len()
    &&& 0 <= start < ends[i] <= lines.len()
    &&& chunks[i] == trim(join(lines.subrange(start, ends[i]), seq!['\n']))
}

proof fn lemma_trim_start_line_breaks(count: nat, s: Seq<char>)
    ensures
        trim_start(line_breaks(count) + s) == trim_start(s),
    decreases count,
{
    if count == 0 {
        assert(line_breaks(0) + s =~= s);
    } else {
        let all = line_breaks(count) + s;
        assert(all.first() == '\n');
        assert(all.drop_first() =~= line_breaks((count - 1) as nat) + s);
        lemma_trim_start_line_breaks((count - 1) as nat, s);
    }
}

proof fn lemma_join_one_more(lines: Seq<Seq<char>>, from: int, at: int)
    requires
        0 <= from <= at < lines.len(),
    ensures
        join(lines.subrange(from, at + 1), seq!['\n']) == if at == from {
            lines[at]
        } else {
            join(lines.subrange(from, at), seq!['\n']) + seq!['\n'] + lines[at]
        },
{
    let longer = lines.subrange(from, at + 1);
    assert(longer.last() == lines[at]);
    assert(longer.drop_last() =~= lines.subrange(from, at));
    if at == from {
        assert(longer[0] == lines[at]);
    }
}

proof fn lemma_runs(
    lines: Seq<Seq<char>>,
    from: int,
    at: int,
    current: Seq<char>,
    breaks: nat,
    size: nat,
    i: int,
)
    requires
        0 <= from <= at <= lines.len(),
        at == from ==> current.len() == 0,
        at > from ==> join(lines.subrange(from, at), seq!['\n']) == line_breaks(breaks) + current,
        0 <= i < pack(lines.skip(at), current, size).len(),
    ensures
        is_run_of_lines(
            lines,
            from,
            chunk_ends(lines, at, current, size),
            pack(lines.skip(at), current, size),
            i,
        ),
    decreases lines.len() - at,
{
    let rest = lines.skip(at);
    lemma_pack_len(lines, at, current, size);
    if at == lines.len() {
        lemma_trim_start_line_breaks(breaks, current);
    } else {
        let line = lines[at];
        assert(rest.first() == line);
        assert(rest.drop_first() =~= lines.skip(at + 1));
        lemma_join_one_more(lines, from, at);
        if current.len() > 0 && current.len() + line.len() + 1 > size {
            let later = chunk_ends(lines, at + 1, line, size);
            let ends = seq![at] + later;
            let chunks = seq![trim(current)] + pack(lines.skip(at + 1), line, size);
            if i == 0 {
                lemma_trim_start_line_breaks(breaks, current);
            } else {
                lemma_join_one_more(lines, at, at);
                assert(line_breaks(0) + line =~= line);
                lemma_runs(lines, at, at + 1, line, 0, size, i - 1);
                assert(ends[i] == later[i - 1]);
                assert(chunks[i] == pack(lines.skip(at + 1), line, size)[i - 1]);
                if i > 1 {
                    assert(ends[i - 1] == later[i - 2]);
                }
            }
        } else if current.len() > 0 {
            assert(line_breaks(breaks) + current + seq!['\n'] + line =~= line_breaks(breaks) + (
            current + seq!['\n'] + line));
            lemma_runs(lines, from, at + 1, current + seq!['\n'] + line, breaks, size, i);
        } else {
            if at == from {
                assert(line_breaks(0) + line =~= line);
                lemma_runs(lines, from, at + 1, line, 0, size, i);
            } else {
                assert(line_breaks(breaks) + current + seq!['\n'] + line =~= line_breaks(
                    breaks + 1,
                ) + line);
                lemma_runs(lines, from, at + 1, line, breaks + 1, size, i);
            }
        }
    }
}

proof fn lemma_pack_len(lines: Seq<Seq<char>>, at: int, current: Seq<char>, size: nat)
    requires
        0 <= at <= lines.len(),
    ensures
        chunk_ends(lines, at, current, size).len() == pack(lines.skip(at), current, size).len(),
    decreases lines.len() - at,
{
    let rest = lines.skip(at);
    if at < lines.len() {
        let line = lines[at];
        assert(rest.first() == line);
        assert(rest.drop_first() =~= lines.skip(at + 1));
        if current.len() > 0 && current.len() + line.len() + 1 > size {
            lemma_pack_len(lines, at + 1, line, size);
        } else if current.len() > 0 {
            lemma_pack_len(lines, at + 1, current + seq!['\n'] + line, size);
        } else {
            lemma_pack_len(lines, at + 1, line, size);
        }
    }
}

/// Every chunk is a run of neighbouring lines of the text, with a line
/// break between neighbours, trimmed; and each run begins where the run
/// before it ends, the first at the first line.
pub proof fn lemma_chunks_are_runs_of_lines(text: Seq<char>, size: nat, i: int)
    requires
        0 <= i < chunked(text, size).len(),
    ensures
        is_run_of_lines(
            lines_of(text),
            0,
            chunk_ends(lines_of(text), 0, Seq::empty(), size),
            chunked(text, size),
            i,
        ),
{
    let lines = lines_of(text);
    assert(lines.skip(0) =~= lines);
    lemma_runs(lines, 0, 0, Seq::empty(), 0, size, i);
}

proof fn lemma_leftover(lines: Seq<Seq<char>>, at: int, current: Seq<char>, size: nat)
    requires
        0 <= at <= lines.len(),
    ensures
        ({
            let ends = chunk_ends(lines, at, current, size);
            &&& ends.len() == 0 ==> current.len() == 0 && forall|j: int|
                at <= j < lines.len() ==> (#[trigger] lines[j]).len() == 0
            &&& ends.len() > 0 ==> at <= ends.last() <= lines.len() && forall|j: int|
                ends.last() <= j < lines.len() ==> (#[trigger] lines[j]).len() == 0
        }),
    decreases lines.len() - at,
{
    if at < lines.len() {
        let line = lines[at];
        if current.len() > 0 && current.len() + line.len() + 1 > size {
            lemma_leftover(lines, at + 1, line, size);
            let later = chunk_ends(lines, at + 1, line, size);
            let ends = seq![at] + later;
            if later.len() > 0 {
                assert(ends.last() == later.last());
            } else {
                assert(ends.last() == at);
            }
        } else if current.len() > 0 {
            lemma_leftover(lines, at + 1, current + seq!['\n'] + line, size);
        } else {
            lemma_leftover(lines, at + 1, line, size);
        }
    }
}

/// The lines behind the last chunk hold nothing: the runs of lines that
/// make the chunks leave out empty lines at the end of the text, and
/// nothing else. A text without a chunk has empty lines only.
pub proof fn lemma_lines_behind_the_chunks_are_empty(text: Seq<char>, size: nat, j: int)
    requires
        0 <= j < lines_of(text).len(),
        ({
            let ends = chunk_ends(lines_of(text), 0, Seq::empty(), size);
            ends.len() > 0 ==> ends.last() <= j
        }),
    ensures
        lines_of(text)[j].len() == 0,
{
    lemma_leftover(lines_of(text), 0, Seq::empty(), size);
}

proof fn lemma_trim_start_len(s: Seq<char>)
    ensures
        trim_start(s).len() <= s.len(),
    decreases s.len(),
{
    if s.len() > 0 && is_whitespace(s.first()) {
        lemma_trim_start_len(s.drop_first());
    }
}

proof fn lemma_trim_end_len(s: Seq<char>)
    ensures
        trim_end(s).len() <= s.len(),
    decreases s.len(),
{
    if s.len() > 0 && is_whitespace(s.last()) {
        lemma_trim_end_len(s.drop_last());
    }
}

/// Trimming never makes a text longer.
pub proof fn lemma_trim_len(s: Seq<char>)
    ensures
        trim(s).len() <= s.len(),
{
    lemma_trim_start_len(s);
    lemma_trim_end_len(trim_start(s));
}

/// Whether `chunk` is within `size`, or else is one of `lines` trimmed.
pub open spec fn within_or_single(chunk: Seq<char>, size: nat, lines: Seq<Seq<char>>) -> bool {
    chunk.len() <= size || exists|j: int| 0 <= j < lines.len() && chunk == trim(#[trigger] lines[j])
}

proof fn lemma_pack_bound(
    lines: Seq<Seq<char>>,
    current: Seq<char>,
    size: nat,
    all: Seq<Seq<char>>,
    from: int,
    i: int,
)
    requires
        0 <= from <= all.len(),
        lines == all.skip(from),
        current.len() <= size || (from > 0 && current == all[from - 1]),
        0 <= i < pack(lines, current, size).len(),
    ensures
        within_or_single(pack(lines, current, size)[i], size, all),
    decreases lines.len(),
{
    lemma_trim_len(current);
    if lines.len() == 0 {
        if current.len() > size {
            assert(trim(current) == trim(all[from - 1]));
        }
    } else {
        let line = lines.first();
        let rest = lines.drop_first();
        assert(rest =~= all.skip(from + 1));
        assert(line == all[from]);
        if current.len() > 0 && current.len() + line.len() + 1 > size {
            if i == 0 {
                if current.len() > size {
                    assert(trim(current) == trim(all[from - 1]));
                }
            } else {
                lemma_pack_bound(rest, line, size, all, from + 1, i - 1);
            }
        } else if current.len() > 0 {
            lemma_pack_bound(rest, current + seq!['\n'] + line, size, all, from + 1, i);
        } else {
            lemma_pack_bound(rest, line, size, all, from + 1, i);
        }
    }
}

/// A chunk is longer than the chunk size only where a single line is: every
/// chunk either keeps within the size or is one line of the text, trimmed.
pub proof fn lemma_chunk_size(text: Seq<char>, size: nat, i: int)
    requires
        0 <= i < chunked(text, size).len(),
    ensures
        within_or_single(chunked(text, size)[i], size, lines_of(text)),
{
    let lines = lines_of(text);
    assert(lines.skip(0) =~= lines);
    lemma_pack_bound(lines, Seq::empty(), size, lines, 0, i);
}

/// The views of a sequence of character vectors.
pub open spec fn rows(lines: Seq<Vec<char>>) -> Seq<Seq<char>> {
    lines.map_values(|l: Vec<char>| l@)
}

fn split_lines(text: &Vec<char>) -> (lines: Vec<Vec<char>>)
    ensures
        rows(lines@) == lines_of(text@),
{
    let mut lines: Vec<Vec<char>> = Vec::new();
    let mut current: Vec<char> = Vec::new();
    let mut i: usize = 0;
    assert(text@.skip(0) == text@);
    assert(rows(lines@) =~= Seq::<Seq<char>>::empty());
    while i < text.len()
        invariant
            i <= text.len(),
            lines_of(text@) == rows(lines@) + lines_from(text@.skip(i as int), current@),
        decreases text.len() - i,
    {
        let c = text[i];
        let ghost rest = text@.skip(i as int);
        let ghost done = rows(lines@);
        assert(rest.first() == c);
        assert(rest.drop_first() == text@.skip(i + 1));
        if c == '\n' {
            let ghost line = current@;
            let n = current.len();
            if n > 0 && current[n - 1] == '\r' {
                current.pop();
            }
            let ghost stripped = current@;
            assert(stripped == without_carriage_return(line));
            lines.push(current);
            current = Vec::new();
            assert(rows(lines@) =~= done.push(stripped));
            assert(done + (seq![stripped] + lines_from(text@.skip(i + 1), Seq::empty()))
                =~= done.push(stripped) + lines_from(text@.skip(i + 1), Seq::empty()));
        } else {
            current.push(c);
        }
        i += 1;
    }
    let ghost done = rows(lines@);
    assert(text@.skip(i as int).len() == 0);
    if current.len() > 0 {
        let ghost last = current@;
        lines.push(current);
        assert(rows(lines@) =~= done + seq![last]);
    } else {
        assert(done + Seq::<Seq<char>>::empty() =~= done);
    }
    lines
}

/// The text of `v` without the white space at its two ends.
fn trimmed_string(v: &Vec<char>) -> (s: String)
    ensures
        s@ == trim(v@),
{
    let n = v.len();
    let mut start: usize = 0;
    assert(v@.skip(0) == v@);
    while start < n && char_is_whitespace(v[start])
        invariant
            start <= n == v.len(),
            trim_start(v@) == trim_start(v@.skip(start as int)),
        decreases n - start,
    {
        assert(v@.skip(start as int).drop_first() == v@.skip(start + 1));
        start += 1;
    }
    assert(trim_start(v@) == v@.skip(start as int));
    let mut end: usize = n;
    assert(v@.skip(start as int) == v@.subrange(start as int, end as int));
    while end > start && char_is_whitespace(v[end - 1])
        invariant
            start <= end <= n == v.len(),
            trim(v@) == trim_end(v@.subrange(start as int, end as int)),
        decreases end,
    {
        assert(v@.subrange(start as int, end as int).drop_last() == v@.subrange(
            start as int,
            end - 1,
        ));
        end -= 1;
    }
    string_of_range(v, start, end)
}

/// Splits `text` into chunks of at most `chunk_size` characters, line by
/// line. A line longer than that becomes a chunk of its own.
pub fn chunk_text(text: &str, chunk_size: usize) -> (chunks: Vec<String>)
    ensures
        texts(chunks@) == chunked(text@, chunk_size as nat),
{
    let chars = chars_of(text);
    let lines = split_lines(&chars);
    let mut chunks: Vec<String> = Vec::new();
    let mut current: Vec<char> = Vec::new();
    let mut i: usize = 0;
    assert(rows(lines@).skip(0) == rows(lines@));
    assert(texts(chunks@) =~= Seq::<Seq<char>>::empty());
    while i < lines.len()
        invariant
            i <= lines.len(),
            rows(lines@) == lines_of(text@),
            chunked(text@, chunk_size as nat) == texts(chunks@) + pack(
                rows(lines@).skip(i as int),
                current@,
                chunk_size as nat,
            ),
        decreases lines.len() - i,
    {
        let line = &lines[i];
        let ghost rest = rows(lines@).skip(i as int);
        let ghost done = texts(chunks@);
        let ghost gathered = current@;
        assert(rest.first() == line@);
        assert(rest.drop_first() == rows(lines@).skip(i + 1));
        let full = current.len() > 0 && (line.len() >= chunk_size || current.len() >= chunk_size
            - line.len());
        assert(full == (gathered.len() > 0 && gathered.len() + line@.len() + 1 > chunk_size));
        if full {
            let chunk = trimmed_string(&current);
            chunks.push(chunk);
            current = Vec::new();
            assert(texts(chunks@) =~= done.push(trim(gathered)));
            assert(done + (seq![trim(gathered)] + pack(
                rest.drop_first(),
                line@,
                chunk_size as nat,
            )) =~= done.push(trim(gathered)) + pack(rest.drop_first(), line@, chunk_size as nat));
        }
        if current.len() > 0 {
            current.push('\n');
        }
        let ghost before = current@;
        let mut j: usize = 0;
        while j < line.len()
            invariant
                j <= line.len(),
                current@ == before + line@.take(j as int),
            decreases line.len() - j,
        {
            current.push(line[j]);
            assert(line@.take(j + 1) == line@.take(j as int).push(line@[j as int]));
            j += 1;
        }
        assert(line@.take(line.len() as int) == line@);
        assert(full ==> current@ =~= line@);
        assert(!full && gathered.len() > 0 ==> current@ =~= gathered + seq!['\n'] + line@);
        assert(!full && gathered.len() == 0 ==> current@ =~= line@);
        i += 1;
    }
    assert(rows(lines@).skip(i as int).len() == 0);
    if current.len() > 0 {
        let ghost done = texts(chunks@);
        let ghost gathered = current@;
        let chunk = trimmed_string(&current);
        chunks.push(chunk);
        assert(texts(chunks@) =~= done + seq![trim(gathered)]);
    } else {
        assert(texts(chunks@) + Seq::<Seq<char>>::empty() =~= texts(chunks@));
    }
    chunks
}

} // verus!
