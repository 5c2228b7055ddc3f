//! The bytes that one included file contributes to the document.
use vstd::prelude::*;
use vstd::slice::slice_subrange;
use crate::sniff::{is_utf8, utf8_valid};

verus! {

/// Line feed.
pub const LF: u8 = 10;

/// Carriage return.
pub const CR: u8 = 13;

/// The separator written before a file's contents: a blank line, then
/// `----- <path> -----`, then a blank line.
pub open spec fn header_spec(path: Seq<u8>) -> Seq<u8> {
    seq![10u8, 10, 45, 45, 45, 45, 45, 32] + path + seq![32u8, 45, 45, 45, 45, 45, 10, 10]
}

/// A line as the text copy emits it: without its line feed, and without a
/// carriage return just before that line feed. `start..end` is the line's
/// extent without its line feed; `terminated` tells whether a line feed
/// follows.
pub open spec fn line_text(s: Seq<u8>, start: int, end: int, terminated: bool) -> Seq<u8> {
    let raw = s.subrange(start, end);
    if terminated && raw.len() > 0 && raw.last() == CR {
        raw.drop_last()
    } else {
        raw
    }
}

/// The lines of `s` from position `i` on, where the current line began at
/// `start`. Lines end at a line feed; a last line without one counts too,
/// but nothing after a final line feed does.
pub open spec fn lines_from(s: Seq<u8>, start: int, i: int) -> Seq<Seq<u8>>
    decreases s.len() - i,
{
    if i >= s.len() {
        if start >= s.len() {
            Seq::empty()
        } else {
            seq![line_text(s, start, s.len() as int, false)]
        }
    } else if s[i] == LF {
        seq![line_text(s, start, i, true)] + lines_from(s, i + 1, i + 1)
    } else {
        lines_from(s, start, i + 1)
    }
}

/// The lines of a file, as the text copy reads them.
pub open spec fn lines_of(s: Seq<u8>) -> Seq<Seq<u8>> {
    lines_from(s, 0, 0)
}

/// Each line followed by a line feed, up to the first line that is not
/// well-formed UTF-8; the flag tells whether every line was.
pub open spec fn emit_lines(lines: Seq<Seq<u8>>) -> (Seq<u8>, bool)
    decreases lines.len(),
{
    if lines.len() == 0 {
        (Seq::empty(), true)
    } else if !utf8_valid(lines[0]) {
        (Seq::empty(), false)
    } else {
        let rest = emit_lines(lines.drop_first());
        (lines[0].push(LF) + rest.0, rest.1)
    }
}

/// The text copy of a whole file: what is emitted, and whether every line
/// was well-formed UTF-8.
pub open spec fn text_copy(s: Seq<u8>) -> (Seq<u8>, bool) {
    emit_lines(lines_of(s))
}

/// The byte views of a list of lines.
pub open spec fn line_views(lines: Seq<Vec<u8>>) -> Seq<Seq<u8>> {
    lines.map_values(|l: Vec<u8>| l@)
}

/// Appends the bytes of `src` to `out`.
pub fn append_bytes(out: &mut Vec<u8>, src: &[u8])
    ensures
        final(out)@ == old(out)@ + src@,
{
    let ghost start = out@;
    let mut i: usize = 0;
    while i < src.len()
        invariant
            0 <= i <= src@.len(),
            out@ == start + src@.take(i as int),
        decreases src@.len() - i,
    {
        out.push(src[i]);
        i = i + 1;
        assert(src@.take(i as int) =~= src@.take(i - 1) + seq![src@[i - 1]]);
        assert(out@ =~= start + src@.take(i as int));
    }
    assert(src@.take(i as int) =~= src@);
}

/// The separator header for a file shown as `path`.
pub fn header(path: &[u8]) -> (r: Vec<u8>)
    ensures
        r@ == header_spec(path@),
{
    let mut r: Vec<u8> = Vec::new();
    r.push(LF);
    r.push(LF);
    r.push(45);
    r.push(45);
    r.push(45);
    r.push(45);
    r.push(45);
    r.push(32);
    append_bytes(&mut r, path);
    r.push(32);
    r.push(45);
    r.push(45);
    r.push(45);
    r.push(45);
    r.push(45);
    r.push(LF);
    r.push(LF);
    assert(r@ =~= header_spec(path@));
    r
}

/// Splits a file into its lines.
pub fn split_lines(content: &[u8]) -> (r: Vec<Vec<u8>>)
    ensures
        line_views(r@) == lines_of(content@),
{
    let ghost s = content@;
    let mut out: Vec<Vec<u8>> = Vec::new();
    let mut start: usize = 0;
    let mut i: usize = 0;
    while i < content.len()
        invariant
            s == content@,
            0 <= start <= i <= s.len(),
            lines_of(s) == line_views(out@) + lines_from(s, start as int, i as int),
        decreases s.len() - i,
    {
        if content[i] == LF {
            let mut end = i;
            if end > start && content[end - 1] == CR {
                end = end - 1;
            }
            let mut line: Vec<u8> = Vec::new();
            append_bytes(&mut line, slice_subrange(content, start, end));
            assert(line@ =~= line_text(s, start as int, i as int, true));
            let ghost before = line_views(out@);
            out.push(line);
            assert(line_views(out@) =~= before.push(line@));
            i = i + 1;
            start = i;
        } else {
            i = i + 1;
        }
    }
    if start < content.len() {
        let mut line: Vec<u8> = Vec::new();
        append_bytes(&mut line, slice_subrange(content, start, content.len()));
        assert(line@ =~= line_text(s, start as int, s.len() as int, false));
        let ghost before = line_views(out@);
        out.push(line);
        assert(line_views(out@) =~= before.push(line@));
    }
    assert(line_views(out@) =~= lines_of(s));
    out
}

/// Re-emits a file's text line by line, each line followed by a line feed.
/// `Err` carries what was emitted before the first line that is not
/// well-formed UTF-8.
pub fn text_body(content: &[u8]) -> (r: Result<Vec<u8>, Vec<u8>>)
    ensures
        match r {
            Ok(v) => text_copy(content@) == (v@, true),
            Err(v) => text_copy(content@) == (v@, false),
        },
{
    let lines = split_lines(content);
    let ghost ls = line_views(lines@);
    let mut out: Vec<u8> = Vec::new();
    let mut i: usize = 0;
    assert(ls.skip(0) =~= ls);
    assert(out@ + text_copy(content@).0 =~= text_copy(content@).0);
    while i < lines.len()
        invariant
            ls == line_views(lines@),
            ls == lines_of(content@),
            0 <= i <= lines@.len(),
            text_copy(content@) == (out@ + emit_lines(ls.skip(i as int)).0, emit_lines(
                ls.skip(i as int),
            ).1),
        decreases lines@.len() - i,
    {
        let line = lines[i].as_slice();
        assert(ls.skip(i as int)[0] == line@);
        assert(ls.skip(i as int).drop_first() =~= ls.skip(i + 1));
        if !is_utf8(line) {
            return Err(out);
        }
        let ghost before = out@;
        let ghost rest = emit_lines(ls.skip(i + 1));
        append_bytes(&mut out, line);
        out.push(LF);
        assert(before + (line@.push(LF) + rest.0) =~= out@ + rest.0);
        i = i + 1;
    }
    assert(ls.skip(i as int) =~= Seq::<Seq<u8>>::empty());
    assert(out@ + Seq::<u8>::empty() =~= out@);
    Ok(out)
}

} // verus!
