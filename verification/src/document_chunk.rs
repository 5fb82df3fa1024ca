//! Splitting a document into chunks for the vector index: sections by
//! Markdown headings, then paragraphs gathered up to a size, with an
//! overlap carried from one chunk into the next.
use vstd::prelude::*;

use crate::config::AppConfig;
use crate::model::DocumentChunk;
use crate::rectifier::lines_inclusive;
use crate::text::{
    all_ws, append_chars, append_str, chars_of, find_from, find_idx, is_blank, is_blank_str, is_ws,
    lemma_blank_iff_all_ws, lemma_find_idx_bounds, lemma_find_idx_shift, lemma_trim_idempotent,
    slice_chars, string_of, trim, trim_chars, trim_str,
};

verus! {

/// The length in bytes of the UTF-8 encoding of `s`, as `str::len` gives
/// it, held in 64 bits.
pub open spec fn bytes(s: Seq<char>) -> u64 {
    (vstd::utf8::encode_utf8(s).len() as usize) as u64
}

fn byte_len(s: &str) -> (r: u64)
    ensures
        r == bytes(s@),
{
    s.len() as u64
}

/// `a + b`, wrapping at 2^64, as a byte counter does.
pub open spec fn wadd(a: u64, b: u64) -> u64 {
    if a + b > u64::MAX {
        (a + b - 0x1_0000_0000_0000_0000) as u64
    } else {
        (a + b) as u64
    }
}

/// `a - b`, wrapping at 2^64.
pub open spec fn wsub(a: u64, b: u64) -> u64 {
    if a - b < 0 {
        (a - b + 0x1_0000_0000_0000_0000) as u64
    } else {
        (a - b) as u64
    }
}

/// `a + b`, wrapping in the range of `i32`, as a chunk counter does.
pub open spec fn wadd_i32(a: i32, b: i32) -> i32 {
    if a + b > i32::MAX {
        (a + b - 0x1_0000_0000) as i32
    } else if a + b < i32::MIN {
        (a + b + 0x1_0000_0000) as i32
    } else {
        (a + b) as i32
    }
}

/// `line` without the line feeds and carriage returns that end it.
pub open spec fn strip_line_end(line: Seq<char>) -> Seq<char>
    decreases line.len(),
{
    if line.len() > 0 && (line.last() == '\n' || line.last() == '\r') {
        strip_line_end(line.drop_last())
    } else {
        line
    }
}

/// How many `#` begin `s`.
pub open spec fn leading_hashes(s: Seq<char>) -> nat
    decreases s.len(),
{
    if s.len() > 0 && s[0] == '#' {
        1 + leading_hashes(s.drop_first())
    } else {
        0
    }
}

proof fn lemma_leading_hashes(s: Seq<char>)
    ensures
        leading_hashes(s) <= s.len(),
        forall|i: int| 0 <= i < leading_hashes(s) ==> s[i] == '#',
        leading_hashes(s) < s.len() ==> s[leading_hashes(s) as int] != '#',
    decreases s.len(),
{
    if s.len() > 0 && s[0] == '#' {
        lemma_leading_hashes(s.drop_first());
        assert forall|i: int| 0 <= i < leading_hashes(s) implies s[i] == '#' by {
            if i > 0 {
                assert(s[i] == s.drop_first()[i - 1]);
            }
        }
    }
}

/// The title of a Markdown heading line: one to six `#`, a space, then the
/// title, trimmed.
pub open spec fn heading_title(line: Seq<char>) -> Option<Seq<char>> {
    let h = leading_hashes(line);
    if 1 <= h <= 6 && h < line.len() && line[h as int] == ' ' {
        Some(trim(line.skip(h + 1int)))
    } else {
        None
    }
}

/// The title of a Markdown heading line (see `heading_title`).
pub fn markdown_heading_title(line: &str) -> (r: Option<String>)
    ensures
        match r {
            Some(t) => heading_title(line@) == Some(t@),
            None => heading_title(line@) is None,
        },
{
    let v = chars_of(line);
    let mut h: usize = 0;
    while h < v.len() && v[h] == '#'
        invariant
            h <= v.len(),
            v@ == line@,
            forall|i: int| 0 <= i < h ==> v@[i] == '#',
        decreases v.len() - h,
    {
        h = h + 1;
    }
    proof {
        lemma_leading_hashes(line@);
        let lh = leading_hashes(line@);
        if lh < h {
            assert(v@[lh as int] == '#');
        }
        if h < lh {
            assert(v@[h as int] == '#');
        }
        assert(h == lh);
    }
    if 1 <= h && h <= 6 && h < v.len() && v[h] == ' ' {
        let rest = slice_chars(&v, h + 1, v.len());
        assert(rest@ =~= line@.skip(h + 1));
        Some(string_of(&trim_chars(&rest)))
    } else {
        None
    }
}

/// A section of a document: the heading it falls under, its text, and the
/// byte offset where it begins.
pub struct Section {
    pub title: String,
    pub content: String,
    pub start_index: u64,
}

pub open spec fn section_view(s: Section) -> (Seq<char>, Seq<char>, u64) {
    (s.title@, s.content@, s.start_index)
}

pub open spec fn section_views(s: Seq<Section>) -> Seq<(Seq<char>, Seq<char>, u64)> {
    s.map_values(|x: Section| section_view(x))
}

/// What splitting by headings has gathered: the finished sections, the
/// current title, where the current section begins, its text so far, and
/// the byte offset reached.
pub type HeadingState = (Seq<(Seq<char>, Seq<char>, u64)>, Seq<char>, u64, Seq<char>, u64);

/// One line read: a heading closes the current section, if it holds text,
/// and opens one under its title; every line joins the current section.
pub open spec fn heading_step(s: HeadingState, line: Seq<char>) -> HeadingState {
    match heading_title(strip_line_end(line)) {
        Some(t) => {
            let sections = if !is_blank(s.3) {
                s.0.push((s.1, trim(s.3), s.2))
            } else {
                s.0
            };
            (sections, t, s.4, line, wadd(s.4, bytes(line)))
        },
        None => (s.0, s.1, s.2, s.3 + line, wadd(s.4, bytes(line))),
    }
}

pub open spec fn heading_fold(lines: Seq<Seq<char>>) -> HeadingState
    decreases lines.len(),
{
    if lines.len() == 0 {
        (seq![], seq![], 0, seq![], 0)
    } else {
        heading_step(heading_fold(lines.drop_last()), lines.last())
    }
}

/// The sections of a document: split at its Markdown headings, each
/// trimmed, the blank ones left out; the whole document where none is left.
pub open spec fn sections_spec(content: Seq<char>) -> Seq<(Seq<char>, Seq<char>, u64)> {
    let s = heading_fold(lines_inclusive(content));
    let sections = if !is_blank(s.3) {
        s.0.push((s.1, trim(s.3), s.2))
    } else {
        s.0
    };
    if sections.len() == 0 {
        seq![(seq![], content, 0)]
    } else {
        sections
    }
}

fn strip_line_end_exec(line: &Vec<char>) -> (r: Vec<char>)
    ensures
        r@ == strip_line_end(line@),
{
    let mut n = line.len();
    assert(line@.take(n as int) =~= line@);
    while n > 0 && (line[n - 1] == '\n' || line[n - 1] == '\r')
        invariant
            n <= line.len(),
            strip_line_end(line@) == strip_line_end(line@.take(n as int)),
        decreases n,
    {
        assert(line@.take(n as int).drop_last() =~= line@.take(n - 1));
        n = n - 1;
    }
    let r = slice_chars(line, 0, n);
    assert(r@ =~= line@.take(n as int));
    r
}

/// The sections of a document (see `sections_spec`).
pub fn split_by_headings(content: &str) -> (r: Vec<Section>)
    ensures
        section_views(r@) == sections_spec(content@),
{
    let v = chars_of(content);
    let nl = vec!['\n'];
    assert(nl@ =~= seq!['\n']);
    let mut sections: Vec<Section> = Vec::new();
    let mut current_title = String::new();
    let mut current_start: u64 = 0;
    let mut current: Vec<char> = Vec::new();
    let mut byte_offset: u64 = 0;
    let ghost mut done: Seq<Seq<char>> = seq![];
    let mut pos: usize = 0;
    assert(v@.skip(0) =~= v@);
    while pos < v.len()
        invariant
            pos <= v.len(),
            v@ == content@,
            nl@ == seq!['\n'],
            done + lines_inclusive(v@.skip(pos as int)) == lines_inclusive(v@),
            heading_fold(done) == (
                section_views(sections@),
                current_title@,
                current_start,
                current@,
                byte_offset,
            ),
        decreases v.len() - pos,
    {
        let ghost rest = v@.skip(pos as int);
        let found = find_from(&v, &nl, pos);
        proof {
            lemma_find_idx_shift(v@, nl@, pos as int);
            lemma_find_idx_bounds(v@, nl@, pos as int);
        }
        let end: usize = match found {
            Some(i) => i + 1,
            None => v.len(),
        };
        let piece = slice_chars(&v, pos, end);
        proof {
            assert(piece@ =~= rest.take(end - pos));
            assert(rest.skip(end - pos) =~= v@.skip(end as int));
            if found is None {
                assert(rest.len() > 0);
                assert(lines_inclusive(rest) =~= seq![piece@]);
                assert(v@.skip(end as int).len() == 0);
                assert(lines_inclusive(v@.skip(end as int)) =~= Seq::<Seq<char>>::empty());
            }
            assert(lines_inclusive(rest) =~= seq![piece@] + lines_inclusive(v@.skip(end as int)));
        }
        let line = string_of(&piece);
        let trimmed = strip_line_end_exec(&piece);
        let trimmed_text = string_of(&trimmed);
        let ghost before = heading_fold(done);
        match markdown_heading_title(trimmed_text.as_str()) {
            Some(title) => {
                let current_text = string_of(&current);
                if !is_blank_str(current_text.as_str()) {
                    let ghost pre = section_views(sections@);
                    sections.push(
                        Section {
                            title: current_title,
                            content: trim_str(current_text.as_str()),
                            start_index: current_start,
                        },
                    );
                    assert(section_views(sections@) =~= pre.push(
                        (before.1, trim(before.3), before.2),
                    ));
                }
                current_title = title;
                current_start = byte_offset;
                current = piece;
            },
            None => {
                crate::text::append_chars(&mut current, &piece);
            },
        }
        byte_offset = byte_offset.wrapping_add(byte_len(line.as_str()));
        proof {
            let pre_done = done;
            done = done.push(piece@);
            assert(done.drop_last() =~= pre_done);
            assert(done + lines_inclusive(v@.skip(end as int)) =~= lines_inclusive(v@)) by {
                assert(done =~= pre_done.push(piece@));
            }
        }
        pos = end;
    }
    proof {
        assert(v@.skip(pos as int).len() == 0);
        assert(done =~= lines_inclusive(v@));
    }
    let current_text = string_of(&current);
    if !is_blank_str(current_text.as_str()) {
        let ghost pre = section_views(sections@);
        sections.push(
            Section {
                title: current_title,
                content: trim_str(current_text.as_str()),
                start_index: current_start,
            },
        );
        assert(section_views(sections@) =~= pre.push((current_title@, trim(current@), current_start)));
    }
    if sections.len() == 0 {
        sections.push(Section { title: String::new(), content: crate::text::to_string(content), start_index: 0 });
        assert(section_views(sections@) =~= seq![(Seq::<char>::empty(), content@, 0u64)]);
    }
    sections
}


// ---------------------------------------------------------------------------
// Paragraphs
// ---------------------------------------------------------------------------

pub open spec fn para_sep() -> Seq<char> {
    seq!['\n', '\n']
}

/// `s` split at every blank line (`str::split("\n\n")`).
pub open spec fn split_blank_lines(s: Seq<char>) -> Seq<Seq<char>>
    decreases s.len(),
{
    match find_idx(s, para_sep(), 0) {
        Some(i) => {
            proof {
                lemma_find_idx_bounds(s, para_sep(), 0);
            }
            seq![s.take(i)] + split_blank_lines(s.skip(i + 2))
        },
        None => seq![s],
    }
}

/// The pieces of `ps`, trimmed, without the empty ones.
pub open spec fn nonblank_trimmed(ps: Seq<Seq<char>>) -> Seq<Seq<char>>
    decreases ps.len(),
{
    if ps.len() == 0 {
        seq![]
    } else {
        let t = trim(ps.last());
        if t.len() == 0 {
            nonblank_trimmed(ps.drop_last())
        } else {
            nonblank_trimmed(ps.drop_last()).push(t)
        }
    }
}

/// The paragraphs of `s`: its pieces between blank lines, trimmed, without
/// the empty ones.
pub open spec fn paragraphs_spec(s: Seq<char>) -> Seq<Seq<char>> {
    nonblank_trimmed(split_blank_lines(s))
}

fn split_blank_lines_exec(v: &Vec<char>) -> (r: Vec<Vec<char>>)
    ensures
        crate::text::char_views(r@) == split_blank_lines(v@),
{
    let sep = vec!['\n', '\n'];
    assert(sep@ =~= para_sep());
    let mut out: Vec<Vec<char>> = Vec::new();
    let mut start: usize = 0;
    assert(v@.skip(0) =~= v@);
    loop
        invariant
            start <= v.len(),
            sep@ == para_sep(),
            crate::text::char_views(out@) + split_blank_lines(v@.skip(start as int))
                == split_blank_lines(v@),
        decreases v.len() - start,
    {
        let ghost rest = v@.skip(start as int);
        let found = find_from(v, &sep, start);
        proof {
            lemma_find_idx_shift(v@, sep@, start as int);
            lemma_find_idx_bounds(v@, sep@, start as int);
        }
        let ghost before = crate::text::char_views(out@);
        match found {
            Some(i) => {
                let piece = slice_chars(v, start, i);
                assert(piece@ =~= rest.take(i - start));
                assert(rest.skip(i - start + 2) =~= v@.skip(i + 2));
                out.push(piece);
                assert(crate::text::char_views(out@) =~= before.push(piece@));
                assert(before + split_blank_lines(rest) =~= crate::text::char_views(out@)
                    + split_blank_lines(v@.skip(i + 2)));
                start = i + 2;
            },
            None => {
                let piece = slice_chars(v, start, v.len());
                assert(piece@ =~= rest);
                out.push(piece);
                assert(crate::text::char_views(out@) =~= before.push(piece@));
                assert(crate::text::char_views(out@) =~= before + split_blank_lines(rest));
                return out;
            },
        }
    }
}

/// The paragraphs of a text (see `paragraphs_spec`).
pub fn split_by_paragraphs(content: &str) -> (r: Vec<String>)
    ensures
        crate::text::views(r@) == paragraphs_spec(content@),
{
    let v = chars_of(content);
    let pieces = split_blank_lines_exec(&v);
    let ghost ps = crate::text::char_views(pieces@);
    let mut out: Vec<String> = Vec::new();
    let mut i: usize = 0;
    while i < pieces.len()
        invariant
            i <= pieces.len(),
            ps == crate::text::char_views(pieces@),
            ps == split_blank_lines(content@),
            crate::text::views(out@) == nonblank_trimmed(ps.take(i as int)),
        decreases pieces.len() - i,
    {
        let t = trim_chars(&pieces[i]);
        assert(ps.take(i + 1).drop_last() =~= ps.take(i as int));
        assert(ps.take(i + 1).last() == pieces@[i as int]@);
        if t.len() > 0 {
            let ghost before = crate::text::views(out@);
            let s = string_of(&t);
            out.push(s);
            assert(crate::text::views(out@) =~= before.push(t@));
        }
        i = i + 1;
    }
    assert(ps.take(pieces.len() as int) =~= ps);
    out
}

// ---------------------------------------------------------------------------
// Overlap
// ---------------------------------------------------------------------------

pub open spec fn is_sentence_end(c: char) -> bool {
    c == '。' || c == '？' || c == '！'
}

/// The index of the last sentence end in `s`.
pub open spec fn last_sentence_end(s: Seq<char>) -> Option<int>
    decreases s.len(),
{
    if s.len() == 0 {
        None
    } else if is_sentence_end(s.last()) {
        Some(s.len() - 1)
    } else {
        last_sentence_end(s.drop_last())
    }
}

/// The byte length `str::len` gives `s`.
pub open spec fn usize_bytes(s: Seq<char>) -> int {
    (vstd::utf8::encode_utf8(s).len() as usize) as int
}

/// The text carried from a chunk into the next: its last `overlap`
/// characters, from after their last sentence end where that end lies in
/// their second half (by bytes), trimmed.
pub open spec fn overlap_spec(text: Seq<char>, overlap: nat) -> Seq<char> {
    let n = if overlap < text.len() {
        overlap
    } else {
        text.len()
    };
    if n == 0 {
        seq![]
    } else {
        let ov = text.skip(text.len() - n);
        match last_sentence_end(ov) {
            Some(j) => if usize_bytes(ov.take(j + 1)) > usize_bytes(ov) / 2 {
                trim(ov.skip(j + 1))
            } else {
                trim(ov)
            },
            None => trim(ov),
        }
    }
}

fn find_last_sentence_end(v: &Vec<char>) -> (r: Option<usize>)
    ensures
        match r {
            Some(j) => last_sentence_end(v@) == Some(j as int) && j < v@.len(),
            None => last_sentence_end(v@) is None,
        },
{
    let mut i: usize = v.len();
    assert(v@.take(i as int) =~= v@);
    while i > 0
        invariant
            i <= v.len(),
            last_sentence_end(v@) == last_sentence_end(v@.take(i as int)),
        decreases i,
    {
        assert(v@.take(i as int).drop_last() =~= v@.take(i - 1));
        let c = v[i - 1];
        if c == '。' || c == '？' || c == '！' {
            return Some(i - 1);
        }
        i = i - 1;
    }
    None
}

// ---------------------------------------------------------------------------
// Chunks
// ---------------------------------------------------------------------------

/// A chunk as the contracts read it: text, start and end byte offsets,
/// index and title.
pub type ChunkView = (Seq<char>, i32, i32, i32, Seq<char>);

pub open spec fn chunk_view(c: DocumentChunk) -> ChunkView {
    (c.content@, c.start_index, c.end_index, c.chunk_index, c.title@)
}

pub open spec fn chunk_views(s: Seq<DocumentChunk>) -> Seq<ChunkView> {
    s.map_values(|c: DocumentChunk| chunk_view(c))
}

/// What gathering paragraphs has built: the finished chunks, the text
/// gathered, where it begins, and the index of the next chunk.
pub type ChunkState = (Seq<ChunkView>, Seq<char>, u64, i32);

/// One paragraph read: where it would make the gathered text too long, the
/// gathered text, trimmed, closes a chunk and its overlap begins the next;
/// the paragraph then joins the gathered text, with a blank line.
pub open spec fn chunk_step(s: ChunkState, p: Seq<char>, title: Seq<char>, max: nat, overlap: nat) -> ChunkState {
    if s.1.len() > 0 && s.1.len() + p.len() > max {
        let cc = trim(s.1);
        let end = wadd(s.2, bytes(cc));
        let ov = overlap_spec(cc, overlap);
        (
            s.0.push((cc, s.2 as i32, end as i32, s.3, title)),
            ov + p + para_sep(),
            wsub(end, bytes(ov)),
            wadd_i32(s.3, 1),
        )
    } else {
        (s.0, s.1 + p + para_sep(), s.2, s.3)
    }
}

pub open spec fn chunk_fold(
    ps: Seq<Seq<char>>,
    init: ChunkState,
    title: Seq<char>,
    max: nat,
    overlap: nat,
) -> ChunkState
    decreases ps.len(),
{
    if ps.len() == 0 {
        init
    } else {
        chunk_step(chunk_fold(ps.drop_last(), init, title, max, overlap), ps.last(), title, max, overlap)
    }
}

/// The chunks of a section: the whole section where it is short enough;
/// else its paragraphs gathered into chunks, the last one closed at the end.
pub open spec fn section_chunks_spec(
    title: Seq<char>,
    content: Seq<char>,
    start: u64,
    first_index: i32,
    max: nat,
    overlap: nat,
) -> Seq<ChunkView> {
    if content.len() <= max {
        seq![(content, start as i32, wadd(start, bytes(content)) as i32, first_index, title)]
    } else {
        let s = chunk_fold(
            paragraphs_spec(content),
            (seq![], seq![], start, first_index),
            title,
            max,
            overlap,
        );
        if s.1.len() > 0 {
            let cc = trim(s.1);
            s.0.push((cc, s.2 as i32, wadd(s.2, bytes(cc)) as i32, s.3, title))
        } else {
            s.0
        }
    }
}

/// The chunks of a document so far, and the index of the next one.
pub open spec fn document_fold(
    sections: Seq<(Seq<char>, Seq<char>, u64)>,
    max: nat,
    overlap: nat,
) -> (Seq<ChunkView>, i32)
    decreases sections.len(),
{
    if sections.len() == 0 {
        (seq![], 0)
    } else {
        let before = document_fold(sections.drop_last(), max, overlap);
        let sec = sections.last();
        let cs = section_chunks_spec(sec.0, sec.1, sec.2, before.1, max, overlap);
        (before.0 + cs, wadd_i32(before.1, cs.len() as i32))
    }
}

/// The chunks of a document: none where it is blank; else the chunks of
/// each of its sections, numbered across the document.
pub open spec fn document_chunks_spec(content: Seq<char>, max: nat, overlap: nat) -> Seq<ChunkView> {
    if is_blank(content) {
        seq![]
    } else {
        document_fold(sections_spec(content), max, overlap).0
    }
}

/// Splits documents into chunks of at most `max_size` characters (unless a
/// paragraph alone is longer), carrying up to `overlap` characters over.
pub struct DocumentChunkService {
    pub max_size: usize,
    pub overlap: usize,
}

impl DocumentChunkService {
    /// A splitter with the chunk size and overlap of the configuration.
    pub fn new(config: &AppConfig) -> (r: DocumentChunkService)
        ensures
            r.max_size == config.document_chunk_max_size,
            r.overlap == config.document_chunk_overlap,
    {
        DocumentChunkService {
            max_size: config.document_chunk_max_size,
            overlap: config.document_chunk_overlap,
        }
    }

    /// The text carried from a chunk into the next (see `overlap_spec`).
    pub fn get_overlap_text(&self, text: &str) -> (r: String)
        ensures
            r@ == overlap_spec(text@, self.overlap as nat),
    {
        let chars = chars_of(text);
        let n = if self.overlap < chars.len() {
            self.overlap
        } else {
            chars.len()
        };
        if n == 0 {
            return String::new();
        }
        let ov = slice_chars(&chars, chars.len() - n, chars.len());
        assert(ov@ =~= text@.skip(text@.len() - n));
        let ov_text = string_of(&ov);
        match find_last_sentence_end(&ov) {
            Some(j) => {
                let head = slice_chars(&ov, 0, j + 1);
                assert(head@ =~= ov@.take(j + 1));
                let head_text = string_of(&head);
                if head_text.as_str().len() > ov_text.as_str().len() / 2 {
                    let tail = slice_chars(&ov, j + 1, ov.len());
                    assert(tail@ =~= ov@.skip(j + 1));
                    return string_of(&trim_chars(&tail));
                }
                string_of(&trim_chars(&ov))
            },
            None => string_of(&trim_chars(&ov)),
        }
    }

    /// The chunks of a section, numbered from `start_chunk_index` (see
    /// `section_chunks_spec`).
    pub fn chunk_section(&self, section: &Section, start_chunk_index: i32) -> (r: Vec<DocumentChunk>)
        ensures
            chunk_views(r@) == section_chunks_spec(
                section.title@,
                section.content@,
                section.start_index,
                start_chunk_index,
                self.max_size as nat,
                self.overlap as nat,
            ),
    {
        let content = section.content.as_str();
        let cv = chars_of(content);
        if cv.len() <= self.max_size {
            let mut r: Vec<DocumentChunk> = Vec::new();
            r.push(
                DocumentChunk {
                    content: crate::text::to_string(content),
                    start_index: section.start_index as i32,
                    end_index: section.start_index.wrapping_add(byte_len(content)) as i32,
                    chunk_index: start_chunk_index,
                    title: section.title.clone(),
                },
            );
            assert(chunk_views(r@) =~= seq![
                (
                    section.content@,
                    section.start_index as i32,
                    wadd(section.start_index, bytes(section.content@)) as i32,
                    start_chunk_index,
                    section.title@,
                ),
            ]);
            return r;
        }
        let paragraphs = split_by_paragraphs(content);
        let ghost ps = crate::text::views(paragraphs@);
        let ghost init: ChunkState = (seq![], seq![], section.start_index, start_chunk_index);
        let ghost title = section.title@;
        let ghost max = self.max_size as nat;
        let ghost ovl = self.overlap as nat;
        let mut chunks: Vec<DocumentChunk> = Vec::new();
        let mut current: Vec<char> = Vec::new();
        let mut cur_start: u64 = section.start_index;
        let mut idx: i32 = start_chunk_index;
        let mut i: usize = 0;
        assert(ps.take(0) =~= Seq::<Seq<char>>::empty());
        assert(chunk_views(chunks@) =~= Seq::<ChunkView>::empty());
        while i < paragraphs.len()
            invariant
                i <= paragraphs.len(),
                ps == crate::text::views(paragraphs@),
                title == section.title@,
                max == self.max_size as nat,
                ovl == self.overlap as nat,
                init == (Seq::<ChunkView>::empty(), Seq::<char>::empty(), section.start_index, start_chunk_index),
                chunk_fold(ps.take(i as int), init, title, max, ovl) == (
                    chunk_views(chunks@),
                    current@,
                    cur_start,
                    idx,
                ),
            decreases paragraphs.len() - i,
        {
            let p = chars_of(paragraphs[i].as_str());
            assert(ps.take(i + 1).drop_last() =~= ps.take(i as int));
            assert(ps.take(i + 1).last() == p@);
            if current.len() > 0 && (current.len() > self.max_size || p.len() > self.max_size
                - current.len()) {
                let cc = trim_chars(&current);
                let cc_text = string_of(&cc);
                let end = cur_start.wrapping_add(byte_len(cc_text.as_str()));
                let ov = self.get_overlap_text(cc_text.as_str());
                let ghost before = chunk_views(chunks@);
                chunks.push(
                    DocumentChunk {
                        content: cc_text,
                        start_index: cur_start as i32,
                        end_index: end as i32,
                        chunk_index: idx,
                        title: section.title.clone(),
                    },
                );
                assert(chunk_views(chunks@) =~= before.push(
                    (cc@, cur_start as i32, end as i32, idx, title),
                ));
                idx = idx.wrapping_add(1);
                cur_start = end.wrapping_sub(byte_len(ov.as_str()));
                current = chars_of(ov.as_str());
            }
            append_chars(&mut current, &p);
            current.push('\n');
            current.push('\n');
            assert(current@ =~= (if chunk_fold(ps.take(i as int), init, title, max, ovl).1.len() > 0
                && chunk_fold(ps.take(i as int), init, title, max, ovl).1.len() + p@.len() > max {
                overlap_spec(trim(chunk_fold(ps.take(i as int), init, title, max, ovl).1), ovl)
            } else {
                chunk_fold(ps.take(i as int), init, title, max, ovl).1
            }) + p@ + para_sep());
            i = i + 1;
        }
        assert(ps.take(paragraphs.len() as int) =~= ps);
        if current.len() > 0 {
            let cc = trim_chars(&current);
            let cc_text = string_of(&cc);
            let end = cur_start.wrapping_add(byte_len(cc_text.as_str()));
            let ghost before = chunk_views(chunks@);
            chunks.push(
                DocumentChunk {
                    content: cc_text,
                    start_index: cur_start as i32,
                    end_index: end as i32,
                    chunk_index: idx,
                    title: section.title.clone(),
                },
            );
            assert(chunk_views(chunks@) =~= before.push(
                (cc@, cur_start as i32, end as i32, idx, title),
            ));
        }
        chunks
    }

    /// The chunks of a document (see `document_chunks_spec`). Where the
    /// chunk comes from is not part of a chunk.
    pub fn chunk_document(&self, content: &str, _file_path: &str) -> (r: Vec<DocumentChunk>)
        ensures
            chunk_views(r@) == document_chunks_spec(
                content@,
                self.max_size as nat,
                self.overlap as nat,
            ),
    {
        if is_blank_str(content) {
            let r: Vec<DocumentChunk> = Vec::new();
            assert(chunk_views(r@) =~= Seq::<ChunkView>::empty());
            return r;
        }
        let sections = split_by_headings(content);
        let ghost secs = section_views(sections@);
        let mut chunks: Vec<DocumentChunk> = Vec::new();
        let mut global_chunk_index: i32 = 0;
        let mut i: usize = 0;
        assert(secs.take(0) =~= Seq::<(Seq<char>, Seq<char>, u64)>::empty());
        assert(chunk_views(chunks@) =~= Seq::<ChunkView>::empty());
        while i < sections.len()
            invariant
                i <= sections.len(),
                secs == section_views(sections@),
                document_fold(secs.take(i as int), self.max_size as nat, self.overlap as nat) == (
                    chunk_views(chunks@),
                    global_chunk_index,
                ),
            decreases sections.len() - i,
        {
            assert(secs.take(i + 1).drop_last() =~= secs.take(i as int));
            assert(secs.take(i + 1).last() == section_view(sections@[i as int]));
            let mut section_chunks = self.chunk_section(&sections[i], global_chunk_index);
            global_chunk_index = global_chunk_index.wrapping_add(section_chunks.len() as i32);
            let ghost before = chunk_views(chunks@);
            let ghost added = chunk_views(section_chunks@);
            chunks.append(&mut section_chunks);
            assert(chunk_views(chunks@) =~= before + added);
            i = i + 1;
        }
        assert(secs.take(sections.len() as int) =~= secs);
        chunks
    }
}

// ---------------------------------------------------------------------------
// How the chunks of a document are numbered
// ---------------------------------------------------------------------------

/// Gathering paragraphs numbers the chunks it closes on from the first
/// index, and the next index follows the last.
proof fn lemma_chunk_fold_numbering(
    ps: Seq<Seq<char>>,
    start: u64,
    first: i32,
    title: Seq<char>,
    max: nat,
    overlap: nat,
)
    requires
        first >= 0,
        first + chunk_fold(ps, (seq![], seq![], start, first), title, max, overlap).0.len()
            <= i32::MAX,
    ensures
        ({
            let s = chunk_fold(ps, (seq![], seq![], start, first), title, max, overlap);
            &&& s.3 == first + s.0.len()
            &&& forall|k: int| 0 <= k < s.0.len() ==> (#[trigger] s.0[k]).3 == first + k
            &&& ps.len() > 0 ==> s.1.len() > 0
        }),
    decreases ps.len(),
{
    if ps.len() > 0 {
        let init = (seq![], seq![], start, first);
        let prev = chunk_fold(ps.drop_last(), init, title, max, overlap);
        let s = chunk_fold(ps, init, title, max, overlap);
        assert(s == chunk_step(prev, ps.last(), title, max, overlap));
        assert(prev.0.len() <= s.0.len());
        lemma_chunk_fold_numbering(ps.drop_last(), start, first, title, max, overlap);
        if prev.1.len() > 0 && prev.1.len() + ps.last().len() > max {
            assert(s.0 == prev.0.push((trim(prev.1), prev.2 as i32, wadd(prev.2, bytes(trim(prev.1))) as i32, prev.3, title)));
            assert forall|k: int| 0 <= k < s.0.len() implies (#[trigger] s.0[k]).3 == first + k by {
                if k < prev.0.len() {
                    assert(s.0[k] == prev.0[k]);
                }
            }
        }
    }
}

/// The chunks of a section are numbered on from `first`; a section whose
/// text is not blank has at least one.
proof fn lemma_section_numbering(
    title: Seq<char>,
    content: Seq<char>,
    start: u64,
    first: i32,
    max: nat,
    overlap: nat,
)
    requires
        first >= 0,
        first + section_chunks_spec(title, content, start, first, max, overlap).len() <= i32::MAX,
    ensures
        ({
            let cs = section_chunks_spec(title, content, start, first, max, overlap);
            &&& forall|k: int| 0 <= k < cs.len() ==> (#[trigger] cs[k]).3 == first + k
            &&& !is_blank(content) ==> cs.len() > 0
        }),
{
    if content.len() > max {
        let ps = paragraphs_spec(content);
        let s = chunk_fold(ps, (seq![], seq![], start, first), title, max, overlap);
        let cs = section_chunks_spec(title, content, start, first, max, overlap);
        assert(s.0.len() <= cs.len());
        lemma_chunk_fold_numbering(ps, start, first, title, max, overlap);
        if !is_blank(content) {
            lemma_paragraphs_nonempty(content);
        }
        if s.1.len() > 0 {
            assert forall|k: int| 0 <= k < cs.len() implies (#[trigger] cs[k]).3 == first + k by {
                if k < s.0.len() {
                    assert(cs[k] == s.0[k]);
                }
            }
        }
    }
}

/// A text that is not blank has a piece between blank lines that is not
/// blank.
proof fn lemma_split_has_nonblank(s: Seq<char>)
    requires
        !is_blank(s),
    ensures
        exists|k: int| 0 <= k < split_blank_lines(s).len() && !is_blank(#[trigger] split_blank_lines(s)[k]),
    decreases s.len(),
{
    lemma_blank_iff_all_ws(s);
    match find_idx(s, para_sep(), 0) {
        Some(i) => {
            lemma_find_idx_bounds(s, para_sep(), 0);
            let head = s.take(i);
            let tail = s.skip(i + 2);
            let parts = split_blank_lines(s);
            assert(parts == seq![head] + split_blank_lines(tail));
            lemma_blank_iff_all_ws(head);
            if !is_blank(head) {
                assert(parts[0] == head);
            } else {
                lemma_blank_iff_all_ws(tail);
                if is_blank(tail) {
                    assert forall|j: int| 0 <= j < s.len() implies is_ws(#[trigger] s[j]) by {
                        if j < i {
                            assert(s[j] == head[j]);
                        } else if j < i + 2 {
                            assert(s.subrange(i, i + 2)[j - i] == s[j]);
                        } else {
                            assert(s[j] == tail[j - i - 2]);
                        }
                    }
                    assert(false);
                }
                lemma_split_has_nonblank(tail);
                let k = choose|k: int| 0 <= k < split_blank_lines(tail).len() && !is_blank(
                    #[trigger] split_blank_lines(tail)[k],
                );
                assert(parts[k + 1] == split_blank_lines(tail)[k]);
            }
        },
        None => {
            assert(split_blank_lines(s)[0] == s);
        },
    }
}

/// Some piece not blank leaves some paragraph.
proof fn lemma_nonblank_trimmed_nonempty(ps: Seq<Seq<char>>, k: int)
    requires
        0 <= k < ps.len(),
        !is_blank(ps[k]),
    ensures
        nonblank_trimmed(ps).len() > 0,
    decreases ps.len(),
{
    if k < ps.len() - 1 {
        assert(ps.drop_last()[k] == ps[k]);
        lemma_nonblank_trimmed_nonempty(ps.drop_last(), k);
    }
}

/// A text that is not blank has a paragraph.
proof fn lemma_paragraphs_nonempty(s: Seq<char>)
    requires
        !is_blank(s),
    ensures
        paragraphs_spec(s).len() > 0,
{
    lemma_split_has_nonblank(s);
    let k = choose|k: int| 0 <= k < split_blank_lines(s).len() && !is_blank(
        #[trigger] split_blank_lines(s)[k],
    );
    lemma_nonblank_trimmed_nonempty(split_blank_lines(s), k);
}

/// The sections of a document whose text is not blank.
pub open spec fn sections_not_blank(sections: Seq<(Seq<char>, Seq<char>, u64)>) -> bool {
    forall|k: int| 0 <= k < sections.len() ==> !is_blank(#[trigger] sections[k].1)
}

proof fn lemma_heading_fold_not_blank(lines: Seq<Seq<char>>)
    ensures
        sections_not_blank(heading_fold(lines).0),
    decreases lines.len(),
{
    if lines.len() > 0 {
        let prev = heading_fold(lines.drop_last());
        lemma_heading_fold_not_blank(lines.drop_last());
        lemma_trim_idempotent(prev.3);
        let s = heading_fold(lines);
        assert forall|k: int| 0 <= k < s.0.len() implies !is_blank(#[trigger] s.0[k].1) by {
            if k < prev.0.len() {
                assert(s.0[k] == prev.0[k]);
            }
        }
    }
}

/// Every section of a document that is not blank holds text that is not
/// blank, and there is one at least.
proof fn lemma_sections_not_blank(content: Seq<char>)
    requires
        !is_blank(content),
    ensures
        sections_not_blank(sections_spec(content)),
        sections_spec(content).len() > 0,
{
    let s = heading_fold(lines_inclusive(content));
    lemma_heading_fold_not_blank(lines_inclusive(content));
    lemma_trim_idempotent(s.3);
    let sections = if !is_blank(s.3) {
        s.0.push((s.1, trim(s.3), s.2))
    } else {
        s.0
    };
    assert(sections_not_blank(sections)) by {
        assert forall|k: int| 0 <= k < sections.len() implies !is_blank(#[trigger] sections[k].1) by {
            if k < s.0.len() {
                assert(sections[k] == s.0[k]);
            }
        }
    }
    if sections.len() == 0 {
        assert(sections_spec(content)[0].1 == content);
    }
}

/// The document fold numbers its chunks from 0 and counts them; a fold
/// over sections not blank gives a chunk at least for each.
proof fn lemma_document_fold_numbering(sections: Seq<(Seq<char>, Seq<char>, u64)>, max: nat, overlap: nat)
    requires
        document_fold(sections, max, overlap).0.len() <= i32::MAX,
    ensures
        ({
            let d = document_fold(sections, max, overlap);
            &&& d.1 == d.0.len()
            &&& forall|k: int| 0 <= k < d.0.len() ==> (#[trigger] d.0[k]).3 == k
            &&& sections_not_blank(sections) ==> d.0.len() >= sections.len()
        }),
    decreases sections.len(),
{
    if sections.len() > 0 {
        let before = document_fold(sections.drop_last(), max, overlap);
        let sec = sections.last();
        let cs = section_chunks_spec(sec.0, sec.1, sec.2, before.1, max, overlap);
        let d = document_fold(sections, max, overlap);
        assert(d.0 == before.0 + cs);
        lemma_document_fold_numbering(sections.drop_last(), max, overlap);
        lemma_section_numbering(sec.0, sec.1, sec.2, before.1, max, overlap);
        assert forall|k: int| 0 <= k < d.0.len() implies (#[trigger] d.0[k]).3 == k by {
            if k < before.0.len() {
                assert(d.0[k] == before.0[k]);
            } else {
                assert(d.0[k] == cs[k - before.0.len()]);
            }
        }
        if sections_not_blank(sections) {
            assert(sections_not_blank(sections.drop_last())) by {
                assert forall|k: int| 0 <= k < sections.drop_last().len() implies !is_blank(
                    #[trigger] sections.drop_last()[k].1,
                ) by {
                    assert(sections.drop_last()[k] == sections[k]);
                }
            }
            assert(!is_blank(sections[sections.len() - 1].1));
        }
    }
}

/// Law: the chunks of a document are numbered 0, 1, 2, ... in document
/// order, across its sections; and a document has no chunk exactly when it
/// is blank. (Past `i32::MAX` chunks the numbers would wrap.)
pub proof fn law_chunk_numbering(content: Seq<char>, max: nat, overlap: nat)
    requires
        document_chunks_spec(content, max, overlap).len() <= i32::MAX,
    ensures
        forall|k: int|
            0 <= k < document_chunks_spec(content, max, overlap).len() ==> (
            #[trigger] document_chunks_spec(content, max, overlap)[k]).3 == k,
        document_chunks_spec(content, max, overlap).len() == 0 <==> is_blank(content),
{
    if !is_blank(content) {
        lemma_sections_not_blank(content);
        lemma_document_fold_numbering(sections_spec(content), max, overlap);
    }
}

/// `title` is empty, or the title of a heading among `ls`.
pub open spec fn heading_of(title: Seq<char>, ls: Seq<Seq<char>>) -> bool {
    title.len() == 0 || exists|i: int|
        0 <= i < ls.len() && heading_title(strip_line_end(#[trigger] ls[i])) == Some(title)
}

proof fn lemma_heading_of_prefix(title: Seq<char>, ls: Seq<Seq<char>>)
    requires
        ls.len() > 0,
        heading_of(title, ls.drop_last()),
    ensures
        heading_of(title, ls),
{
    if title.len() > 0 {
        let i = choose|i: int|
            0 <= i < ls.drop_last().len() && heading_title(strip_line_end(
                #[trigger] ls.drop_last()[i],
            )) == Some(title);
        assert(ls[i] == ls.drop_last()[i]);
    }
}

/// The current title and the title of each finished section are empty or
/// the title of a heading line read.
proof fn lemma_heading_fold_titles(ls: Seq<Seq<char>>)
    ensures
        heading_of(heading_fold(ls).1, ls),
        forall|j: int|
            0 <= j < heading_fold(ls).0.len() ==> heading_of(#[trigger] heading_fold(ls).0[j].0, ls),
    decreases ls.len(),
{
    if ls.len() > 0 {
        let prev = heading_fold(ls.drop_last());
        lemma_heading_fold_titles(ls.drop_last());
        let s = heading_fold(ls);
        lemma_heading_of_prefix(prev.1, ls);
        assert forall|j: int| 0 <= j < s.0.len() implies heading_of(#[trigger] s.0[j].0, ls) by {
            if j < prev.0.len() {
                assert(s.0[j] == prev.0[j]);
                lemma_heading_of_prefix(prev.0[j].0, ls);
            } else {
                assert(s.0[j].0 == prev.1);
            }
        }
        match heading_title(strip_line_end(ls.last())) {
            Some(t) => {
                assert(ls[ls.len() - 1] == ls.last());
            },
            None => {},
        }
    }
}

/// Each section's title is empty or the title of a heading of the document.
proof fn lemma_section_titles(content: Seq<char>)
    ensures
        forall|j: int|
            0 <= j < sections_spec(content).len() ==> heading_of(
                #[trigger] sections_spec(content)[j].0,
                lines_inclusive(content),
            ),
{
    let ls = lines_inclusive(content);
    let s = heading_fold(ls);
    lemma_heading_fold_titles(ls);
    let sections = if !is_blank(s.3) {
        s.0.push((s.1, trim(s.3), s.2))
    } else {
        s.0
    };
    assert forall|j: int| 0 <= j < sections.len() implies heading_of(#[trigger] sections[j].0, ls) by {
        if j < s.0.len() {
            assert(sections[j] == s.0[j]);
        }
    }
}

/// Gathering paragraphs gives every chunk the section's title.
proof fn lemma_chunk_fold_titles(
    ps: Seq<Seq<char>>,
    init: ChunkState,
    title: Seq<char>,
    max: nat,
    overlap: nat,
)
    requires
        forall|k: int| 0 <= k < init.0.len() ==> (#[trigger] init.0[k]).4 == title,
    ensures
        forall|k: int|
            0 <= k < chunk_fold(ps, init, title, max, overlap).0.len() ==> (#[trigger] chunk_fold(
                ps,
                init,
                title,
                max,
                overlap,
            ).0[k]).4 == title,
    decreases ps.len(),
{
    if ps.len() > 0 {
        lemma_chunk_fold_titles(ps.drop_last(), init, title, max, overlap);
        let prev = chunk_fold(ps.drop_last(), init, title, max, overlap);
        let s = chunk_fold(ps, init, title, max, overlap);
        assert forall|k: int| 0 <= k < s.0.len() implies (#[trigger] s.0[k]).4 == title by {
            if k < prev.0.len() {
                assert(s.0[k] == prev.0[k]);
            }
        }
    }
}

/// Every chunk of a section carries the section's title.
proof fn lemma_section_chunk_titles(
    title: Seq<char>,
    content: Seq<char>,
    start: u64,
    first_index: i32,
    max: nat,
    overlap: nat,
)
    ensures
        forall|k: int|
            0 <= k < section_chunks_spec(title, content, start, first_index, max, overlap).len() ==> (
            #[trigger] section_chunks_spec(title, content, start, first_index, max, overlap)[k]).4
                == title,
{
    if content.len() > max {
        let init: ChunkState = (seq![], seq![], start, first_index);
        lemma_chunk_fold_titles(paragraphs_spec(content), init, title, max, overlap);
        let s = chunk_fold(paragraphs_spec(content), init, title, max, overlap);
        let cs = section_chunks_spec(title, content, start, first_index, max, overlap);
        assert forall|k: int| 0 <= k < cs.len() implies (#[trigger] cs[k]).4 == title by {
            if k < s.0.len() {
                assert(cs[k] == s.0[k]);
            }
        }
    }
}

/// Every chunk of the fold carries the title of one of the sections.
proof fn lemma_document_fold_titles(sections: Seq<(Seq<char>, Seq<char>, u64)>, max: nat, overlap: nat)
    ensures
        forall|k: int|
            0 <= k < document_fold(sections, max, overlap).0.len() ==> exists|j: int|
                0 <= j < sections.len() && (#[trigger] document_fold(sections, max, overlap).0[k]).4
                    == #[trigger] sections[j].0,
    decreases sections.len(),
{
    if sections.len() > 0 {
        let before = document_fold(sections.drop_last(), max, overlap);
        let sec = sections.last();
        let cs = section_chunks_spec(sec.0, sec.1, sec.2, before.1, max, overlap);
        let d = document_fold(sections, max, overlap);
        assert(d.0 == before.0 + cs);
        lemma_document_fold_titles(sections.drop_last(), max, overlap);
        lemma_section_chunk_titles(sec.0, sec.1, sec.2, before.1, max, overlap);
        assert forall|k: int| 0 <= k < d.0.len() implies exists|j: int|
            0 <= j < sections.len() && (#[trigger] d.0[k]).4 == #[trigger] sections[j].0 by {
            if k < before.0.len() {
                assert(d.0[k] == before.0[k]);
                let j = choose|j: int|
                    0 <= j < sections.drop_last().len() && (#[trigger] before.0[k]).4
                        == #[trigger] sections.drop_last()[j].0;
                assert(sections[j] == sections.drop_last()[j]);
            } else {
                assert(d.0[k] == cs[k - before.0.len()]);
                assert(sections[sections.len() - 1] == sec);
            }
        }
    }
}

/// Law: every chunk of a document carries the title of the Markdown heading
/// (one to six `#` and a space) that opens its section, or none for text
/// under no heading: its title is empty or the title of a heading line of
/// the document.
pub proof fn law_chunk_titles(content: Seq<char>, max: nat, overlap: nat)
    ensures
        forall|k: int|
            0 <= k < document_chunks_spec(content, max, overlap).len() ==> heading_of(
                (#[trigger] document_chunks_spec(content, max, overlap)[k]).4,
                lines_inclusive(content),
            ),
{
    if !is_blank(content) {
        let sections = sections_spec(content);
        lemma_section_titles(content);
        lemma_document_fold_titles(sections, max, overlap);
        let cs = document_chunks_spec(content, max, overlap);
        assert forall|k: int| 0 <= k < cs.len() implies heading_of(
            (#[trigger] cs[k]).4,
            lines_inclusive(content),
        ) by {
            let j = choose|j: int| 0 <= j < sections.len() && (#[trigger] cs[k]).4 == #[trigger] sections[j].0;
        }
    }
}

} // verus!
