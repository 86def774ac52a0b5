use vstd::prelude::*;
use vstd::utf8::is_char_boundary;
use vstd::string::StringSliceAdditionalSpecFns;

verus! {

/// A half-open range `start..end` of byte offsets into a source text.
#[derive(Debug, Clone, Copy, PartialEq, Eq, Hash)]
pub struct Position {
    start: usize,
    end: usize,
}

impl Position {
    pub closed spec fn spec_start(self) -> usize {
        self.start
    }

    pub closed spec fn spec_end(self) -> usize {
        self.end
    }

    /// The position `start..end`.
    pub closed spec fn spec_new(start: usize, end: usize) -> Position {
        Position { start, end }
    }

    /// A position never runs backwards.
    pub open spec fn wf(self) -> bool {
        self.spec_start() <= self.spec_end()
    }

    /// Creates a position; `start` may not lie after `end`.
    pub fn new(start: usize, end: usize) -> (p: Position)
        requires
            start <= end,
        ensures
            p == Position::spec_new(start, end),
            p.spec_start() == start,
            p.spec_end() == end,
    {
        Position { start, end }
    }

    pub fn start(&self) -> (s: usize)
        ensures
            s == self.spec_start(),
    {
        self.start
    }

    pub fn end(&self) -> (e: usize)
        ensures
            e == self.spec_end(),
    {
        self.end
    }
}

impl From<std::ops::Range<usize>> for Position {
    /// The position of a range of offsets, taken as it is.
    fn from(value: std::ops::Range<usize>) -> (p: Position) {
        Position { start: value.start, end: value.end }
    }
}

impl vstd::std_specs::convert::FromSpecImpl<std::ops::Range<usize>> for Position {
    open spec fn obeys_from_spec() -> bool {
        true
    }

    open spec fn from_spec(value: std::ops::Range<usize>) -> Position {
        Position::spec_new(value.start, value.end)
    }
}

/// A region of a named source text.
#[derive(Debug, Clone, Copy)]
pub struct Span<'src> {
    source: &'src str,
    file: &'src str,
    position: Position,
}

impl<'src> Span<'src> {
    pub closed spec fn spec_source(self) -> &'src str {
        self.source
    }

    pub closed spec fn spec_file(self) -> &'src str {
        self.file
    }

    pub closed spec fn spec_position(self) -> Position {
        self.position
    }

    /// The span lies inside its source and both of its ends fall on character boundaries,
    /// so that its text can be cut out of the source.
    pub open spec fn valid(self) -> bool {
        &&& self.spec_position().wf()
        &&& self.spec_position().spec_end() <= self.spec_source().spec_bytes().len()
        &&& is_char_boundary(self.spec_source().spec_bytes(), self.spec_position().spec_start() as int)
        &&& is_char_boundary(self.spec_source().spec_bytes(), self.spec_position().spec_end() as int)
    }

    /// The bytes of the text that the span covers.
    pub open spec fn spec_value_bytes(self) -> Seq<u8> {
        self.spec_source().spec_bytes().subrange(
            self.spec_position().spec_start() as int,
            self.spec_position().spec_end() as int,
        )
    }

    /// The span of `position` in `source`, a text of the file `file`.
    pub closed spec fn spec_new(source: &'src str, file: &'src str, position: Position) -> Span<'src> {
        Span { source, file, position }
    }

    /// The characters of the text that the span covers.
    pub open spec fn spec_text(self) -> Seq<char> {
        vstd::utf8::decode_utf8(self.spec_value_bytes())
    }

    /// Creates a span; it may not reach past the end of the source.
    pub fn new(source: &'src str, file: &'src str, position: Position) -> (s: Span<'src>)
        requires
            position.spec_end() <= source.spec_bytes().len(),
        ensures
            s == Span::spec_new(source, file, position),
            s.spec_source() == source,
            s.spec_file() == file,
            s.spec_position() == position,
    {
        Self::new_unchecked(source, file, position)
    }

    /// Creates a span without checking it against the source.
    pub fn new_unchecked(source: &'src str, file: &'src str, position: Position) -> (s: Span<'src>)
        ensures
            s.spec_source() == source,
            s.spec_file() == file,
            s.spec_position() == position,
    {
        Span { source, file, position }
    }

    pub fn source(&self) -> (s: &'src str)
        ensures
            s == self.spec_source(),
    {
        self.source
    }

    pub fn file(&self) -> (f: &'src str)
        ensures
            f == self.spec_file(),
    {
        self.file
    }

    /// The text that the span covers.
    pub fn value(&self) -> (v: &'src str)
        requires
            self.valid(),
        ensures
            v.spec_bytes() == self.spec_value_bytes(),
            v@ == self.spec_text(),
    {
        proof {
            vstd::utf8::encode_utf8_decode_utf8(self.spec_source()@);
        }
        let start = self.position.start();
        let end = self.position.end();
        let (_, rest) = self.source.split_at(start);
        proof {
            vstd::utf8::encode_utf8_valid_utf8(self.source@);
            vstd::utf8::encode_utf8_valid_utf8(rest@);
        }
        proof {
            lemma_boundary_in_suffix(self.source.spec_bytes(), rest.spec_bytes(), start as int, end as int);
        }
        let (v, _) = rest.split_at(end - start);
        proof {
            vstd::utf8::encode_utf8_decode_utf8(v@);
            assert(v.spec_bytes() == vstd::utf8::encode_utf8(v@));
            assert(v.spec_bytes() =~= self.spec_value_bytes());
        }
        v
    }

    pub fn position(&self) -> (p: Position)
        ensures
            p == self.spec_position(),
    {
        self.position
    }
}

/// The parts of a position made from bounds are those bounds.
pub broadcast proof fn lemma_position_spec_new(start: usize, end: usize)
    ensures
        (#[trigger] Position::spec_new(start, end)).spec_start() == start,
        Position::spec_new(start, end).spec_end() == end,
{
}

/// The parts of a span made from parts are those parts.
pub broadcast proof fn lemma_span_spec_new<'src>(source: &'src str, file: &'src str, position: Position)
    ensures
        (#[trigger] Span::spec_new(source, file, position)).spec_source() == source,
        Span::spec_new(source, file, position).spec_file() == file,
        Span::spec_new(source, file, position).spec_position() == position,
{
}

/// A span made again from its own parts is that span.
pub proof fn lemma_span_rebuild<'src>(s: Span<'src>)
    ensures
        Span::spec_new(
            s.spec_source(),
            s.spec_file(),
            Position::spec_new(s.spec_position().spec_start(), s.spec_position().spec_end()),
        ) == s,
{
}

/// The span from the start of `first` to the end of `last`, in `first`'s source and file.
pub open spec fn join_spans<'src>(first: Span<'src>, last: Span<'src>) -> Span<'src> {
    Span::spec_new(
        first.spec_source(),
        first.spec_file(),
        Position::spec_new(first.spec_position().spec_start(), last.spec_position().spec_end()),
    )
}

/// The span from the start of `first` to the end of `last`, in `first`'s source and file;
/// `first` may not start after `last` ends, nor `last` end past the end of the source.
pub(crate) fn join<'src>(first: Span<'src>, last: Span<'src>) -> (s: Span<'src>)
    requires
        first.spec_position().spec_start() <= last.spec_position().spec_end(),
        last.spec_position().spec_end() <= first.spec_source().spec_bytes().len(),
    ensures
        s == join_spans(first, last),
{
    let position = Position::new(first.position().start(), last.position().end());
    Span::new(first.source(), first.file(), position)
}

/// A character boundary of a text that lies after a boundary `start` is a boundary of the
/// text's suffix from `start`.
proof fn lemma_boundary_in_suffix(bytes: Seq<u8>, rest: Seq<u8>, start: int, end: int)
    requires
        vstd::utf8::valid_utf8(bytes),
        vstd::utf8::valid_utf8(rest),
        0 <= start <= end <= bytes.len(),
        rest == bytes.subrange(start, bytes.len() as int),
        is_char_boundary(bytes, end),
    ensures
        is_char_boundary(rest, end - start),
{
    let idx = end - start;
    if idx == 0 {
    } else if idx == rest.len() {
        vstd::utf8::is_char_boundary_start_end_of_seq(rest);
    } else {
        vstd::utf8::is_char_boundary_iff_not_is_continuation_byte(bytes, end);
        vstd::utf8::is_char_boundary_iff_not_is_continuation_byte(rest, idx);
        assert(rest[idx] == bytes[end]);
    }
}

} // verus!
