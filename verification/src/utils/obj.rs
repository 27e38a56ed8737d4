use vstd::prelude::*;
use num_traits::Float;

use crate::types::geometry::{Mesh, Vec3};
use crate::utils::float::negate;

verus! {

/// Whether a byte separates tokens: ASCII space, tab, line feed, vertical tab, form feed
/// or carriage return.
pub open spec fn is_blank(b: u8) -> bool {
    b == 32u8 || (9u8 <= b && b <= 13u8)
}

/// The position of the first line feed of a text, or its length where it has none.
pub open spec fn line_end(s: Seq<u8>) -> int
    decreases s.len(),
{
    if s.len() == 0 {
        0
    } else if s[0] == 10u8 {
        0
    } else {
        1 + line_end(s.skip(1))
    }
}

/// The length of the token at the start of a text: the bytes before the first blank.
pub open spec fn token_end(s: Seq<u8>) -> int
    decreases s.len(),
{
    if s.len() == 0 {
        0
    } else if is_blank(s[0]) {
        0
    } else {
        1 + token_end(s.skip(1))
    }
}

/// A line feed at `k`, with none before it, ends the first line; with none at all, the
/// line runs to the end.
proof fn lemma_line_end(s: Seq<u8>, k: int)
    requires
        0 <= k <= s.len(),
        forall|i: int| 0 <= i < k ==> s[i] != 10u8,
        k == s.len() || s[k] == 10u8,
    ensures
        line_end(s) == k,
    decreases k,
{
    if k > 0 {
        lemma_line_end(s.skip(1), k - 1);
    }
}

/// Blanks at `k`, or the end, with none before, end the first token there.
proof fn lemma_token_end(s: Seq<u8>, k: int)
    requires
        0 <= k <= s.len(),
        forall|i: int| 0 <= i < k ==> !is_blank(s[i]),
        k == s.len() || is_blank(s[k]),
    ensures
        token_end(s) == k,
    decreases k,
{
    if k > 0 {
        lemma_token_end(s.skip(1), k - 1);
    }
}

/// The first line ends within the text.
pub proof fn lemma_line_end_bounds(s: Seq<u8>)
    ensures
        0 <= line_end(s) <= s.len(),
    decreases s.len(),
{
    if s.len() > 0 && s[0] != 10u8 {
        lemma_line_end_bounds(s.skip(1));
    }
}

/// The first token ends within the text.
pub proof fn lemma_token_end_bounds(s: Seq<u8>)
    ensures
        0 <= token_end(s) <= s.len(),
        s.len() > 0 && !is_blank(s[0]) ==> token_end(s) >= 1,
    decreases s.len(),
{
    if s.len() > 0 && !is_blank(s[0]) {
        lemma_token_end_bounds(s.skip(1));
    }
}

/// The lines of a text, split at each line feed; a final line feed closes the last line.
pub open spec fn text_lines(s: Seq<u8>) -> Seq<Seq<u8>>
    decreases s.len(),
{
    if s.len() == 0 {
        Seq::empty()
    } else {
        let k = line_end(s);
        proof {
            lemma_line_end_bounds(s);
        }
        seq![s.take(k)] + (if k < s.len() {
            text_lines(s.skip(k + 1))
        } else {
            Seq::empty()
        })
    }
}

/// The tokens of a line: the runs of bytes between blanks.
pub open spec fn tokens(s: Seq<u8>) -> Seq<Seq<u8>>
    decreases s.len(),
{
    if s.len() == 0 {
        Seq::empty()
    } else if is_blank(s[0]) {
        tokens(s.skip(1))
    } else {
        let k = token_end(s);
        proof {
            lemma_token_end_bounds(s);
        }
        seq![s.take(k)] + tokens(s.skip(k))
    }
}

/// The bytes of a text between two positions.
pub open spec fn range_of(text: Seq<u8>, r: (usize, usize)) -> Seq<u8> {
    text.subrange(r.0 as int, r.1 as int)
}

/// The tokens of the line `text[start..end]`, as ranges of the text.
fn line_tokens(text: &[u8], start: usize, end: usize) -> (ranges: Vec<(usize, usize)>)
    requires
        start <= end <= text@.len(),
    ensures
        ranges@.len() == tokens(text@.subrange(start as int, end as int)).len(),
        forall|i: int|
            0 <= i < ranges@.len() ==> {
                &&& start <= (#[trigger] ranges@[i]).0 <= ranges@[i].1 <= end
                &&& range_of(text@, ranges@[i]) == tokens(text@.subrange(start as int, end as int))[i]
            },
{
    let ghost line = text@.subrange(start as int, end as int);
    let mut ranges: Vec<(usize, usize)> = Vec::new();
    let ghost mut found: Seq<Seq<u8>> = Seq::empty();
    let mut pos = start;
    while pos < end
        invariant
            start <= pos <= end <= text@.len(),
            line == text@.subrange(start as int, end as int),
            tokens(line) == found + tokens(text@.subrange(pos as int, end as int)),
            ranges@.len() == found.len(),
            forall|i: int|
                0 <= i < ranges@.len() ==> {
                    &&& start <= (#[trigger] ranges@[i]).0 <= ranges@[i].1 <= end
                    &&& range_of(text@, ranges@[i]) == found[i]
                },
        decreases end - pos,
    {
        let ghost rest = text@.subrange(pos as int, end as int);
        if text[pos] == 32u8 || (9u8 <= text[pos] && text[pos] <= 13u8) {
            assert(rest.skip(1) =~= text@.subrange(pos + 1, end as int));
            pos = pos + 1;
        } else {
            let mut stop = pos + 1;
            while stop < end && !(text[stop] == 32u8 || (9u8 <= text[stop] && text[stop] <= 13u8))
                invariant
                    pos < stop <= end <= text@.len(),
                    forall|i: int| pos <= i < stop ==> !is_blank(#[trigger] text@[i]),
                decreases end - stop,
            {
                stop = stop + 1;
            }
            proof {
                assert forall|i: int| 0 <= i < stop - pos implies !is_blank(rest[i]) by {
                    assert(rest[i] == text@[pos + i]);
                }
                if stop < end {
                    assert(rest[stop - pos] == text@[stop as int]);
                }
                lemma_token_end(rest, stop - pos);
                assert(rest.take(stop - pos) =~= text@.subrange(pos as int, stop as int));
                assert(rest.skip(stop - pos) =~= text@.subrange(stop as int, end as int));
                found = found.push(text@.subrange(pos as int, stop as int));
                assert(tokens(line) =~= found + tokens(text@.subrange(stop as int, end as int)));
            }
            ranges.push((pos, stop));
            pos = stop;
        }
    }
    proof {
        assert(text@.subrange(end as int, end as int) =~= Seq::<u8>::empty());
        assert(found =~= tokens(line));
    }
    ranges
}

/// What can be wrong with an OBJ text.
#[derive(Debug, Clone, Copy, PartialEq, Eq, Structural)]
pub enum ObjError {
    /// A vertex or normal line without exactly three numbers.
    InvalidVertex,
    /// A face line without exactly three corners.
    InvalidFace,
    /// A token where a number is expected that does not read as one.
    InvalidNumber,
    /// A face corner whose vertex index is not a positive whole number.
    InvalidIndex,
    /// A face corner that names a vertex the text does not have.
    IndexOutOfRange,
}

impl ObjError {
    /// A description of the error.
    pub fn message(&self) -> (text: &'static str)
        ensures
            *self is InvalidVertex ==> text@ == "Invalid vertex format. Make sure file is triangulated.,"@,
            *self is InvalidFace ==> text@ == "Invalid face format"@,
            *self is InvalidNumber ==> text@ == "invalid float literal"@,
            *self is InvalidIndex ==> text@ == "Invalid face index"@,
            *self is IndexOutOfRange ==> text@ == "Face index out of range"@,
    {
        match self {
            ObjError::InvalidVertex => "Invalid vertex format. Make sure file is triangulated.,",
            ObjError::InvalidFace => "Invalid face format",
            ObjError::InvalidNumber => "invalid float literal",
            ObjError::InvalidIndex => "Invalid face index",
            ObjError::IndexOutOfRange => "Face index out of range",
        }
    }
}

/// The text that `std::str::from_utf8` reads from bytes, where they are UTF-8.
pub uninterp spec fn utf8_text(bytes: Seq<u8>) -> Option<Seq<char>>;

/// `std::str::from_utf8`: the bytes as text, `None` where they are not UTF-8.
#[verifier::external_body]
fn str_from_utf8(bytes: &[u8]) -> (text: Option<&str>)
    ensures
        match text {
            Some(t) => utf8_text(bytes@) == Some(t@),
            None => utf8_text(bytes@) is None,
        },
{
    std::str::from_utf8(bytes).ok()
}

/// `num_traits::Num::from_str_radix` in base ten: the number a text spells, `None` where
/// it spells none. For the primitive floats it reads as `str::parse` does. Nothing is
/// stated of the value.
#[verifier::external_body]
fn parse_scalar<T: Float>(text: &str) -> Option<T> {
    T::from_str_radix(text, 10).ok()
}

/// The number a token of `text` spells, `None` where it spells none.
fn read_number<T: Float>(text: &[u8], r: (usize, usize)) -> (number: Option<T>)
    requires
        r.0 <= r.1 <= text@.len(),
    ensures
        utf8_text(text@.subrange(r.0 as int, r.1 as int)) is None ==> number is None,
{
    let token = slice_range(text, r.0, r.1);
    match str_from_utf8(token) {
        Some(t) => parse_scalar(t),
        None => None,
    }
}

/// The bytes of `text` between two positions.
fn slice_range(text: &[u8], start: usize, end: usize) -> (part: &[u8])
    requires
        start <= end <= text@.len(),
    ensures
        part@ == text@.subrange(start as int, end as int),
{
    let (head, _) = text.split_at(end);
    let (_, part) = head.split_at(start);
    part
}

/// The token is the single byte `c`.
pub open spec fn is_word(token: Seq<u8>, c: u8) -> bool {
    token.len() == 1 && token[0] == c
}

/// The position of the first `/` in a token, or its length.
pub open spec fn slash_end(s: Seq<u8>) -> int
    decreases s.len(),
{
    if s.len() == 0 {
        0
    } else if s[0] == 47u8 {
        0
    } else {
        1 + slash_end(s.skip(1))
    }
}

/// The bytes of a number without the sign `+` it may start with.
pub open spec fn unsigned_part(s: Seq<u8>) -> Seq<u8> {
    if s.len() > 0 && s[0] == 43u8 {
        s.skip(1)
    } else {
        s
    }
}

/// The bytes are one or more decimal digits.
pub open spec fn all_digits(s: Seq<u8>) -> bool {
    s.len() > 0 && forall|i: int| 0 <= i < s.len() ==> 48u8 <= #[trigger] s[i] <= 57u8
}

/// The value of a run of decimal digits.
pub open spec fn digits_value(s: Seq<u8>) -> nat
    decreases s.len(),
{
    if s.len() == 0 {
        0
    } else {
        digits_value(s.drop_last()) * 10 + (s.last() - 48) as nat
    }
}

/// The vertex index a face corner names: the whole number before its first `/`, read as
/// `usize::from_str` reads it (an optional `+`, then digits), `None` where it is no such
/// number or too large.
pub open spec fn corner_index(token: Seq<u8>) -> Option<nat> {
    let d = unsigned_part(token.take(slash_end(token)));
    if all_digits(d) && digits_value(d) <= usize::MAX {
        Some(digits_value(d))
    } else {
        None
    }
}

/// A face corner names a vertex: a whole number from one on.
pub open spec fn corner_ok(token: Seq<u8>) -> bool {
    corner_index(token) matches Some(v) && v >= 1
}

/// The vertex a face corner names, counted from zero.
pub open spec fn corner_vertex(token: Seq<u8>) -> usize {
    (corner_index(token)->0 - 1) as usize
}

/// What is wrong with a line, by its tokens: a vertex line without three numbers, a face
/// line without three corners or with a corner that names no vertex, or, where normals
/// are read, a normal line without three numbers.
pub open spec fn line_error(t: Seq<Seq<u8>>, read_normals: bool) -> Option<ObjError> {
    if t.len() == 0 {
        None
    } else if is_word(t[0], 118u8) {
        if t.len() != 4 {
            Some(ObjError::InvalidVertex)
        } else {
            None
        }
    } else if is_word(t[0], 102u8) {
        if t.len() != 4 {
            Some(ObjError::InvalidFace)
        } else if !(corner_ok(t[1]) && corner_ok(t[2]) && corner_ok(t[3])) {
            Some(ObjError::InvalidIndex)
        } else {
            None
        }
    } else if is_word(t[0], 110u8) && read_normals {
        if t.len() != 4 {
            Some(ObjError::InvalidVertex)
        } else {
            None
        }
    } else {
        None
    }
}

/// The first thing wrong with a list of lines, if any.
pub open spec fn first_error(lines: Seq<Seq<u8>>, read_normals: bool) -> Option<ObjError>
    decreases lines.len(),
{
    if lines.len() == 0 {
        None
    } else {
        match first_error(lines.drop_last(), read_normals) {
            Some(e) => Some(e),
            None => line_error(tokens(lines.last()), read_normals),
        }
    }
}

/// The line is a vertex line.
pub open spec fn is_vertex_line(t: Seq<Seq<u8>>) -> bool {
    t.len() > 0 && is_word(t[0], 118u8)
}

/// The line is a face line.
pub open spec fn is_face_line(t: Seq<Seq<u8>>) -> bool {
    t.len() > 0 && is_word(t[0], 102u8)
}

/// The line is a normal line that is read.
pub open spec fn is_normal_line(t: Seq<Seq<u8>>, read_normals: bool) -> bool {
    t.len() > 0 && is_word(t[0], 110u8) && read_normals
}

/// The number of vertex lines.
pub open spec fn vertex_count(lines: Seq<Seq<u8>>) -> nat
    decreases lines.len(),
{
    if lines.len() == 0 {
        0
    } else {
        vertex_count(lines.drop_last()) + if is_vertex_line(tokens(lines.last())) {
            1nat
        } else {
            0nat
        }
    }
}

/// The number of normal lines that are read.
pub open spec fn normal_count(lines: Seq<Seq<u8>>, read_normals: bool) -> nat
    decreases lines.len(),
{
    if lines.len() == 0 {
        0
    } else {
        normal_count(lines.drop_last(), read_normals) + if is_normal_line(tokens(lines.last()), read_normals) {
            1nat
        } else {
            0nat
        }
    }
}

/// The faces of the face lines: the vertices their corners name, counted from zero.
pub open spec fn face_corners(lines: Seq<Seq<u8>>) -> Seq<(usize, usize, usize)>
    decreases lines.len(),
{
    if lines.len() == 0 {
        Seq::empty()
    } else {
        let t = tokens(lines.last());
        face_corners(lines.drop_last()) + if is_face_line(t) {
            seq![(corner_vertex(t[1]), corner_vertex(t[2]), corner_vertex(t[3]))]
        } else {
            Seq::empty()
        }
    }
}

/// A line of an OBJ text, read.
enum ObjLine<T> {
    Vertex(Vec3<T>),
    Face([usize; 3]),
    Normal(Vec3<T>),
    Other,
}

/// Read the vertex index of the face corner at token `r`: see [`corner_index`].
fn read_corner(text: &[u8], r: (usize, usize)) -> (index: Option<usize>)
    requires
        r.0 <= r.1 <= text@.len(),
    ensures
        match index {
            Some(i) => corner_ok(range_of(text@, r)) && i == corner_vertex(range_of(text@, r)),
            None => !corner_ok(range_of(text@, r)),
        },
{
    let ghost token = range_of(text@, r);
    let mut end = r.0;
    while end < r.1 && text[end] != 47u8
        invariant
            r.0 <= end <= r.1 <= text@.len(),
            forall|i: int| r.0 <= i < end ==> #[trigger] text@[i] != 47u8,
        decreases r.1 - end,
    {
        end = end + 1;
    }
    proof {
        assert forall|i: int| 0 <= i < end - r.0 implies token[i] != 47u8 by {
            assert(token[i] == text@[r.0 + i]);
        }
        if end < r.1 {
            assert(token[end - r.0] == text@[end as int]);
        }
        lemma_slash_end(token, end - r.0);
        assert(token.take(slash_end(token)) =~= text@.subrange(r.0 as int, end as int));
    }
    let mut start = r.0;
    if start < end && text[start] == 43u8 {
        start = start + 1;
    }
    let ghost digits = text@.subrange(start as int, end as int);
    proof {
        assert(unsigned_part(text@.subrange(r.0 as int, end as int)) =~= digits);
    }
    if start == end {
        return None;
    }
    let mut value: usize = 0;
    let mut k = start;
    while k < end
        invariant
            start <= k <= end <= text@.len(),
            digits == text@.subrange(start as int, end as int),
            token == range_of(text@, r),
            unsigned_part(token.take(slash_end(token))) == digits,
            forall|i: int| start <= i < k ==> 48u8 <= #[trigger] text@[i] <= 57u8,
            value == digits_value(text@.subrange(start as int, k as int)),
        decreases end - k,
    {
        let b = text[k];
        if b < 48u8 || b > 57u8 {
            proof {
                assert(digits[k - start] == b);
                assert(!all_digits(digits));
            }
            return None;
        }
        proof {
            assert(text@.subrange(start as int, k + 1).drop_last() =~= text@.subrange(start as int, k as int));
            lemma_digits_grow(digits, k + 1 - start);
            assert(digits.take(k + 1 - start) =~= text@.subrange(start as int, k + 1));
            assert(text@.subrange(start as int, k + 1).last() == b);
            assert(digits_value(text@.subrange(start as int, k + 1)) == value * 10 + (b - 48));
        }
        let tens = match value.checked_mul(10) {
            Some(t) => t,
            None => {
                return None;
            },
        };
        value = match tens.checked_add((b - 48u8) as usize) {
            Some(v) => v,
            None => {
                return None;
            },
        };
        k = k + 1;
    }
    proof {
        assert(digits.take(digits.len() as int) =~= digits);
        assert forall|i: int| 0 <= i < digits.len() implies 48u8 <= #[trigger] digits[i] <= 57u8 by {
            assert(digits[i] == text@[start + i]);
        }
    }
    if value == 0 {
        return None;
    }
    Some(value - 1)
}

/// A `/` at `k`, with none before it, ends the part of a token before its first `/`.
proof fn lemma_slash_end(s: Seq<u8>, k: int)
    requires
        0 <= k <= s.len(),
        forall|i: int| 0 <= i < k ==> s[i] != 47u8,
        k == s.len() || s[k] == 47u8,
    ensures
        slash_end(s) == k,
    decreases k,
{
    if k > 0 {
        lemma_slash_end(s.skip(1), k - 1);
    }
}

/// A digit string never has a smaller value than a prefix of it; where a prefix is too
/// large for a `usize`, so is the whole.
proof fn lemma_digits_grow(s: Seq<u8>, k: int)
    requires
        0 <= k <= s.len(),
    ensures
        digits_value(s.take(k)) <= digits_value(s),
    decreases s.len() - k,
{
    if k < s.len() {
        lemma_digits_grow(s, k + 1);
        assert(s.take(k + 1).drop_last() =~= s.take(k));
    } else {
        assert(s.take(k) =~= s);
    }
}

/// The texts of token ranges of a text.
pub open spec fn token_texts(text: Seq<u8>, ranges: Seq<(usize, usize)>) -> Seq<Seq<u8>> {
    ranges.map_values(|r: (usize, usize)| range_of(text, r))
}

/// Read one line, given by its tokens: a vertex, a face, a normal (where normals are
/// read) or anything else. A vertex's coordinates come as `(x, y, z)`, or as `(x, -z, y)`
/// where `flip_yz` is set.
fn parse_line<T: Float>(text: &[u8], toks: &Vec<(usize, usize)>, flip_yz: bool, read_normals: bool) -> (r: Result<
    ObjLine<T>,
    ObjError,
>)
    requires
        forall|i: int| 0 <= i < toks@.len() ==> (#[trigger] toks@[i]).0 <= toks@[i].1 <= text@.len(),
    ensures
        match r {
            Ok(line) => line_error(token_texts(text@, toks@), read_normals) is None && match line {
                ObjLine::Vertex(_) => is_vertex_line(token_texts(text@, toks@)),
                ObjLine::Face(f) => {
                    let t = token_texts(text@, toks@);
                    &&& is_face_line(t)
                    &&& f[0] == corner_vertex(t[1]) && f[1] == corner_vertex(t[2]) && f[2] == corner_vertex(t[3])
                },
                ObjLine::Normal(_) => is_normal_line(token_texts(text@, toks@), read_normals),
                ObjLine::Other => !is_vertex_line(token_texts(text@, toks@)) && !is_face_line(token_texts(text@, toks@))
                    && !is_normal_line(token_texts(text@, toks@), read_normals),
            },
            Err(e) => if e == ObjError::InvalidNumber {
                line_error(token_texts(text@, toks@), read_normals) is None && (is_vertex_line(
                    token_texts(text@, toks@),
                ) || is_normal_line(token_texts(text@, toks@), read_normals))
            } else {
                line_error(token_texts(text@, toks@), read_normals) == Some(e)
            },
        },
{
    let ghost t = token_texts(text@, toks@);
    if toks.len() == 0 {
        return Ok(ObjLine::Other);
    }
    let first = toks[0];
    assert(t[0] == range_of(text@, first));
    let single = first.1 - first.0 == 1;
    let vertex = single && text[first.0] == 118u8;
    let face = single && text[first.0] == 102u8;
    let normal = single && text[first.0] == 110u8 && read_normals;
    proof {
        if single {
            assert(t[0][0] == text@[first.0 as int]);
        }
    }
    if vertex || normal {
        if toks.len() != 4 {
            return Err(ObjError::InvalidVertex);
        }
        let x: T = match read_number(text, toks[1]) {
            Some(v) => v,
            None => {
                return Err(ObjError::InvalidNumber);
            },
        };
        let y: T = match read_number(text, toks[2]) {
            Some(v) => v,
            None => {
                return Err(ObjError::InvalidNumber);
            },
        };
        let z: T = match read_number(text, toks[3]) {
            Some(v) => v,
            None => {
                return Err(ObjError::InvalidNumber);
            },
        };
        if vertex {
            let point = if flip_yz {
                Vec3::new(x, negate(z), y)
            } else {
                Vec3::new(x, y, z)
            };
            Ok(ObjLine::Vertex(point))
        } else {
            Ok(ObjLine::Normal(Vec3::new(x, y, z)))
        }
    } else if face {
        if toks.len() != 4 {
            return Err(ObjError::InvalidFace);
        }
        assert(t[1] == range_of(text@, toks@[1]) && t[2] == range_of(text@, toks@[2]) && t[3] == range_of(text@, toks@[3]));
        let a = match read_corner(text, toks[1]) {
            Some(v) => v,
            None => {
                return Err(ObjError::InvalidIndex);
            },
        };
        let b = match read_corner(text, toks[2]) {
            Some(v) => v,
            None => {
                return Err(ObjError::InvalidIndex);
            },
        };
        let c = match read_corner(text, toks[3]) {
            Some(v) => v,
            None => {
                return Err(ObjError::InvalidIndex);
            },
        };
        Ok(ObjLine::Face([a, b, c]))
    } else {
        Ok(ObjLine::Other)
    }
}

/// An error in a list of lines stays the first error when more lines follow.
proof fn lemma_first_error_prefix(a: Seq<Seq<u8>>, b: Seq<Seq<u8>>, read_normals: bool)
    requires
        first_error(a, read_normals) is Some,
    ensures
        first_error(a + b, read_normals) == first_error(a, read_normals),
    decreases b.len(),
{
    if b.len() > 0 {
        lemma_first_error_prefix(a, b.drop_last(), read_normals);
        assert((a + b).drop_last() =~= a + b.drop_last());
    } else {
        assert(a + b =~= a);
    }
}

/// A vertex line counts among the vertex lines of any list holding it, and a normal line
/// that is read among the normal lines.
proof fn lemma_line_counted(lines: Seq<Seq<u8>>, k: int, read_normals: bool)
    requires
        0 <= k < lines.len(),
    ensures
        is_vertex_line(tokens(lines[k])) ==> vertex_count(lines) > 0,
        is_normal_line(tokens(lines[k]), read_normals) ==> normal_count(lines, read_normals) > 0,
    decreases lines.len(),
{
    if k < lines.len() - 1 {
        assert(lines.drop_last()[k] == lines[k]);
        lemma_line_counted(lines.drop_last(), k, read_normals);
    }
}

/// Read a mesh from an OBJ text: vertex lines `v x y z`, face lines `f a b c` whose
/// corners name vertices counted from one (anything after a `/` in a corner is ignored),
/// and, where `read_normals` is set, normal lines `n x y z`; other lines are skipped. With
/// `flip_yz`, a vertex `(x, y, z)` is read as `(x, -z, y)`. Where normals are read they are
/// set if there is one per vertex, and left unset otherwise; where they are not read they
/// are computed from the faces.
///
/// Fails with the first thing wrong in the text (see [`line_error`]), or, failing that,
/// with [`ObjError::IndexOutOfRange`] where a face names a vertex the text does not have;
/// or with [`ObjError::InvalidNumber`] where, before anything else is wrong, a coordinate
/// of a vertex or normal line does not read as a number. A text without vertex and normal
/// lines, with nothing wrong and no faces, gives an empty mesh.
pub fn parse_obj<T: Float + Send + Sync>(text: &[u8], flip_yz: bool, read_normals: bool) -> (r: Result<Mesh<T>, ObjError>)
    ensures
        match r {
            Ok(mesh) => {
                let lines = text_lines(text@);
                &&& first_error(lines, read_normals) is None
                &&& mesh.vertex_list().len() == vertex_count(lines)
                &&& mesh.face_list().len() == face_corners(lines).len()
                &&& forall|k: int|
                    0 <= k < mesh.face_list().len() ==> (#[trigger] mesh.face_list()[k])[0] == face_corners(lines)[k].0
                        && mesh.face_list()[k][1] == face_corners(lines)[k].1 && mesh.face_list()[k][2] == face_corners(
                        lines,
                    )[k].2
                &&& mesh.faces_valid()
                &&& read_normals ==> (mesh.normal_list() is Some <==> normal_count(lines, read_normals) == vertex_count(
                    lines,
                ))
                &&& !read_normals ==> (mesh.normal_list() matches Some(n) && n.len() == vertex_count(lines))
            },
            Err(e) => if e == ObjError::InvalidNumber {
                exists|k: int|
                    0 <= k < text_lines(text@).len() && first_error(text_lines(text@).take(k + 1), read_normals) is None && {
                        let t = tokens(#[trigger] text_lines(text@)[k]);
                        is_vertex_line(t) || is_normal_line(t, read_normals)
                    }
            } else {
                match first_error(text_lines(text@), read_normals) {
                Some(f) => e == f,
                None => e == ObjError::IndexOutOfRange && exists|k: int|
                    0 <= k < face_corners(text_lines(text@)).len() && {
                        let c = #[trigger] face_corners(text_lines(text@))[k];
                        c.0 >= vertex_count(text_lines(text@)) || c.1 >= vertex_count(text_lines(text@)) || c.2
                            >= vertex_count(text_lines(text@))
                    },
                }
            },
        },
        first_error(text_lines(text@), read_normals) is None && vertex_count(text_lines(text@)) == 0 && normal_count(
            text_lines(text@),
            read_normals,
        ) == 0 && face_corners(text_lines(text@)).len() == 0 ==> r is Ok,
{
    let ghost lines = text_lines(text@);
    let ghost mut done: Seq<Seq<u8>> = Seq::empty();
    let mut vertices: Vec<Vec3<T>> = Vec::new();
    let mut faces: Vec<[usize; 3]> = Vec::new();
    let mut normals: Vec<Vec3<T>> = Vec::new();
    let mut pos: usize = 0;
    proof {
        assert(text@.skip(0) =~= text@);
        assert(lines =~= done + text_lines(text@.skip(0)));
    }
    while pos < text.len()
        invariant
            pos <= text@.len(),
            lines == text_lines(text@),
            lines == done + text_lines(text@.skip(pos as int)),
            first_error(done, read_normals) is None,
            vertices@.len() == vertex_count(done),
            normals@.len() == normal_count(done, read_normals),
            faces@.len() == face_corners(done).len(),
            forall|k: int|
                0 <= k < faces@.len() ==> (#[trigger] faces@[k])[0] == face_corners(done)[k].0 && faces@[k][1]
                    == face_corners(done)[k].1 && faces@[k][2] == face_corners(done)[k].2,
        decreases text@.len() - pos,
    {
        let mut end = pos;
        while end < text.len() && text[end] != 10u8
            invariant
                pos <= end <= text@.len(),
                forall|i: int| pos <= i < end ==> #[trigger] text@[i] != 10u8,
            decreases text@.len() - end,
        {
            end = end + 1;
        }
        let ghost rest = text@.skip(pos as int);
        let ghost line = text@.subrange(pos as int, end as int);
        proof {
            assert forall|i: int| 0 <= i < end - pos implies rest[i] != 10u8 by {
                assert(rest[i] == text@[pos + i]);
            }
            if end < text@.len() {
                assert(rest[end - pos] == text@[end as int]);
            }
            lemma_line_end(rest, end - pos);
            assert(rest.take(end - pos) =~= line);
            if end < text@.len() {
                assert(rest.skip(end - pos + 1) =~= text@.skip(end + 1));
            }
        }
        let toks = line_tokens(text, pos, end);
        proof {
            assert(token_texts(text@, toks@) =~= tokens(line));
        }
        let parsed = parse_line::<T>(text, &toks, flip_yz, read_normals);
        let ghost next = done.push(line);
        proof {
            assert(next.drop_last() =~= done);
            assert(next.last() == line);
        }
        match parsed {
            Err(e) => {
                proof {
                    let tail = if end < text@.len() {
                        text_lines(text@.skip(end + 1))
                    } else {
                        Seq::<Seq<u8>>::empty()
                    };
                    assert(lines =~= next + tail);
                    if e != ObjError::InvalidNumber {
                        assert(first_error(next, read_normals) == Some(e));
                        lemma_first_error_prefix(next, tail, read_normals);
                    } else {
                        let k = done.len() as int;
                        assert(lines.take(k + 1) =~= next);
                        assert(lines[k] == line);
                        assert(first_error(next, read_normals) is None);
                        lemma_line_counted(lines, k, read_normals);
                    }
                }
                return Err(e);
            },
            Ok(ObjLine::Vertex(v)) => {
                vertices.push(v);
            },
            Ok(ObjLine::Normal(n)) => {
                normals.push(n);
            },
            Ok(ObjLine::Face(f)) => {
                faces.push(f);
                proof {
                    assert(face_corners(next) =~= face_corners(done).push(
                        (corner_vertex(tokens(line)[1]), corner_vertex(tokens(line)[2]), corner_vertex(tokens(line)[3])),
                    ));
                }
            },
            Ok(ObjLine::Other) => {},
        }
        proof {
            done = next;
        }
        if end < text.len() {
            pos = end + 1;
        } else {
            proof {
                assert(text@.skip(end as int) =~= Seq::<u8>::empty());
            }
            pos = end;
        }
    }
    proof {
        assert(text@.skip(pos as int) =~= Seq::<u8>::empty());
        assert(done =~= lines);
    }
    let count = vertices.len();
    let mut k: usize = 0;
    while k < faces.len()
        invariant
            k <= faces@.len(),
            count == vertices@.len(),
            lines == text_lines(text@),
            first_error(lines, read_normals) is None,
            count == vertex_count(lines),
            faces@.len() == face_corners(lines).len(),
            forall|j: int|
                0 <= j < faces@.len() ==> (#[trigger] faces@[j])[0] == face_corners(lines)[j].0 && faces@[j][1]
                    == face_corners(lines)[j].1 && faces@[j][2] == face_corners(lines)[j].2,
            forall|i: int| 0 <= i < k ==> (#[trigger] faces@[i])[0] < count && faces@[i][1] < count && faces@[i][2] < count,
        decreases faces@.len() - k,
    {
        let f = faces[k];
        if f[0] >= count || f[1] >= count || f[2] >= count {
            proof {
                assert(faces@[k as int] == f);
                let c = face_corners(text_lines(text@))[k as int];
                assert(c.0 >= vertex_count(text_lines(text@)) || c.1 >= vertex_count(text_lines(text@)) || c.2
                    >= vertex_count(text_lines(text@)));
            }
            return Err(ObjError::IndexOutOfRange);
        }
        k = k + 1;
    }
    let mut mesh = Mesh::new();
    mesh.add_vertices(vertices.as_slice());
    mesh.add_faces(faces.as_slice());
    proof {
        assert(mesh.vertex_list() =~= vertices@);
        assert(mesh.face_list() =~= faces@);
        assert forall|f: int, c: int| 0 <= f < mesh.face_list().len() && 0 <= c < 3 implies #[trigger] mesh.face_list()[f][c]
            < mesh.vertex_list().len() by {
            assert(mesh.face_list()[f] == faces@[f]);
        }
    }
    if read_normals {
        let ghost before = mesh;
        mesh.set_normals(normals.as_slice());
        proof {
            assert forall|f: int, c: int| 0 <= f < mesh.face_list().len() && 0 <= c < 3 implies {
                &&& #[trigger] mesh.face_list()[f][c] < mesh.vertex_list().len()
                &&& mesh.normal_list() matches Some(n) ==> mesh.face_list()[f][c] < n.len()
            } by {
                assert(mesh.face_list()[f] == before.face_list()[f]);
                assert(before.face_list()[f][c] < before.vertex_list().len());
            }
        }
    } else {
        mesh.compute_vertex_normals_par();
    }
    Ok(mesh)
}

} // verus!
