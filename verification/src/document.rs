//! The statements of an OBJ document, checked line by line.
//!
//! The comments of the document are taken out first, and with them the lines
//! of segments, which make no faces, and the weight of a position, which
//! changes nothing. The white space around the keyword of a `mtllib` or a
//! `usemtl` line is made plain, so that the names of the line are found
//! whatever white space the document has there.
//! A line is known by its first word. `v`, `vt` and `vn` each add one element
//! to the pool of positions, texture coordinates or normals, and start with
//! three, two and three numbers; a position may go on with a weight or with
//! the three parts of a colour. `f` is a face of three references or more,
//! and `l`, a line of segments, has references of the same form. Each
//! reference of such a line has to resolve, by itself, to elements that the
//! pools hold at that line: the references of one face may leave out
//! different parts. A `mtllib` line asks for the material libraries whose
//! names follow its keyword. Every other line is passed over.

use crate::error::ObjError;
use crate::face::{face_vertex, parse_face_vertex, PoolSizes, RefFault};
use crate::number::{has_numbers, line_has_numbers};
use crate::text::{
    at_line_end, count_words, is_line_end, lemma_line_end_bounds, lemma_skip_blanks_bounds,
    lemma_line_start, lemma_word_end_bounds, line_end, line_end_from, line_start, skip_blanks,
    skip_blanks_from, strip_comments, without_comments, word_end, word_end_from, words_from,
    LINE_FEED, SPACE, TAB,
};
use crate::texture::{decoded, text_of};
use vstd::prelude::*;
use vstd::slice::slice_subrange;

verus! {

/// What the first word of a line says the line is.
#[derive(Debug, Clone, Copy, PartialEq, Eq, Structural)]
pub enum Keyword {
    /// `v`: a position.
    Position,
    /// `vt`: a texture coordinate.
    Texcoord,
    /// `vn`: a normal.
    Normal,
    /// `f`: a face.
    Face,
    /// `l`: a line of segments.
    Polyline,
    /// `mtllib`: material libraries.
    Library,
    /// `usemtl`: the material of the faces that follow.
    Material,
    /// Any other word.
    Other,
}

/// What the word `w` says a line is.
pub open spec fn keyword(w: Seq<u8>) -> Keyword {
    if w.len() == 1 && w[0] == 'v' as u8 {
        Keyword::Position
    } else if w.len() == 2 && w[0] == 'v' as u8 && w[1] == 't' as u8 {
        Keyword::Texcoord
    } else if w.len() == 2 && w[0] == 'v' as u8 && w[1] == 'n' as u8 {
        Keyword::Normal
    } else if w.len() == 1 && w[0] == 'f' as u8 {
        Keyword::Face
    } else if w.len() == 1 && w[0] == 'l' as u8 {
        Keyword::Polyline
    } else if w.len() == 6 && w[0] == 'm' as u8 && w[1] == 't' as u8 && w[2] == 'l' as u8 && w[3]
        == 'l' as u8 && w[4] == 'i' as u8 && w[5] == 'b' as u8 {
        Keyword::Library
    } else if w.len() == 6 && w[0] == 'u' as u8 && w[1] == 's' as u8 && w[2] == 'e' as u8 && w[3]
        == 'm' as u8 && w[4] == 't' as u8 && w[5] == 'l' as u8 {
        Keyword::Material
    } else {
        Keyword::Other
    }
}

/// The number of references that the line holds from `i` on, added to
/// `count`; or why the first of them that does not resolve is refused. Each
/// reference resolves by itself: one face may hold references that leave out
/// different parts.
pub open spec fn references_from(s: Seq<u8>, i: int, count: nat, pools: PoolSizes) -> Result<
    nat,
    RefFault,
>
    decreases s.len() - i,
{
    let a = skip_blanks(s, i);
    if i < 0 || i > s.len() || at_line_end(s, a) {
        Ok(count)
    } else {
        let b = word_end(s, a);
        match face_vertex(s.subrange(a, b), pools) {
            Err(f) => Err(f),
            Ok(_) => {
                proof {
                    lemma_skip_blanks_bounds(s, i);
                    lemma_word_end_bounds(s, a);
                }
                references_from(s, b, count + 1, pools)
            },
        }
    }
}

/// Whether the words of a position that follow its keyword at `i` are
/// numbers: its three coordinates and then nothing, a weight, or the three
/// parts of a colour.
pub open spec fn position_accepted(s: Seq<u8>, i: int) -> bool {
    let words = words_from(s, i);
    (words == 3 || words == 4 || words == 6) && has_numbers(s, i, words)
}

/// Whether a face of `count` vertices is accepted: it has three or more.
pub open spec fn arity_accepted(count: nat) -> bool {
    count >= 3
}

/// The sizes of the pools after the line that starts at `i`, or why the line
/// is refused.
pub open spec fn line_verdict(s: Seq<u8>, i: int, pools: PoolSizes) -> Result<
    PoolSizes,
    RefFault,
> {
    let a = skip_blanks(s, i);
    if at_line_end(s, a) {
        Ok(pools)
    } else {
        let b = word_end(s, a);
        match keyword(s.subrange(a, b)) {
            Keyword::Position => if position_accepted(s, b) {
                Ok(PoolSizes { positions: (pools.positions + 1) as usize, ..pools })
            } else {
                Err(RefFault::Numeric)
            },
            Keyword::Texcoord => if has_numbers(s, b, 2) {
                Ok(PoolSizes { texcoords: (pools.texcoords + 1) as usize, ..pools })
            } else {
                Err(RefFault::Numeric)
            },
            Keyword::Normal => if has_numbers(s, b, 3) {
                Ok(PoolSizes { normals: (pools.normals + 1) as usize, ..pools })
            } else {
                Err(RefFault::Numeric)
            },
            Keyword::Face => match references_from(s, b, 0, pools) {
                Err(f) => Err(f),
                Ok(count) => if arity_accepted(count) {
                    Ok(pools)
                } else {
                    Err(RefFault::Malformed)
                },
            },
            Keyword::Polyline => match references_from(s, b, 0, pools) {
                Err(f) => Err(f),
                Ok(_) => Ok(pools),
            },
            _ => Ok(pools),
        }
    }
}

/// The error that stands for the fault `f` on the line `line`, counted from 1.
pub open spec fn fault_at(f: RefFault, line: usize) -> ObjError {
    match f {
        RefFault::Malformed => ObjError::MalformedFaceError { line },
        RefFault::Numeric => ObjError::NumericParseError { line },
        RefFault::OutOfRange => ObjError::IndexOutOfRangeError { line },
    }
}

/// The verdict on the lines from `i` on, of which `before` lines come before
/// `i` and have left the pools at `pools`: the error of the first line that
/// is refused.
pub open spec fn verdict_from(s: Seq<u8>, i: int, before: nat, pools: PoolSizes) -> Result<
    (),
    ObjError,
>
    decreases s.len() - i,
{
    if i < 0 || i >= s.len() {
        Ok(())
    } else {
        match line_verdict(s, i, pools) {
            Err(f) => Err(fault_at(f, (before + 1) as usize)),
            Ok(next) => {
                if line_end(s, i) >= s.len() {
                    Ok(())
                } else {
                    proof {
                        lemma_line_end_bounds(s, i);
                    }
                    verdict_from(s, line_end(s, i) + 1, before + 1, next)
                }
            },
        }
    }
}

/// The verdict on a text without comments: `Ok` where every position,
/// texture coordinate and normal starts with its numbers, every face and
/// every line of segments has well-formed references that resolve inside the
/// pools, and every face has three vertices or more; else the error of the
/// first line that fails, with its number counted from 1.
pub open spec fn text_verdict(s: Seq<u8>) -> Result<(), ObjError> {
    verdict_from(s, 0, 0, PoolSizes { positions: 0, texcoords: 0, normals: 0 })
}

/// The place after the `k` words that follow `i` on the line.
pub open spec fn after_words(s: Seq<u8>, i: int, k: nat) -> int
    decreases k,
{
    if k == 0 {
        i
    } else {
        after_words(s, word_end(s, skip_blanks(s, i)), (k - 1) as nat)
    }
}

/// The place from which the line that starts at `i` is not read: the start
/// of a line of segments; the weight of a position, where the position is
/// four numbers; else the end of the line.
pub open spec fn unread_from(s: Seq<u8>, i: int) -> int {
    let a = skip_blanks(s, i);
    let b = word_end(s, a);
    if at_line_end(s, a) {
        line_end(s, i)
    } else if keyword(s.subrange(a, b)) == Keyword::Polyline {
        i
    } else if keyword(s.subrange(a, b)) == Keyword::Position && words_from(s, b) == 4
        && has_numbers(s, b, 4) {
        after_words(s, b, 3)
    } else {
        line_end(s, i)
    }
}

/// Whether the line that starts at `i` is one of which the parser takes
/// what stands behind the first space of the line for a name: a `mtllib` or
/// a `usemtl` line.
pub open spec fn takes_name(s: Seq<u8>, i: int) -> bool {
    let a = skip_blanks(s, i);
    let k = keyword(s.subrange(a, word_end(s, a)));
    !at_line_end(s, a) && (k == Keyword::Library || k == Keyword::Material)
}

/// The byte that stands for the byte at `i` in what is read of the text.
///
/// A space stands for every byte of a line from `unread_from` on. In a line
/// of which the parser takes a name, a tab stands for every space before the
/// keyword and a space for every byte of the white space between the keyword
/// and the word after it: the first space of the line is then the end of the
/// keyword, whatever white space the document has there.
pub open spec fn read_byte(s: Seq<u8>, i: int) -> u8 {
    let start = line_start(s, i);
    let a = skip_blanks(s, start);
    let b = word_end(s, a);
    if s[i] == LINE_FEED {
        s[i]
    } else if i >= unread_from(s, start) {
        SPACE
    } else if takes_name(s, start) && i < a && s[i] == SPACE {
        TAB
    } else if takes_name(s, start) && b <= i < skip_blanks(s, b) {
        SPACE
    } else {
        s[i]
    }
}

/// The text without what is not read of it, and with the white space around
/// the keywords of its names made plain, as `read_byte` says: every line
/// keeps its place and its words.
pub open spec fn without_unread(s: Seq<u8>) -> Seq<u8> {
    Seq::new(s.len(), |i: int| read_byte(s, i))
}

/// What is read of a document: the document without its comments, its lines
/// of segments and the weights of its positions.
pub open spec fn plain_text(s: Seq<u8>) -> Seq<u8> {
    without_unread(without_comments(s))
}

/// The verdict on a whole document: that of `text_verdict` on what is read
/// of the document.
pub open spec fn document_verdict(s: Seq<u8>) -> Result<(), ObjError> {
    text_verdict(plain_text(s))
}

/// What the word `bytes[a..b]` says a line is.
pub fn classify(bytes: &[u8], a: usize, b: usize) -> (k: Keyword)
    requires
        a <= b <= bytes.len(),
    ensures
        k == keyword(bytes@.subrange(a as int, b as int)),
{
    let n = b - a;
    if n == 1 {
        let c = bytes[a];
        if c == 'v' as u8 {
            Keyword::Position
        } else if c == 'f' as u8 {
            Keyword::Face
        } else if c == 'l' as u8 {
            Keyword::Polyline
        } else {
            Keyword::Other
        }
    } else if n == 2 {
        if bytes[a] == 'v' as u8 && bytes[a + 1] == 't' as u8 {
            Keyword::Texcoord
        } else if bytes[a] == 'v' as u8 && bytes[a + 1] == 'n' as u8 {
            Keyword::Normal
        } else {
            Keyword::Other
        }
    } else if n == 6 {
        if bytes[a] == 'm' as u8 && bytes[a + 1] == 't' as u8 && bytes[a + 2] == 'l' as u8
            && bytes[a + 3] == 'l' as u8 && bytes[a + 4] == 'i' as u8 && bytes[a + 5]
            == 'b' as u8 {
            Keyword::Library
        } else if bytes[a] == 'u' as u8 && bytes[a + 1] == 's' as u8 && bytes[a + 2] == 'e' as u8
            && bytes[a + 3] == 'm' as u8 && bytes[a + 4] == 't' as u8 && bytes[a + 5]
            == 'l' as u8 {
            Keyword::Material
        } else {
            Keyword::Other
        }
    } else {
        Keyword::Other
    }
}

/// Counts the references of a line from `from` on and resolves each of them.
fn check_references(bytes: &[u8], from: usize, pools: PoolSizes) -> (r: Result<usize, RefFault>)
    requires
        from <= bytes.len(),
    ensures
        match r {
            Ok(n) => references_from(bytes@, from as int, 0, pools) == Ok::<nat, RefFault>(
                n as nat,
            ),
            Err(f) => references_from(bytes@, from as int, 0, pools) == Err::<nat, RefFault>(f),
        },
{
    let mut j = from;
    let mut count: usize = 0;
    loop
        invariant
            from <= j <= bytes.len(),
            count <= j - from,
            references_from(bytes@, from as int, 0, pools) == references_from(
                bytes@,
                j as int,
                count as nat,
                pools,
            ),
        decreases bytes.len() - j,
    {
        let a = skip_blanks_from(bytes, j);
        if is_line_end(bytes, a) {
            return Ok(count);
        }
        proof {
            lemma_skip_blanks_bounds(bytes@, j as int);
            lemma_word_end_bounds(bytes@, a as int);
        }
        let b = word_end_from(bytes, a);
        match parse_face_vertex(slice_subrange(bytes, a, b), pools) {
            Err(f) => {
                return Err(f);
            },
            Ok(_) => {},
        }
        count = count + 1;
        j = b;
    }
}

/// Checks the line that starts at `i` against the pools as they stand there.
pub fn check_line(bytes: &[u8], i: usize, pools: PoolSizes) -> (r: Result<PoolSizes, RefFault>)
    requires
        i <= bytes.len(),
        pools.positions < usize::MAX,
        pools.texcoords < usize::MAX,
        pools.normals < usize::MAX,
    ensures
        r == line_verdict(bytes@, i as int, pools),
{
    let a = skip_blanks_from(bytes, i);
    if is_line_end(bytes, a) {
        return Ok(pools);
    }
    let b = word_end_from(bytes, a);
    match classify(bytes, a, b) {
        Keyword::Position => {
            let words = count_words(bytes, b);
            if (words == 3 || words == 4 || words == 6) && line_has_numbers(bytes, b, words) {
                Ok(PoolSizes { positions: pools.positions + 1, ..pools })
            } else {
                Err(RefFault::Numeric)
            }
        },
        Keyword::Texcoord => if line_has_numbers(bytes, b, 2) {
            Ok(PoolSizes { texcoords: pools.texcoords + 1, ..pools })
        } else {
            Err(RefFault::Numeric)
        },
        Keyword::Normal => if line_has_numbers(bytes, b, 3) {
            Ok(PoolSizes { normals: pools.normals + 1, ..pools })
        } else {
            Err(RefFault::Numeric)
        },
        Keyword::Face => match check_references(bytes, b, pools) {
            Err(f) => Err(f),
            Ok(count) => if count >= 3 {
                Ok(pools)
            } else {
                Err(RefFault::Malformed)
            },
        },
        Keyword::Polyline => match check_references(bytes, b, pools) {
            Err(f) => Err(f),
            Ok(_) => Ok(pools),
        },
        _ => Ok(pools),
    }
}

/// Finds the place after the `k` words that follow `i` on the line.
fn after_words_from(bytes: &[u8], i: usize, k: usize) -> (r: usize)
    requires
        i <= bytes.len(),
    ensures
        r == after_words(bytes@, i as int, k as nat),
        i <= r <= bytes.len(),
{
    let mut j = i;
    let mut left = k;
    while left > 0
        invariant
            i <= j <= bytes.len(),
            after_words(bytes@, i as int, k as nat) == after_words(bytes@, j as int, left as nat),
        decreases left,
    {
        let a = skip_blanks_from(bytes, j);
        j = word_end_from(bytes, a);
        left = left - 1;
    }
    j
}

/// Finds the place from which the line that starts at `i` and ends at `e` is
/// not read.
fn unread_start(bytes: &[u8], i: usize, e: usize) -> (r: usize)
    requires
        i <= e <= bytes.len(),
        e == line_end(bytes@, i as int),
    ensures
        r == unread_from(bytes@, i as int),
        r <= bytes.len(),
{
    let a = skip_blanks_from(bytes, i);
    if is_line_end(bytes, a) {
        return e;
    }
    let b = word_end_from(bytes, a);
    match classify(bytes, a, b) {
        Keyword::Polyline => i,
        Keyword::Position => {
            if count_words(bytes, b) == 4 && line_has_numbers(bytes, b, 4) {
                after_words_from(bytes, b, 3)
            } else {
                e
            }
        },
        _ => e,
    }
}

/// Takes out of a text what is not read of it, as `without_unread` says.
pub fn strip_unread(bytes: &[u8]) -> (r: Vec<u8>)
    ensures
        r@ == without_unread(bytes@),
{
    let ghost target = without_unread(bytes@);
    let mut out: Vec<u8> = Vec::new();
    let mut i: usize = 0;
    while i < bytes.len()
        invariant
            i <= bytes.len(),
            i < bytes.len() ==> i == 0 || bytes@[i - 1] == LINE_FEED,
            target == without_unread(bytes@),
            out@.len() == i,
            forall|j: int| 0 <= j < i ==> out@[j] == target[j],
        decreases bytes.len() - i,
    {
        let e = line_end_from(bytes, i);
        let cut = unread_start(bytes, i, e);
        let a = skip_blanks_from(bytes, i);
        let b = word_end_from(bytes, a);
        let c = skip_blanks_from(bytes, b);
        let named = !is_line_end(bytes, a) && match classify(bytes, a, b) {
            Keyword::Library => true,
            Keyword::Material => true,
            _ => false,
        };
        let mut j = i;
        while j < bytes.len() && bytes[j] != LINE_FEED
            invariant
                i <= j <= bytes.len(),
                i == 0 || bytes@[i - 1] == LINE_FEED,
                cut == unread_from(bytes@, i as int),
                a == skip_blanks(bytes@, i as int),
                b == word_end(bytes@, a as int),
                c == skip_blanks(bytes@, b as int),
                named == takes_name(bytes@, i as int),
                target == without_unread(bytes@),
                forall|k: int| i <= k < j ==> bytes@[k] != LINE_FEED,
                out@.len() == j,
                forall|k: int| 0 <= k < j ==> out@[k] == target[k],
            decreases bytes.len() - j,
        {
            proof {
                lemma_line_start(bytes@, i as int, j as int);
            }
            let byte = if j >= cut {
                SPACE
            } else if named && j < a && bytes[j] == SPACE {
                TAB
            } else if named && b <= j && j < c {
                SPACE
            } else {
                bytes[j]
            };
            assert(byte == read_byte(bytes@, j as int));
            out.push(byte);
            j = j + 1;
        }
        if j < bytes.len() {
            out.push(LINE_FEED);
            j = j + 1;
        }
        i = j;
    }
    assert(out@ =~= target);
    out
}

/// What is read of a document, as `plain_text` says.
pub fn read_text(bytes: &[u8]) -> (r: Vec<u8>)
    ensures
        r@ == plain_text(bytes@),
{
    let text = strip_comments(bytes);
    strip_unread(text.as_slice())
}

/// Checks a document line by line, as `document_verdict` says.
pub fn check_document(bytes: &[u8]) -> (r: Result<(), ObjError>)
    ensures
        r == document_verdict(bytes@),
{
    let text = read_text(bytes);
    check_text(text.as_slice())
}

/// Checks a text without comments line by line, as `text_verdict` says.
pub fn check_text(bytes: &[u8]) -> (r: Result<(), ObjError>)
    ensures
        r == text_verdict(bytes@),
{
    let mut i: usize = 0;
    let mut before: usize = 0;
    let mut pools = PoolSizes { positions: 0, texcoords: 0, normals: 0 };
    while i < bytes.len()
        invariant
            i <= bytes.len(),
            before <= i,
            pools.positions <= before,
            pools.texcoords <= before,
            pools.normals <= before,
            text_verdict(bytes@) == verdict_from(bytes@, i as int, before as nat, pools),
        decreases bytes.len() - i,
    {
        match check_line(bytes, i, pools) {
            Err(f) => {
                let line = before + 1;
                return Err(
                    match f {
                        RefFault::Malformed => ObjError::MalformedFaceError { line },
                        RefFault::Numeric => ObjError::NumericParseError { line },
                        RefFault::OutOfRange => ObjError::IndexOutOfRangeError { line },
                    },
                );
            },
            Ok(next) => {
                pools = next;
            },
        }
        let e = line_end_from(bytes, i);
        before = before + 1;
        if e == bytes.len() {
            return Ok(());
        }
        i = e + 1;
    }
    Ok(())
}

/// The end of the last word of the line at or after `i`; `i` where no word
/// follows.
pub open spec fn last_word_end(s: Seq<u8>, i: int) -> int
    decreases s.len() - i,
{
    let a = skip_blanks(s, i);
    if i < 0 || i > s.len() || at_line_end(s, a) {
        i
    } else {
        proof {
            lemma_skip_blanks_bounds(s, i);
            lemma_word_end_bounds(s, a);
        }
        last_word_end(s, word_end(s, a))
    }
}

/// What follows the keyword of the line that starts at `i`, from the first
/// word after it to the end of the last word of the line.
pub open spec fn requested_name(s: Seq<u8>, i: int) -> Seq<u8> {
    let a = skip_blanks(s, word_end(s, skip_blanks(s, i)));
    s.subrange(a, last_word_end(s, a))
}

/// The words of `request` from `i` on that are text, in their order.
pub open spec fn names_from(request: Seq<u8>, i: int) -> Seq<Seq<char>>
    decreases request.len() - i,
{
    let a = skip_blanks(request, i);
    if i < 0 || i > request.len() || at_line_end(request, a) {
        Seq::empty()
    } else {
        let b = word_end(request, a);
        proof {
            lemma_skip_blanks_bounds(request, i);
            lemma_word_end_bounds(request, a);
        }
        (match decoded(request.subrange(a, b)) {
            Some(name) => seq![name],
            None => Seq::empty(),
        }) + names_from(request, b)
    }
}

/// Whether the first word of the line that starts at `i` is `mtllib`.
pub open spec fn is_library_line(s: Seq<u8>, i: int) -> bool {
    let a = skip_blanks(s, i);
    !at_line_end(s, a) && keyword(s.subrange(a, word_end(s, a))) == Keyword::Library
}

/// The names that the line which starts at `i` adds to the requests: the
/// words that follow the keyword of a `mtllib` line.
pub open spec fn line_request(s: Seq<u8>, i: int) -> Seq<Seq<char>> {
    if is_library_line(s, i) {
        names_from(requested_name(s, i), 0)
    } else {
        Seq::empty()
    }
}

/// The names that the lines from `i` on ask for, in their order.
pub open spec fn requests_from(s: Seq<u8>, i: int) -> Seq<Seq<char>>
    decreases s.len() - i,
{
    if i < 0 || i >= s.len() {
        Seq::empty()
    } else if line_end(s, i) >= s.len() {
        line_request(s, i)
    } else {
        proof {
            lemma_line_end_bounds(s, i);
        }
        line_request(s, i) + requests_from(s, line_end(s, i) + 1)
    }
}

/// The file names of the material libraries that a document asks for: the
/// words that follow the keyword on each `mtllib` line of what is read of
/// the document, in their order.
pub open spec fn requested_libraries(s: Seq<u8>) -> Seq<Seq<char>> {
    requests_from(plain_text(s), 0)
}

/// What a sequence of texts holds.
pub open spec fn texts_view(texts: Seq<String>) -> Seq<Seq<char>> {
    Seq::new(texts.len(), |k: int| texts[k]@)
}

/// Finds the end of the last word of the line at or after `i`.
fn last_word_end_from(bytes: &[u8], i: usize) -> (r: usize)
    requires
        i <= bytes.len(),
    ensures
        r == last_word_end(bytes@, i as int),
        i <= r <= bytes.len(),
{
    let mut j = i;
    loop
        invariant
            i <= j <= bytes.len(),
            last_word_end(bytes@, i as int) == last_word_end(bytes@, j as int),
        decreases bytes.len() - j,
    {
        let a = skip_blanks_from(bytes, j);
        if is_line_end(bytes, a) {
            return j;
        }
        proof {
            lemma_skip_blanks_bounds(bytes@, j as int);
            lemma_word_end_bounds(bytes@, a as int);
        }
        j = word_end_from(bytes, a);
    }
}

/// What follows the keyword of the line that starts at `i`.
pub fn request_of_line<'a>(bytes: &'a [u8], i: usize) -> (r: &'a [u8])
    requires
        i <= bytes.len(),
    ensures
        r@ == requested_name(bytes@, i as int),
{
    let k = skip_blanks_from(bytes, i);
    let a = skip_blanks_from(bytes, word_end_from(bytes, k));
    let b = last_word_end_from(bytes, a);
    slice_subrange(bytes, a, b)
}

/// Appends the words of `request` that are text to `out`.
pub fn push_names(out: &mut Vec<String>, request: &[u8])
    ensures
        texts_view(final(out)@) == texts_view(old(out)@) + names_from(request@, 0),
{
    let ghost before = texts_view(out@);
    let ghost mut found: Seq<Seq<char>> = Seq::empty();
    let mut i: usize = 0;
    assert(texts_view(out@) =~= before + found);
    loop
        invariant
            i <= request.len(),
            before == texts_view(old(out)@),
            texts_view(out@) == before + found,
            names_from(request@, 0) == found + names_from(request@, i as int),
        decreases request.len() - i,
    {
        let a = skip_blanks_from(request, i);
        if is_line_end(request, a) {
            assert(names_from(request@, i as int) =~= Seq::<Seq<char>>::empty());
            assert(texts_view(out@) =~= before + names_from(request@, 0));
            return ;
        }
        proof {
            lemma_skip_blanks_bounds(request@, i as int);
            lemma_word_end_bounds(request@, a as int);
        }
        let b = word_end_from(request, a);
        let ghost held = texts_view(out@);
        match text_of(slice_subrange(request, a, b)) {
            Some(name) => {
                out.push(name);
                proof {
                    assert(texts_view(out@) =~= held.push(name@));
                    assert(names_from(request@, 0) =~= found.push(name@) + names_from(
                        request@,
                        b as int,
                    ));
                    found = found.push(name@);
                    assert(texts_view(out@) =~= before + found);
                }
            },
            None => {
                assert(names_from(request@, i as int) =~= names_from(request@, b as int));
            },
        }
        i = b;
    }
}

/// The file names of the material libraries that a document asks for, as
/// `requested_libraries` says.
///
/// A host reads the files of these names and hands them to the loader of
/// scenes.
pub fn library_requests(bytes: &[u8]) -> (r: Vec<String>)
    ensures
        texts_view(r@) == requested_libraries(bytes@),
{
    let text = read_text(bytes);
    text_requests(text.as_slice())
}

/// The file names that the `mtllib` lines of a text without comments ask
/// for.
pub fn text_requests(bytes: &[u8]) -> (r: Vec<String>)
    ensures
        texts_view(r@) == requests_from(bytes@, 0),
{
    let mut out: Vec<String> = Vec::new();
    let mut i: usize = 0;
    assert(texts_view(out@) =~= Seq::<Seq<char>>::empty());
    while i < bytes.len()
        invariant
            i <= bytes.len(),
            requests_from(bytes@, 0) == texts_view(out@) + requests_from(bytes@, i as int),
        decreases bytes.len() - i,
    {
        let a = skip_blanks_from(bytes, i);
        let ghost before = texts_view(out@);
        if !is_line_end(bytes, a) {
            let b = word_end_from(bytes, a);
            match classify(bytes, a, b) {
                Keyword::Library => {
                    push_names(&mut out, request_of_line(bytes, i));
                },
                _ => {},
            }
        }
        assert(texts_view(out@) =~= before + line_request(bytes@, i as int));
        let e = line_end_from(bytes, i);
        if e == bytes.len() {
            assert(requests_from(bytes@, 0) =~= texts_view(out@));
            return out;
        }
        assert(before + (line_request(bytes@, i as int) + requests_from(bytes@, e + 1)) =~= (before
            + line_request(bytes@, i as int)) + requests_from(bytes@, e + 1));
        i = e + 1;
    }
    assert(requests_from(bytes@, 0) =~= texts_view(out@));
    out
}

} // verus!
