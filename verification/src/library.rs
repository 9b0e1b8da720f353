//! The statements of an MTL material library, checked line by line.
//!
//! The comments of the library are taken out first. `newmtl` starts a
//! material. The lines `Ka`, `Kd`, `Ks` and `Ke` give a colour as three
//! numbers, which are red, green and blue, or, after the word `xyz`, the
//! three parts of a colour of CIE XYZ; the word is noted and taken out. The
//! lines `Ns`, `Ni`, `d`, `Pr`, `Pm`, `Pc`, `Pcr`, `aniso` and `anisor` give
//! one number. A library is complete where each of these lines holds its
//! numbers after its first word.

use crate::error::ObjError;
use crate::number::{has_numbers, line_has_numbers};
use crate::text::{
    at_line_end, is_line_end, lemma_line_end_bounds, lemma_line_start, line_end, line_end_from,
    line_start, skip_blanks, skip_blanks_from, space_len, strip_comments, without_comments,
    word_end, word_end_from, LINE_FEED, SPACE,
};
use vstd::prelude::*;

verus! {

/// What the first word of a line of a library says the line is.
#[derive(Debug, Clone, Copy, PartialEq, Eq, Structural)]
pub enum Statement {
    /// `newmtl`: the start of a material.
    Material,
    /// `Ka`: the ambient colour.
    Ambient,
    /// `Kd`: the diffuse colour.
    Diffuse,
    /// `Ks`: the specular colour.
    Specular,
    /// `Ke`: the emissive colour.
    Emissive,
    /// `Ns`, `Ni`, `d`, `Pr`, `Pm`, `Pc`, `Pcr`, `aniso` or `anisor`: one
    /// number.
    Scalar,
    /// Any other word.
    Other,
}

/// Whether the word `w` starts a single number.
pub open spec fn is_scalar_keyword(w: Seq<u8>) -> bool {
    ||| (w.len() == 1 && w[0] == 'd' as u8)
    ||| (w.len() == 2 && w[0] == 'N' as u8 && (w[1] == 's' as u8 || w[1] == 'i' as u8))
    ||| (w.len() == 2 && w[0] == 'P' as u8 && (w[1] == 'r' as u8 || w[1] == 'm' as u8 || w[1]
        == 'c' as u8))
    ||| (w.len() == 3 && w[0] == 'P' as u8 && w[1] == 'c' as u8 && w[2] == 'r' as u8)
    ||| (w.len() >= 5 && w.len() <= 6 && w[0] == 'a' as u8 && w[1] == 'n' as u8 && w[2]
        == 'i' as u8 && w[3] == 's' as u8 && w[4] == 'o' as u8 && (w.len() == 6 ==> w[5]
        == 'r' as u8))
}

/// What the word `w` says a line is.
pub open spec fn statement(w: Seq<u8>) -> Statement {
    if w.len() == 6 && w[0] == 'n' as u8 && w[1] == 'e' as u8 && w[2] == 'w' as u8 && w[3]
        == 'm' as u8 && w[4] == 't' as u8 && w[5] == 'l' as u8 {
        Statement::Material
    } else if w.len() == 2 && w[0] == 'K' as u8 && w[1] == 'a' as u8 {
        Statement::Ambient
    } else if w.len() == 2 && w[0] == 'K' as u8 && w[1] == 'd' as u8 {
        Statement::Diffuse
    } else if w.len() == 2 && w[0] == 'K' as u8 && w[1] == 's' as u8 {
        Statement::Specular
    } else if w.len() == 2 && w[0] == 'K' as u8 && w[1] == 'e' as u8 {
        Statement::Emissive
    } else if is_scalar_keyword(w) {
        Statement::Scalar
    } else {
        Statement::Other
    }
}

/// What the line that starts at `i` is; `Other` for a line without words.
pub open spec fn line_statement(s: Seq<u8>, i: int) -> Statement {
    let a = skip_blanks(s, i);
    if at_line_end(s, a) {
        Statement::Other
    } else {
        statement(s.subrange(a, word_end(s, a)))
    }
}

/// Whether the statement gives a colour.
pub open spec fn is_color(statement: Statement) -> bool {
    statement == Statement::Ambient || statement == Statement::Diffuse || statement
        == Statement::Specular || statement == Statement::Emissive
}

/// How many numbers the statement asks for.
pub open spec fn numbers_of(statement: Statement) -> nat {
    if is_color(statement) {
        3
    } else if statement == Statement::Scalar {
        1
    } else {
        0
    }
}

/// The place where the second word of the line that starts at `i` starts.
pub open spec fn second_word(s: Seq<u8>, i: int) -> int {
    skip_blanks(s, word_end(s, skip_blanks(s, i)))
}

/// Whether the word `w` is `xyz`.
pub open spec fn is_xyz(w: Seq<u8>) -> bool {
    w.len() == 3 && w[0] == 'x' as u8 && w[1] == 'y' as u8 && w[2] == 'z' as u8
}

/// Whether the line that starts at `i` gives a colour of CIE XYZ: it is a
/// colour, and its second word is `xyz`.
pub open spec fn names_xyz(s: Seq<u8>, i: int) -> bool {
    let a = second_word(s, i);
    is_color(line_statement(s, i)) && !at_line_end(s, a) && is_xyz(s.subrange(a, word_end(s, a)))
}

/// The text without the word `xyz` of its colours: a space stands for every
/// byte of the word.
pub open spec fn without_xyz(s: Seq<u8>) -> Seq<u8> {
    Seq::new(
        s.len(),
        |i: int|
            {
                let start = line_start(s, i);
                let a = second_word(s, start);
                if names_xyz(s, start) && a <= i && i < word_end(s, a) {
                    SPACE
                } else {
                    s[i]
                }
            },
    )
}

/// What is read of a library: the library without its comments and without
/// the word `xyz` of its colours.
pub open spec fn plain_library(s: Seq<u8>) -> Seq<u8> {
    without_xyz(without_comments(s))
}

/// Whether the line that starts at `i` holds the numbers that its first word
/// asks for.
pub open spec fn line_complete(s: Seq<u8>, i: int) -> bool {
    let a = skip_blanks(s, i);
    at_line_end(s, a) || has_numbers(s, word_end(s, a), numbers_of(line_statement(s, i)))
}

/// The verdict on the lines from `i` on, of which `before` lines come before
/// `i`: the error of the first line that lacks a number.
pub open spec fn library_verdict_from(s: Seq<u8>, i: int, before: nat) -> Result<(), ObjError>
    decreases s.len() - i,
{
    if i < 0 || i >= s.len() {
        Ok(())
    } else if !line_complete(s, i) {
        Err(ObjError::NumericParseError { line: (before + 1) as usize })
    } else if line_end(s, i) >= s.len() {
        Ok(())
    } else {
        proof {
            lemma_line_end_bounds(s, i);
        }
        library_verdict_from(s, line_end(s, i) + 1, before + 1)
    }
}

/// The verdict on a text without comments and without the word `xyz`: `Ok`
/// where every colour has its three numbers and every scalar its one; else
/// `NumericParseError` with the number, counted from 1, of the first line
/// that has not.
pub open spec fn library_text_verdict(s: Seq<u8>) -> Result<(), ObjError> {
    library_verdict_from(s, 0, 0)
}

/// The verdict on a whole library: that of `library_text_verdict` on what is
/// read of the library.
pub open spec fn library_verdict(s: Seq<u8>) -> Result<(), ObjError> {
    library_text_verdict(plain_library(s))
}

/// Which of the colours of a material are colours of CIE XYZ, not of red,
/// green and blue.
#[derive(Debug, Clone, Copy, PartialEq, Eq, Structural)]
pub struct ColorSpaces {
    /// The diffuse colour.
    pub diffuse_xyz: bool,
    /// The specular colour.
    pub specular_xyz: bool,
    /// The emissive colour.
    pub emissive_xyz: bool,
}

/// The colours of a material that gives none.
pub open spec fn plain_colors() -> ColorSpaces {
    ColorSpaces { diffuse_xyz: false, specular_xyz: false, emissive_xyz: false }
}

/// The colour spaces of the materials after the line that starts at `i`,
/// where `before` are those of the materials up to that line: `newmtl` starts
/// a material; a colour of the last material is noted as its line names it.
pub open spec fn spaces_after_line(s: Seq<u8>, i: int, before: Seq<ColorSpaces>) -> Seq<
    ColorSpaces,
> {
    let last = before.len() - 1;
    match line_statement(s, i) {
        Statement::Material => before.push(plain_colors()),
        Statement::Diffuse => if before.len() > 0 {
            before.update(last, ColorSpaces { diffuse_xyz: names_xyz(s, i), ..before[last] })
        } else {
            before
        },
        Statement::Specular => if before.len() > 0 {
            before.update(last, ColorSpaces { specular_xyz: names_xyz(s, i), ..before[last] })
        } else {
            before
        },
        Statement::Emissive => if before.len() > 0 {
            before.update(last, ColorSpaces { emissive_xyz: names_xyz(s, i), ..before[last] })
        } else {
            before
        },
        _ => before,
    }
}

/// The colour spaces of the materials after the lines from `i` on.
pub open spec fn spaces_from(s: Seq<u8>, i: int, before: Seq<ColorSpaces>) -> Seq<ColorSpaces>
    decreases s.len() - i,
{
    if i < 0 || i >= s.len() {
        before
    } else if line_end(s, i) >= s.len() {
        spaces_after_line(s, i, before)
    } else {
        proof {
            lemma_line_end_bounds(s, i);
        }
        spaces_from(s, line_end(s, i) + 1, spaces_after_line(s, i, before))
    }
}

/// The colour spaces of the materials of a library, in the order of its
/// `newmtl` lines.
pub open spec fn library_spaces(s: Seq<u8>) -> Seq<ColorSpaces> {
    spaces_from(without_comments(s), 0, Seq::empty())
}

/// A word does not go on beyond a line feed.
pub proof fn lemma_word_stops_at(s: Seq<u8>, a: int, j: int)
    requires
        0 <= a <= j < s.len(),
        s[j] == LINE_FEED,
    ensures
        word_end(s, a) <= j,
    decreases j - a,
{
    if a < j && space_len(s, a) == 0 {
        lemma_word_stops_at(s, a + 1, j);
    }
}

/// What the word `bytes[a..b]` says a line is.
pub fn classify_statement(bytes: &[u8], a: usize, b: usize) -> (r: Statement)
    requires
        a <= b <= bytes.len(),
    ensures
        r == statement(bytes@.subrange(a as int, b as int)),
{
    let n = b - a;
    if n == 6 && bytes[a] == 'n' as u8 && bytes[a + 1] == 'e' as u8 && bytes[a + 2] == 'w' as u8
        && bytes[a + 3] == 'm' as u8 && bytes[a + 4] == 't' as u8 && bytes[a + 5] == 'l' as u8 {
        Statement::Material
    } else if n == 2 && bytes[a] == 'K' as u8 && bytes[a + 1] == 'a' as u8 {
        Statement::Ambient
    } else if n == 2 && bytes[a] == 'K' as u8 && bytes[a + 1] == 'd' as u8 {
        Statement::Diffuse
    } else if n == 2 && bytes[a] == 'K' as u8 && bytes[a + 1] == 's' as u8 {
        Statement::Specular
    } else if n == 2 && bytes[a] == 'K' as u8 && bytes[a + 1] == 'e' as u8 {
        Statement::Emissive
    } else if (n == 1 && bytes[a] == 'd' as u8) || (n == 2 && bytes[a] == 'N' as u8 && (bytes[a
        + 1] == 's' as u8 || bytes[a + 1] == 'i' as u8)) || (n == 2 && bytes[a] == 'P' as u8 && (
    bytes[a + 1] == 'r' as u8 || bytes[a + 1] == 'm' as u8 || bytes[a + 1] == 'c' as u8)) || (n
        == 3 && bytes[a] == 'P' as u8 && bytes[a + 1] == 'c' as u8 && bytes[a + 2] == 'r' as u8)
        || (n >= 5 && n <= 6 && bytes[a] == 'a' as u8 && bytes[a + 1] == 'n' as u8 && bytes[a + 2]
        == 'i' as u8 && bytes[a + 3] == 's' as u8 && bytes[a + 4] == 'o' as u8 && (n == 5
        || bytes[a + 5] == 'r' as u8)) {
        Statement::Scalar
    } else {
        Statement::Other
    }
}

/// What the line that starts at `i` is.
pub fn statement_of_line(bytes: &[u8], i: usize) -> (r: Statement)
    requires
        i <= bytes.len(),
    ensures
        r == line_statement(bytes@, i as int),
{
    let a = skip_blanks_from(bytes, i);
    if is_line_end(bytes, a) {
        Statement::Other
    } else {
        classify_statement(bytes, a, word_end_from(bytes, a))
    }
}

/// Whether the statement gives a colour.
fn gives_color(statement: Statement) -> (r: bool)
    ensures
        r == is_color(statement),
{
    match statement {
        Statement::Ambient | Statement::Diffuse | Statement::Specular | Statement::Emissive => true,
        _ => false,
    }
}

/// Where the word `xyz` of the line that starts at `i` stands, where the
/// line gives a colour of CIE XYZ.
fn xyz_word(bytes: &[u8], i: usize) -> (r: Option<(usize, usize)>)
    requires
        i <= bytes.len(),
    ensures
        match r {
            Some((a, b)) => names_xyz(bytes@, i as int) && a == second_word(bytes@, i as int) && b
                == word_end(bytes@, a as int) && a <= b <= bytes.len(),
            None => !names_xyz(bytes@, i as int),
        },
{
    if !gives_color(statement_of_line(bytes, i)) {
        return None;
    }
    let first = skip_blanks_from(bytes, i);
    let a = skip_blanks_from(bytes, word_end_from(bytes, first));
    if is_line_end(bytes, a) {
        return None;
    }
    let b = word_end_from(bytes, a);
    if b - a == 3 && bytes[a] == 'x' as u8 && bytes[a + 1] == 'y' as u8 && bytes[a + 2]
        == 'z' as u8 {
        Some((a, b))
    } else {
        None
    }
}

/// Takes the word `xyz` out of the colours of a text, as `without_xyz` says.
pub fn strip_xyz(bytes: &[u8]) -> (r: Vec<u8>)
    ensures
        r@ == without_xyz(bytes@),
{
    let ghost target = without_xyz(bytes@);
    let mut out: Vec<u8> = Vec::new();
    let mut i: usize = 0;
    while i < bytes.len()
        invariant
            i <= bytes.len(),
            i < bytes.len() ==> i == 0 || bytes@[i - 1] == LINE_FEED,
            target == without_xyz(bytes@),
            out@.len() == i,
            forall|j: int| 0 <= j < i ==> out@[j] == target[j],
        decreases bytes.len() - i,
    {
        let word = xyz_word(bytes, i);
        let mut j = i;
        while j < bytes.len() && bytes[j] != LINE_FEED
            invariant
                i <= j <= bytes.len(),
                i == 0 || bytes@[i - 1] == LINE_FEED,
                match word {
                    Some((a, b)) => names_xyz(bytes@, i as int) && a == second_word(
                        bytes@,
                        i as int,
                    ) && b == word_end(bytes@, a as int),
                    None => !names_xyz(bytes@, i as int),
                },
                target == without_xyz(bytes@),
                forall|k: int| i <= k < j ==> bytes@[k] != LINE_FEED,
                out@.len() == j,
                forall|k: int| 0 <= k < j ==> out@[k] == target[k],
            decreases bytes.len() - j,
        {
            proof {
                lemma_line_start(bytes@, i as int, j as int);
            }
            let blank = match word {
                Some((a, b)) => a <= j && j < b,
                None => false,
            };
            out.push(if blank {
                SPACE
            } else {
                bytes[j]
            });
            j = j + 1;
        }
        if j < bytes.len() {
            proof {
                lemma_line_start(bytes@, i as int, j as int);
                let a = second_word(bytes@, i as int);
                if names_xyz(bytes@, i as int) && a <= j {
                    lemma_word_stops_at(bytes@, a, j as int);
                }
            }
            out.push(LINE_FEED);
            j = j + 1;
        }
        i = j;
    }
    assert(out@ =~= target);
    out
}

/// What is read of a library, as `plain_library` says.
pub fn read_library(bytes: &[u8]) -> (r: Vec<u8>)
    ensures
        r@ == plain_library(bytes@),
{
    let text = strip_comments(bytes);
    strip_xyz(text.as_slice())
}

/// Whether the line that starts at `i` holds the numbers that its first word
/// asks for.
pub fn is_line_complete(bytes: &[u8], i: usize) -> (r: bool)
    requires
        i <= bytes.len(),
    ensures
        r == line_complete(bytes@, i as int),
{
    let a = skip_blanks_from(bytes, i);
    if is_line_end(bytes, a) {
        return true;
    }
    let b = word_end_from(bytes, a);
    let count: usize = match classify_statement(bytes, a, b) {
        Statement::Ambient | Statement::Diffuse | Statement::Specular | Statement::Emissive => 3,
        Statement::Scalar => 1,
        _ => 0,
    };
    line_has_numbers(bytes, b, count)
}

/// Checks a library line by line, as `library_verdict` says.
pub fn check_library(bytes: &[u8]) -> (r: Result<(), ObjError>)
    ensures
        r == library_verdict(bytes@),
{
    let text = read_library(bytes);
    check_library_text(text.as_slice())
}

/// Checks a text without comments and without the word `xyz` line by line,
/// as `library_text_verdict` says.
pub fn check_library_text(bytes: &[u8]) -> (r: Result<(), ObjError>)
    ensures
        r == library_text_verdict(bytes@),
{
    let mut i: usize = 0;
    let mut before: usize = 0;
    while i < bytes.len()
        invariant
            i <= bytes.len(),
            before <= i,
            library_text_verdict(bytes@) == library_verdict_from(bytes@, i as int, before as nat),
        decreases bytes.len() - i,
    {
        if !is_line_complete(bytes, i) {
            return Err(ObjError::NumericParseError { line: before + 1 });
        }
        let e = line_end_from(bytes, i);
        if e == bytes.len() {
            return Ok(());
        }
        before = before + 1;
        i = e + 1;
    }
    Ok(())
}

/// The colour spaces of the materials of a text without comments.
pub fn text_color_spaces(bytes: &[u8]) -> (r: Vec<ColorSpaces>)
    ensures
        r@ == spaces_from(bytes@, 0, Seq::empty()),
{
    let mut out: Vec<ColorSpaces> = Vec::new();
    let mut i: usize = 0;
    while i < bytes.len()
        invariant
            i <= bytes.len(),
            spaces_from(bytes@, 0, Seq::empty()) == spaces_from(bytes@, i as int, out@),
        decreases bytes.len() - i,
    {
        let ghost before = out@;
        let xyz = match xyz_word(bytes, i) {
            Some(_) => true,
            None => false,
        };
        match statement_of_line(bytes, i) {
            Statement::Material => {
                out.push(
                    ColorSpaces { diffuse_xyz: false, specular_xyz: false, emissive_xyz: false },
                );
            },
            Statement::Diffuse => {
                let n = out.len();
                if n > 0 {
                    let last = out[n - 1];
                    out.set(n - 1, ColorSpaces { diffuse_xyz: xyz, ..last });
                }
            },
            Statement::Specular => {
                let n = out.len();
                if n > 0 {
                    let last = out[n - 1];
                    out.set(n - 1, ColorSpaces { specular_xyz: xyz, ..last });
                }
            },
            Statement::Emissive => {
                let n = out.len();
                if n > 0 {
                    let last = out[n - 1];
                    out.set(n - 1, ColorSpaces { emissive_xyz: xyz, ..last });
                }
            },
            _ => {},
        }
        assert(out@ =~= spaces_after_line(bytes@, i as int, before));
        let e = line_end_from(bytes, i);
        if e == bytes.len() {
            return out;
        }
        i = e + 1;
    }
    out
}

/// The colour spaces of the materials of a library, as `library_spaces`
/// says.
pub fn color_spaces(bytes: &[u8]) -> (r: Vec<ColorSpaces>)
    ensures
        r@ == library_spaces(bytes@),
{
    let text = strip_comments(bytes);
    text_color_spaces(text.as_slice())
}

} // verus!
