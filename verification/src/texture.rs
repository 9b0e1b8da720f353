//! The file that a texture map of a material names, and where it lies.
//!
//! A map is written as options and a file name: `-bm 1.0 wood.png`. An
//! option is a word that starts with a hyphen; the words after it that write
//! a number, or are `on`, `off` or a single character, are its values. What follows
//! the last option and its values is the file name, which may hold spaces.
//! The file lies beside the document that names it.

use crate::text::{
    at_line_end, is_line_end, lemma_skip_blanks_bounds, lemma_word_end_bounds, skip_blanks,
    skip_blanks_from, word_end, word_end_from, SPACE,
};
use crate::number::{is_float, word_is_float};
use vstd::prelude::*;
use vstd::utf8::{decode_utf8, valid_utf8};

verus! {

/// The hyphen, which starts an option.
pub const HYPHEN: u8 = 45;

/// The slash, which parts the directories of a path.
pub const SEPARATOR: u8 = 47;

/// The point, which starts the extension of a file name.
pub const POINT: u8 = 46;

/// The text that the bytes encode, where they are UTF-8.
pub open spec fn decoded(b: Seq<u8>) -> Option<Seq<char>> {
    if valid_utf8(b) {
        Some(decode_utf8(b))
    } else {
        None
    }
}

/// `alloc::string::String::from_utf8`: the text that the bytes encode, where
/// they are UTF-8.
#[verifier::external_body]
pub(crate) fn text_of(bytes: &[u8]) -> (r: Option<String>)
    ensures
        match r {
            Some(s) => decoded(bytes@) == Some(s@),
            None => decoded(bytes@) is None,
        },
{
    String::from_utf8(bytes.to_vec()).ok()
}

/// The length in bytes of the character whose encoding starts with `b`.
pub open spec fn char_len(b: u8) -> int {
    if b < 0x80 {
        1
    } else if b < 0xE0 {
        2
    } else if b < 0xF0 {
        3
    } else {
        4
    }
}

/// Whether the word can be the value of an option: a number, `on`, `off`, or
/// a single character.
pub open spec fn is_option_value(w: Seq<u8>) -> bool {
    ||| is_float(w)
    ||| (w.len() == 2 && w[0] == 'o' as u8 && w[1] == 'n' as u8)
    ||| (w.len() == 3 && w[0] == 'o' as u8 && w[1] == 'f' as u8 && w[2] == 'f' as u8)
    ||| (w.len() > 0 && w.len() == char_len(w[0]))
}

/// The place after the values that follow `i` on the line.
pub open spec fn skip_values(s: Seq<u8>, i: int) -> int
    decreases s.len() - i,
{
    let a = skip_blanks(s, i);
    if i < 0 || i > s.len() || at_line_end(s, a) {
        i
    } else {
        let b = word_end(s, a);
        if is_option_value(s.subrange(a, b)) {
            proof {
                lemma_skip_blanks_bounds(s, i);
                lemma_word_end_bounds(s, a);
            }
            skip_values(s, b)
        } else {
            i
        }
    }
}

/// `skip_values` moves forward and stays inside the line.
pub proof fn lemma_skip_values_bounds(s: Seq<u8>, i: int)
    requires
        0 <= i <= s.len(),
    ensures
        i <= skip_values(s, i) <= s.len(),
    decreases s.len() - i,
{
    let a = skip_blanks(s, i);
    lemma_skip_blanks_bounds(s, i);
    if !at_line_end(s, a) {
        let b = word_end(s, a);
        lemma_word_end_bounds(s, a);
        if is_option_value(s.subrange(a, b)) {
            lemma_skip_values_bounds(s, b);
        }
    }
}

/// The place after the options, each with its values, that follow `i` on the
/// line.
pub open spec fn skip_options(s: Seq<u8>, i: int) -> int
    decreases s.len() - i,
{
    let a = skip_blanks(s, i);
    if i < 0 || i > s.len() || at_line_end(s, a) || s[a] != HYPHEN {
        i
    } else {
        proof {
            lemma_skip_blanks_bounds(s, i);
            lemma_word_end_bounds(s, a);
            lemma_skip_values_bounds(s, word_end(s, a));
        }
        skip_options(s, skip_values(s, word_end(s, a)))
    }
}

/// The words of the line from `i` on, each with a space before it.
pub open spec fn following_words(s: Seq<u8>, i: int) -> Seq<u8>
    decreases s.len() - i,
{
    let a = skip_blanks(s, i);
    if i < 0 || i > s.len() || at_line_end(s, a) {
        Seq::empty()
    } else {
        proof {
            lemma_skip_blanks_bounds(s, i);
            lemma_word_end_bounds(s, a);
        }
        seq![SPACE] + s.subrange(a, word_end(s, a)) + following_words(s, word_end(s, a))
    }
}

/// The words of the line from `i` on, with one space between each two.
pub open spec fn joined_words(s: Seq<u8>, i: int) -> Seq<u8> {
    let a = skip_blanks(s, i);
    if at_line_end(s, a) {
        Seq::empty()
    } else {
        s.subrange(a, word_end(s, a)) + following_words(s, word_end(s, a))
    }
}

/// The file name of a texture map: the words that follow its options and
/// their values, with one space between each two.
pub open spec fn map_file_name(map: Seq<u8>) -> Seq<u8> {
    joined_words(map, skip_options(map, 0))
}

/// The length of the directory of a path: up to and with its last slash; 0
/// where it has none.
pub open spec fn directory_len(path: Seq<u8>) -> nat
    decreases path.len(),
{
    if path.len() == 0 {
        0
    } else if path.last() == SEPARATOR {
        path.len()
    } else {
        directory_len(path.drop_last())
    }
}

/// The path of the file `file` beside the document `document`: the directory
/// of the document, then the file.
pub open spec fn beside(document: Seq<u8>, file: Seq<u8>) -> Seq<u8> {
    document.take(directory_len(document) as int) + file
}

/// The place of the last point of a file name, or -1 where it has none.
pub open spec fn last_point(name: Seq<u8>) -> int
    decreases name.len(),
{
    if name.len() == 0 {
        -1
    } else if name.last() == POINT {
        name.len() - 1
    } else {
        last_point(name.drop_last())
    }
}

/// The extension of the file that a path names: what follows the last point
/// of the file name, where that point is not its first character.
pub open spec fn extension_of(path: Seq<u8>) -> Option<Seq<u8>> {
    let name = path.skip(directory_len(path) as int);
    if last_point(name) <= 0 {
        None
    } else {
        Some(name.skip(last_point(name) + 1))
    }
}

/// Whether the word `bytes[a..b]` can be the value of an option.
fn word_is_value(bytes: &[u8], a: usize, b: usize) -> (r: bool)
    requires
        a <= b <= bytes.len(),
    ensures
        r == is_option_value(bytes@.subrange(a as int, b as int)),
{
    let n = b - a;
    if n == 0 {
        return false;
    }
    let first = bytes[a];
    let len: usize = if first < 0x80 {
        1
    } else if first < 0xE0 {
        2
    } else if first < 0xF0 {
        3
    } else {
        4
    };
    if n == len {
        return true;
    }
    if n == 2 && first == 'o' as u8 && bytes[a + 1] == 'n' as u8 {
        return true;
    }
    if n == 3 && first == 'o' as u8 && bytes[a + 1] == 'f' as u8 && bytes[a + 2] == 'f' as u8 {
        return true;
    }
    word_is_float(vstd::slice::slice_subrange(bytes, a, b))
}

/// Passes the values that follow `i` on the line.
fn skip_values_from(bytes: &[u8], i: usize) -> (r: usize)
    requires
        i <= bytes.len(),
    ensures
        r == skip_values(bytes@, i as int),
        i <= r <= bytes.len(),
{
    let mut j = i;
    loop
        invariant
            i <= j <= bytes.len(),
            skip_values(bytes@, i as int) == skip_values(bytes@, j as int),
        decreases bytes.len() - j,
    {
        let a = skip_blanks_from(bytes, j);
        if is_line_end(bytes, a) {
            return j;
        }
        proof {
            lemma_skip_blanks_bounds(bytes@, j as int);
            lemma_word_end_bounds(bytes@, a as int);
        }
        let b = word_end_from(bytes, a);
        if !word_is_value(bytes, a, b) {
            return j;
        }
        j = b;
    }
}

/// Passes the options, each with its values, that follow `i` on the line.
fn skip_options_from(bytes: &[u8], i: usize) -> (r: usize)
    requires
        i <= bytes.len(),
    ensures
        r == skip_options(bytes@, i as int),
        i <= r <= bytes.len(),
{
    let mut j = i;
    loop
        invariant
            i <= j <= bytes.len(),
            skip_options(bytes@, i as int) == skip_options(bytes@, j as int),
        decreases bytes.len() - j,
    {
        let a = skip_blanks_from(bytes, j);
        if is_line_end(bytes, a) || bytes[a] != HYPHEN {
            return j;
        }
        proof {
            lemma_skip_blanks_bounds(bytes@, j as int);
            lemma_word_end_bounds(bytes@, a as int);
        }
        let b = word_end_from(bytes, a);
        j = skip_values_from(bytes, b);
    }
}

/// Appends the bytes `bytes[a..b]` to `out`.
fn push_range(out: &mut Vec<u8>, bytes: &[u8], a: usize, b: usize)
    requires
        a <= b <= bytes.len(),
    ensures
        final(out)@ == old(out)@ + bytes@.subrange(a as int, b as int),
{
    let mut j = a;
    while j < b
        invariant
            a <= j <= b <= bytes.len(),
            out@ == old(out)@ + bytes@.subrange(a as int, j as int),
        decreases b - j,
    {
        out.push(bytes[j]);
        assert(bytes@.subrange(a as int, j + 1) =~= bytes@.subrange(a as int, j as int).push(
            bytes@[j as int],
        ));
        j = j + 1;
    }
}

/// The words of the line from `i` on, with one space between each two.
pub fn join_words(bytes: &[u8], i: usize) -> (r: Vec<u8>)
    requires
        i <= bytes.len(),
    ensures
        r@ == joined_words(bytes@, i as int),
{
    let mut out: Vec<u8> = Vec::new();
    let first = skip_blanks_from(bytes, i);
    if is_line_end(bytes, first) {
        return out;
    }
    let mut j = word_end_from(bytes, first);
    push_range(&mut out, bytes, first, j);
    loop
        invariant
            j <= bytes.len(),
            joined_words(bytes@, i as int) == out@ + following_words(bytes@, j as int),
        decreases bytes.len() - j,
    {
        let a = skip_blanks_from(bytes, j);
        if is_line_end(bytes, a) {
            return out;
        }
        proof {
            lemma_skip_blanks_bounds(bytes@, j as int);
            lemma_word_end_bounds(bytes@, a as int);
        }
        let b = word_end_from(bytes, a);
        let ghost before = out@;
        out.push(SPACE);
        push_range(&mut out, bytes, a, b);
        assert(out@ =~= before + (seq![SPACE] + bytes@.subrange(a as int, b as int)));
        assert(before + following_words(bytes@, j as int) =~= out@ + following_words(
            bytes@,
            b as int,
        ));
        j = b;
    }
}

/// The file name of a texture map, without the options that stand before
/// it.
pub fn texture_file_name(map: &[u8]) -> (r: Vec<u8>)
    ensures
        r@ == map_file_name(map@),
{
    let start = skip_options_from(map, 0);
    join_words(map, start)
}

/// The length of the directory of a path.
pub fn directory_length(path: &[u8]) -> (r: usize)
    ensures
        r == directory_len(path@),
        r <= path.len(),
{
    let mut n = path.len();
    assert(path@.take(n as int) =~= path@);
    while n > 0 && path[n - 1] != SEPARATOR
        invariant
            n <= path.len(),
            directory_len(path@) == directory_len(path@.take(n as int)),
        decreases n,
    {
        assert(path@.take(n as int).drop_last() =~= path@.take(n - 1));
        n = n - 1;
    }
    proof {
        assert(path@.take(path.len() as int) =~= path@);
        if n > 0 {
            assert(path@.take(n as int).last() == path@[n - 1]);
        }
    }
    n
}

/// The path of the file `file` beside the document `document`.
pub fn sibling_path(document: &[u8], file: &[u8]) -> (r: Vec<u8>)
    ensures
        r@ == beside(document@, file@),
{
    let n = directory_length(document);
    let mut out: Vec<u8> = Vec::new();
    push_range(&mut out, document, 0, n);
    push_range(&mut out, file, 0, file.len());
    assert(file@.subrange(0, file.len() as int) =~= file@);
    assert(document@.subrange(0, n as int) =~= document@.take(n as int));
    out
}

/// The extension of the file that a path names.
pub fn file_extension(path: &[u8]) -> (r: Option<Vec<u8>>)
    ensures
        match r {
            Some(e) => extension_of(path@) == Some(e@),
            None => extension_of(path@) is None,
        },
{
    let d = directory_length(path);
    let ghost name = path@.skip(d as int);
    let mut n = path.len();
    assert(name.take(n - d) =~= name);
    while n > d && path[n - 1] != POINT
        invariant
            d <= n <= path.len(),
            name == path@.skip(d as int),
            last_point(name) == last_point(name.take(n - d)),
        decreases n,
    {
        assert(name.take(n - d).drop_last() =~= name.take(n - d - 1));
        assert(name.take(n - d).last() == path@[n - 1]);
        n = n - 1;
    }
    proof {
        assert(name.take(path.len() - d) =~= name);
        if n > d {
            assert(name.take(n - d).last() == path@[n - 1]);
        }
    }
    if n - d <= 1 {
        return None;
    }
    let mut out: Vec<u8> = Vec::new();
    push_range(&mut out, path, n, path.len());
    assert(path@.subrange(n as int, path.len() as int) =~= name.skip(n - d));
    Some(out)
}

} // verus!
