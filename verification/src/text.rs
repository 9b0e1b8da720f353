//! Lines and words of a document, read on its UTF-8 bytes.
//!
//! A document is a sequence of lines that a line feed ends; a line is a
//! sequence of words that white space parts. A number sign starts a comment,
//! which goes on to the end of its line and is taken out before anything is
//! read. White space is every character with the Unicode property
//! `White_Space`; in UTF-8 each of them is a fixed pattern of one, two or
//! three bytes, and none of the patterns can start inside another character.

use vstd::prelude::*;

verus! {

/// The line feed, which ends a line.
pub const LINE_FEED: u8 = 10;

/// The number sign, which starts a comment.
pub const NUMBER_SIGN: u8 = 35;

/// The space that stands where a comment stood.
pub const SPACE: u8 = 32;

/// The tab, white space that is no space.
pub const TAB: u8 = 9;

/// Whether the byte at `i` is part of a comment: a number sign stands at `i`
/// or before it on the line.
pub open spec fn in_comment(s: Seq<u8>, i: int) -> bool
    decreases i,
{
    if i < 0 || i >= s.len() || s[i] == LINE_FEED {
        false
    } else if s[i] == NUMBER_SIGN {
        true
    } else if i == 0 {
        false
    } else {
        in_comment(s, i - 1)
    }
}

/// The document without its comments: a space stands for every byte of a
/// comment, so that every line keeps its place.
pub open spec fn without_comments(s: Seq<u8>) -> Seq<u8> {
    Seq::new(s.len(), |i: int| if in_comment(s, i) {
        SPACE
    } else {
        s[i]
    })
}

/// Whether `b` is one of the six white-space characters of ASCII: tab, line
/// feed, vertical tab, form feed, carriage return, space.
pub open spec fn is_ascii_space(b: u8) -> bool {
    (9 <= b && b <= 13) || b == 32
}

/// The length in bytes of the white-space character whose encoding starts at
/// `i`, or 0 where none starts there.
///
/// The characters are U+0009 to U+000D, U+0020, U+0085, U+00A0, U+1680,
/// U+2000 to U+200A, U+2028, U+2029, U+202F, U+205F and U+3000.
pub open spec fn space_len(s: Seq<u8>, i: int) -> int {
    if i < 0 || i >= s.len() {
        0
    } else if is_ascii_space(s[i]) {
        1
    } else if s[i] == 0xC2 && i + 1 < s.len() && (s[i + 1] == 0x85 || s[i + 1] == 0xA0) {
        2
    } else if s[i] == 0xE1 && i + 2 < s.len() && s[i + 1] == 0x9A && s[i + 2] == 0x80 {
        3
    } else if s[i] == 0xE2 && i + 2 < s.len() && s[i + 1] == 0x80 && ((0x80 <= s[i + 2] && s[i
        + 2] <= 0x8A) || s[i + 2] == 0xA8 || s[i + 2] == 0xA9 || s[i + 2] == 0xAF) {
        3
    } else if s[i] == 0xE2 && i + 2 < s.len() && s[i + 1] == 0x81 && s[i + 2] == 0x9F {
        3
    } else if s[i] == 0xE3 && i + 2 < s.len() && s[i + 1] == 0x80 && s[i + 2] == 0x80 {
        3
    } else {
        0
    }
}

/// As `space_len`, but the line feed does not count: the white space that can
/// stand inside a line.
pub open spec fn blank_len(s: Seq<u8>, i: int) -> int {
    if 0 <= i && i < s.len() && s[i] == LINE_FEED {
        0
    } else {
        space_len(s, i)
    }
}

/// The first place at or after `i` where no white space of the line starts:
/// the start of the next word, the line feed, or the end of the document.
pub open spec fn skip_blanks(s: Seq<u8>, i: int) -> int
    decreases s.len() - i,
{
    if 0 <= i && i < s.len() && blank_len(s, i) > 0 {
        skip_blanks(s, i + blank_len(s, i))
    } else {
        i
    }
}

/// The first place at or after `i` where white space starts, or the end of
/// the document: the end of the word that holds `i`.
pub open spec fn word_end(s: Seq<u8>, i: int) -> int
    decreases s.len() - i,
{
    if 0 <= i && i < s.len() && space_len(s, i) == 0 {
        word_end(s, i + 1)
    } else {
        i
    }
}

/// The place of the first line feed at or after `i`, or the end of the
/// document.
pub open spec fn line_end(s: Seq<u8>, i: int) -> int
    decreases s.len() - i,
{
    if 0 <= i && i < s.len() && s[i] != LINE_FEED {
        line_end(s, i + 1)
    } else {
        i
    }
}

/// The place where the line of `i` starts.
pub open spec fn line_start(s: Seq<u8>, i: int) -> int
    decreases i,
{
    if i <= 0 {
        0
    } else if s[i - 1] == LINE_FEED {
        i
    } else {
        line_start(s, i - 1)
    }
}

/// Whether the line has come to its end at `i`.
pub open spec fn at_line_end(s: Seq<u8>, i: int) -> bool {
    i >= s.len() || s[i] == LINE_FEED
}

/// The number of words that the line holds from `i` on.
pub open spec fn words_from(s: Seq<u8>, i: int) -> nat
    decreases s.len() - i,
{
    let a = skip_blanks(s, i);
    if i < 0 || i > s.len() || at_line_end(s, a) {
        0
    } else {
        proof {
            lemma_skip_blanks_bounds(s, i);
            lemma_word_end_bounds(s, a);
        }
        1 + words_from(s, word_end(s, a))
    }
}

/// Every byte of a line has the start of the line for its line start.
pub proof fn lemma_line_start(s: Seq<u8>, start: int, i: int)
    requires
        0 <= start <= i <= s.len(),
        start == 0 || s[start - 1] == LINE_FEED,
        forall|j: int| start <= j < i ==> s[j] != LINE_FEED,
    ensures
        line_start(s, i) == start,
    decreases i - start,
{
    if i > start {
        lemma_line_start(s, start, i - 1);
    }
}

/// `skip_blanks` moves forward and stays inside the document.
pub proof fn lemma_skip_blanks_bounds(s: Seq<u8>, i: int)
    requires
        0 <= i <= s.len(),
    ensures
        i <= skip_blanks(s, i) <= s.len(),
        blank_len(s, skip_blanks(s, i)) == 0,
    decreases s.len() - i,
{
    if i < s.len() && blank_len(s, i) > 0 {
        lemma_skip_blanks_bounds(s, i + blank_len(s, i));
    }
}

/// `word_end` moves forward, stays inside the document, and passes at least
/// one byte where a word starts.
pub proof fn lemma_word_end_bounds(s: Seq<u8>, i: int)
    requires
        0 <= i <= s.len(),
    ensures
        i <= word_end(s, i) <= s.len(),
        i < s.len() && space_len(s, i) == 0 ==> i < word_end(s, i),
        word_end(s, i) < s.len() ==> space_len(s, word_end(s, i)) > 0,
    decreases s.len() - i,
{
    if i < s.len() && space_len(s, i) == 0 {
        lemma_word_end_bounds(s, i + 1);
    }
}

/// `line_end` moves forward, stays inside the document, and stops at a line
/// feed or at the end.
pub proof fn lemma_line_end_bounds(s: Seq<u8>, i: int)
    requires
        0 <= i <= s.len(),
    ensures
        i <= line_end(s, i) <= s.len(),
        at_line_end(s, line_end(s, i)),
    decreases s.len() - i,
{
    if i < s.len() && s[i] != LINE_FEED {
        lemma_line_end_bounds(s, i + 1);
    }
}

/// The length of the white-space character that starts at `i`.
pub fn space_len_at(bytes: &[u8], i: usize) -> (n: usize)
    requires
        i < bytes.len(),
    ensures
        n == space_len(bytes@, i as int),
        n <= 3,
        i + n <= bytes.len(),
{
    let b = bytes[i];
    let rest = bytes.len() - i;
    if (9 <= b && b <= 13) || b == 32 {
        1
    } else if b == 0xC2 {
        if rest > 1 && (bytes[i + 1] == 0x85 || bytes[i + 1] == 0xA0) {
            2
        } else {
            0
        }
    } else if b == 0xE1 {
        if rest > 2 && bytes[i + 1] == 0x9A && bytes[i + 2] == 0x80 {
            3
        } else {
            0
        }
    } else if b == 0xE2 {
        if rest > 2 {
            let c = bytes[i + 1];
            let d = bytes[i + 2];
            if c == 0x80 && ((0x80 <= d && d <= 0x8A) || d == 0xA8 || d == 0xA9 || d == 0xAF) {
                3
            } else if c == 0x81 && d == 0x9F {
                3
            } else {
                0
            }
        } else {
            0
        }
    } else if b == 0xE3 {
        if rest > 2 && bytes[i + 1] == 0x80 && bytes[i + 2] == 0x80 {
            3
        } else {
            0
        }
    } else {
        0
    }
}

/// The length of the white space of the line that starts at `i`; 0 at the
/// end of the document.
pub fn blank_len_at(bytes: &[u8], i: usize) -> (n: usize)
    requires
        i <= bytes.len(),
    ensures
        n == blank_len(bytes@, i as int),
        n <= 3,
        i + n <= bytes.len(),
{
    if i >= bytes.len() || bytes[i] == LINE_FEED {
        0
    } else {
        space_len_at(bytes, i)
    }
}

/// Whether the line has come to its end at `i`.
pub fn is_line_end(bytes: &[u8], i: usize) -> (r: bool)
    ensures
        r == at_line_end(bytes@, i as int),
{
    i >= bytes.len() || bytes[i] == LINE_FEED
}

/// Passes the white space of the line from `i` on.
pub fn skip_blanks_from(bytes: &[u8], i: usize) -> (r: usize)
    requires
        i <= bytes.len(),
    ensures
        r == skip_blanks(bytes@, i as int),
        i <= r <= bytes.len(),
{
    let mut j = i;
    let mut n = blank_len_at(bytes, j);
    while n > 0
        invariant
            i <= j <= bytes.len(),
            n == blank_len(bytes@, j as int),
            j + n <= bytes.len(),
            skip_blanks(bytes@, i as int) == skip_blanks(bytes@, j as int),
        decreases bytes.len() - j,
    {
        j = j + n;
        n = blank_len_at(bytes, j);
    }
    j
}

/// Finds the end of the word that holds `i`.
pub fn word_end_from(bytes: &[u8], i: usize) -> (r: usize)
    requires
        i <= bytes.len(),
    ensures
        r == word_end(bytes@, i as int),
        i <= r <= bytes.len(),
{
    let mut j = i;
    while j < bytes.len() && space_len_at(bytes, j) == 0
        invariant
            i <= j <= bytes.len(),
            word_end(bytes@, i as int) == word_end(bytes@, j as int),
        decreases bytes.len() - j,
    {
        j = j + 1;
    }
    j
}

/// Finds the line feed that ends the line of `i`, or the end of the
/// document.
pub fn line_end_from(bytes: &[u8], i: usize) -> (r: usize)
    requires
        i <= bytes.len(),
    ensures
        r == line_end(bytes@, i as int),
        i <= r <= bytes.len(),
        at_line_end(bytes@, r as int),
{
    let mut j = i;
    while j < bytes.len() && bytes[j] != LINE_FEED
        invariant
            i <= j <= bytes.len(),
            line_end(bytes@, i as int) == line_end(bytes@, j as int),
        decreases bytes.len() - j,
    {
        j = j + 1;
    }
    j
}

/// Counts the words that the line holds from `i` on.
pub fn count_words(bytes: &[u8], i: usize) -> (n: usize)
    requires
        i <= bytes.len(),
    ensures
        n == words_from(bytes@, i as int),
{
    let mut j = i;
    let mut n: usize = 0;
    loop
        invariant
            i <= j <= bytes.len(),
            n <= j - i,
            words_from(bytes@, i as int) == n + words_from(bytes@, j as int),
        decreases bytes.len() - j,
    {
        let a = skip_blanks_from(bytes, j);
        if is_line_end(bytes, a) {
            return n;
        }
        proof {
            lemma_skip_blanks_bounds(bytes@, j as int);
            lemma_word_end_bounds(bytes@, a as int);
        }
        j = word_end_from(bytes, a);
        n = n + 1;
    }
}

/// Takes the comments out of a document, as `without_comments` says.
pub fn strip_comments(bytes: &[u8]) -> (r: Vec<u8>)
    ensures
        r@ == without_comments(bytes@),
{
    let mut out: Vec<u8> = Vec::new();
    let mut commented = false;
    let mut i: usize = 0;
    while i < bytes.len()
        invariant
            i <= bytes.len(),
            out@.len() == i,
            commented == in_comment(bytes@, i - 1),
            forall|j: int| 0 <= j < i ==> out@[j] == without_comments(bytes@)[j],
        decreases bytes.len() - i,
    {
        let b = bytes[i];
        commented = b != LINE_FEED && (commented || b == NUMBER_SIGN);
        out.push(if commented {
            SPACE
        } else {
            b
        });
        i = i + 1;
    }
    assert(out@ =~= without_comments(bytes@));
    out
}

} // verus!
