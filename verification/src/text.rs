//! Text as sequences of characters: the few operations on `str` and
//! `String` that the parsers and printers of this library are built from.

use vstd::prelude::*;
use vstd::std_specs::iter::IteratorSpec;
use vstd::utf8::{decode_utf8, valid_utf8};

verus! {

/// `String::push`: appends one character.
#[verifier::external_body]
pub(crate) fn push_char(text: &mut String, c: char)
    ensures
        final(text)@ == old(text)@.push(c),
{
    text.push(c)
}

/// `core::str::from_utf8`: the text that `bytes` encode, if they are
/// well-formed UTF-8, and nothing if they are not.
#[verifier::external_body]
pub(crate) fn str_from_utf8(bytes: &[u8]) -> (text: Option<&str>)
    ensures
        text is Some <==> valid_utf8(bytes@),
        text matches Some(s) ==> s@ == decode_utf8(bytes@),
{
    core::str::from_utf8(bytes).ok()
}

/// Whether two texts are the same.
pub fn same_text(a: &String, b: &String) -> (same: bool)
    ensures
        same == (a@ == b@),
{
    *a == *b
}

/// The characters of `text`, in order.
pub fn str_chars(text: &str) -> (chars: Vec<char>)
    ensures
        chars@ == text@,
{
    let mut chars: Vec<char> = Vec::new();
    let iter = text.chars();
    for c in it: iter
        invariant
            it.seq() == text@,
            chars@ == text@.take(it.index() as int),
    {
        chars.push(c);
    }
    assert(chars@ =~= text@);
    chars
}

/// The text made of the characters of `chars` from `from` up to `to`.
pub fn string_of(chars: &Vec<char>, from: usize, to: usize) -> (text: String)
    requires
        from <= to <= chars@.len(),
    ensures
        text@ == chars@.subrange(from as int, to as int),
{
    let mut text = String::new();
    let mut i: usize = from;
    while i < to
        invariant
            from <= i <= to <= chars@.len(),
            text@ == chars@.subrange(from as int, i as int),
        decreases to - i,
    {
        push_char(&mut text, chars[i]);
        assert(text@ =~= chars@.subrange(from as int, i + 1));
        i += 1;
    }
    text
}

/// Whether `chars` holds the characters of `letters` from `at` on.
pub fn holds_at(chars: &Vec<char>, at: usize, letters: &Vec<char>) -> (same: bool)
    requires
        at + letters@.len() <= chars@.len(),
    ensures
        same == (chars@.subrange(at as int, at + letters@.len()) == letters@),
{
    let ghost part = chars@.subrange(at as int, at + letters@.len());
    let total: usize = chars.len();
    let mut i: usize = 0;
    while i < letters.len()
        invariant
            at + letters@.len() <= chars@.len() == total,
            part == chars@.subrange(at as int, at + letters@.len()),
            forall|k: int| 0 <= k < i ==> part[k] == letters@[k],
        decreases letters@.len() - i,
    {
        if chars[at + i] != letters[i] {
            assert(part[i as int] != letters@[i as int]);
            return false;
        }
        i += 1;
    }
    assert(part =~= letters@);
    true
}

/// Whether the characters of `chars` from `from` up to `to` spell `word`.
pub fn spells(chars: &Vec<char>, from: usize, to: usize, word: &str) -> (same: bool)
    requires
        from <= to <= chars@.len(),
    ensures
        same == (chars@.subrange(from as int, to as int) == word@),
{
    let letters = str_chars(word);
    if letters.len() != to - from {
        return false;
    }
    holds_at(chars, from, &letters)
}

/// How far behind `from` the first place lies where `text` holds `word`;
/// where it holds it nowhere, how far the end of `text` lies.
pub open spec fn word_offset(text: Seq<char>, word: Seq<char>, from: int) -> nat
    decreases text.len() - from,
{
    if from < 0 || from >= text.len() {
        0
    } else if from + word.len() > text.len() {
        (text.len() - from) as nat
    } else if text.subrange(from, from + word.len()) == word {
        0
    } else {
        1 + word_offset(text, word, from + 1)
    }
}

/// The first place from `from` on where `text` holds `word`; the length
/// of `text` where it holds it nowhere.
pub open spec fn find_word(text: Seq<char>, word: Seq<char>, from: int) -> int {
    from + word_offset(text, word, from)
}

/// A search for a word from a place in the text ends at that place or
/// behind it, and not behind the end of the text; where it ends before the
/// end, the word stands there, whole.
pub proof fn lemma_find_word_bounds(text: Seq<char>, word: Seq<char>, from: int)
    requires
        0 <= from <= text.len(),
    ensures
        from <= find_word(text, word, from) <= text.len(),
        find_word(text, word, from) < text.len() ==> {
            let at = find_word(text, word, from);
            at + word.len() <= text.len() && text.subrange(at, at + word.len()) == word
        },
    decreases text.len() - from,
{
    if from < text.len() && from + word.len() <= text.len() && text.subrange(
        from,
        from + word.len(),
    ) != word {
        lemma_find_word_bounds(text, word, from + 1);
    }
}

/// The first place from `from` on where `chars` holds `letters`.
pub fn find_letters(chars: &Vec<char>, letters: &Vec<char>, from: usize) -> (at: usize)
    requires
        from <= chars@.len(),
    ensures
        at == find_word(chars@, letters@, from as int),
        from <= at <= chars@.len(),
        at < chars@.len() ==> at + letters@.len() <= chars@.len(),
{
    let total: usize = chars.len();
    let mut at: usize = from;
    while at < total && letters.len() <= total - at
        invariant
            from <= at <= chars@.len() == total,
            find_word(chars@, letters@, from as int) == find_word(chars@, letters@, at as int),
        decreases chars@.len() - at,
    {
        if holds_at(chars, at, letters) {
            return at;
        }
        at += 1;
    }
    chars.len()
}

/// `c` in lower case, if it is one of the letters `A` to `Z`; else `c`.
pub open spec fn ascii_lower(c: char) -> char {
    if 'A' <= c && c <= 'Z' {
        ((c as u8) + 32) as char
    } else {
        c
    }
}

/// `c` in lower case, if it is one of the letters `A` to `Z`; else `c`.
pub fn to_ascii_lower(c: char) -> (lower: char)
    ensures
        lower == ascii_lower(c),
{
    if 'A' <= c && c <= 'Z' {
        ((c as u8) + 32) as char
    } else {
        c
    }
}

/// How far behind `from` the first place lies where `text` holds `c`;
/// where it holds none, how far the end of `text` lies.
pub open spec fn char_offset(text: Seq<char>, c: char, from: int) -> nat
    decreases text.len() - from,
{
    if from < 0 || from >= text.len() {
        0
    } else if text[from] == c {
        0
    } else {
        1 + char_offset(text, c, from + 1)
    }
}

/// The first place from `from` on where `text` holds `c`; the length of
/// `text` where it holds none.
pub open spec fn find_from(text: Seq<char>, c: char, from: int) -> int {
    from + char_offset(text, c, from)
}

/// A search from a place in the text ends at that place or behind it, and
/// not behind the end of the text; where it ends before the end, it has
/// found what it looked for.
pub proof fn lemma_find_from_bounds(text: Seq<char>, c: char, from: int)
    requires
        0 <= from <= text.len(),
    ensures
        from <= find_from(text, c, from) <= text.len(),
        find_from(text, c, from) < text.len() ==> text[find_from(text, c, from)] == c,
    decreases text.len() - from,
{
    if from < text.len() && text[from] != c {
        lemma_find_from_bounds(text, c, from + 1);
    }
}

/// Whether `c` is white space, as Unicode's `White_Space` says.
pub open spec fn is_space(c: char) -> bool {
    let u = c as u32;
    (0x09 <= u <= 0x0d) || u == 0x20 || u == 0x85 || u == 0xa0 || u == 0x1680 || (0x2000 <= u
        <= 0x200a) || u == 0x2028 || u == 0x2029 || u == 0x202f || u == 0x205f || u == 0x3000
}

/// The first place from `from` on where `text` holds no white space.
pub open spec fn skip_spaces(text: Seq<char>, from: int) -> int
    decreases text.len() - from,
{
    if from >= text.len() {
        text.len() as int
    } else if is_space(text[from]) {
        skip_spaces(text, from + 1)
    } else {
        from
    }
}

/// The place behind the last character before `to`, and not before
/// `from`, that is no white space.
pub open spec fn back_spaces(text: Seq<char>, from: int, to: int) -> int
    decreases to - from,
{
    if to <= from {
        from
    } else if 0 < to <= text.len() && is_space(text[to - 1]) {
        back_spaces(text, from, to - 1)
    } else {
        to
    }
}

/// `text` without the white space at its ends.
pub open spec fn trimmed(text: Seq<char>) -> Seq<char> {
    let from = skip_spaces(text, 0);
    text.subrange(from, back_spaces(text, from, text.len() as int))
}

/// The first place from `from` on, and before `to`, where `chars` holds
/// `c`; `to` where it holds none.
pub fn find_char(chars: &Vec<char>, c: char, from: usize, to: usize) -> (at: usize)
    requires
        from <= to <= chars@.len(),
    ensures
        from <= at <= to,
        at < to ==> chars@[at as int] == c,
        at == find_from(chars@.subrange(0, to as int), c, from as int),
        at == find_from(chars@.subrange(from as int, to as int), c, 0) + from,
{
    let ghost text = chars@.subrange(0, to as int);
    let ghost part = chars@.subrange(from as int, to as int);
    let mut at: usize = from;
    while at < to && chars[at] != c
        invariant
            from <= at <= to <= chars@.len(),
            text == chars@.subrange(0, to as int),
            part == chars@.subrange(from as int, to as int),
            find_from(text, c, from as int) == find_from(text, c, at as int),
            find_from(part, c, 0) == find_from(part, c, at - from),
        decreases to - at,
    {
        at += 1;
    }
    at
}

/// Whether `c` is white space.
pub fn is_white_space(c: char) -> (space: bool)
    ensures
        space == is_space(c),
{
    let u: u32 = c as u32;
    (0x09 <= u && u <= 0x0d) || u == 0x20 || u == 0x85 || u == 0xa0 || u == 0x1680 || (0x2000 <= u
        && u <= 0x200a) || u == 0x2028 || u == 0x2029 || u == 0x202f || u == 0x205f || u == 0x3000
}

/// The ends of the characters from `from` up to `to` without the white
/// space around them.
pub fn trim(chars: &Vec<char>, from: usize, to: usize) -> (ends: (usize, usize))
    requires
        from <= to <= chars@.len(),
    ensures
        from <= ends.0 <= ends.1 <= to,
        chars@.subrange(ends.0 as int, ends.1 as int) == trimmed(
            chars@.subrange(from as int, to as int),
        ),
{
    let ghost text = chars@.subrange(from as int, to as int);
    let mut a: usize = from;
    while a < to && is_white_space(chars[a])
        invariant
            from <= a <= to <= chars@.len(),
            text == chars@.subrange(from as int, to as int),
            skip_spaces(text, 0) == skip_spaces(text, a - from),
        decreases to - a,
    {
        a += 1;
    }
    let mut b: usize = to;
    while b > a && is_white_space(chars[b - 1])
        invariant
            from <= a <= b <= to <= chars@.len(),
            text == chars@.subrange(from as int, to as int),
            back_spaces(text, a - from, text.len() as int) == back_spaces(text, a - from, b - from),
        decreases b - a,
    {
        b -= 1;
    }
    assert(chars@.subrange(a as int, b as int) =~= text.subrange(a - from, b - from));
    (a, b)
}

/// Finding in a part of a text is finding in the text, the places shifted.
pub proof fn lemma_find_shift(text: Seq<char>, c: char, from: int, to: int, at: int)
    requires
        0 <= from <= at <= to <= text.len(),
    ensures
        find_from(text.subrange(from, to), c, at - from) + from == find_from(
            text.subrange(0, to),
            c,
            at,
        ),
    decreases to - at,
{
    if at < to {
        lemma_find_shift(text, c, from, to, at + 1);
    }
}

} // verus!
