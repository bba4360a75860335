//! Title-casing of exercise names.
//!
//! A name such as `single_leg_deadlift` or `row__band` is stored with
//! underscores; for display a double underscore becomes ` - `, a single one a
//! space, and every word starts with an upper-case letter.

use vstd::prelude::*;
use crate::sequences::views;

verus! {

/// Whether `c` is Unicode whitespace (`White_Space`), as
/// [`char::is_whitespace`] reports it.
pub uninterp spec fn unicode_whitespace(c: char) -> bool;

/// The upper-case mapping of `c`, one or more characters, as
/// [`char::to_uppercase`] yields it.
pub uninterp spec fn unicode_uppercase(c: char) -> Seq<char>;

/// Calls [`char::is_whitespace`]. Its answer depends on the character alone,
/// by the Unicode tables compiled into the standard library; the contract
/// only gives that answer its name.
#[verifier::external_body]
fn is_whitespace(c: char) -> (blank: bool)
    ensures
        blank == unicode_whitespace(c),
{
    c.is_whitespace()
}

/// Calls [`char::to_uppercase`] and collects the characters it yields. The
/// mapping is untailored and depends on the character alone; the contract
/// only gives the yielded sequence its name.
#[verifier::external_body]
fn to_uppercase(c: char) -> (upper: Vec<char>)
    ensures
        upper@ == unicode_uppercase(c),
{
    c.to_uppercase().collect()
}

/// [`String::push`] appends one character to the end of the string.
pub assume_specification[ String::push ](s: &mut String, ch: char)
    ensures
        final(s)@ == old(s)@.push(ch),
;

/// `s` with every double underscore replaced by ` - ` and every underscore
/// left over by a space, reading from the left.
pub open spec fn expanded(s: Seq<char>) -> Seq<char>
    decreases s.len(),
{
    if s.len() == 0 {
        Seq::empty()
    } else if s[0] == '_' && s.len() >= 2 && s[1] == '_' {
        seq![' ', '-', ' '] + expanded(s.skip(2))
    } else if s[0] == '_' {
        seq![' '] + expanded(s.skip(1))
    } else {
        seq![s[0]] + expanded(s.skip(1))
    }
}

/// Whether position `i` is marked blank. Positions that `blank` does not
/// cover are not.
pub open spec fn is_blank_at(blank: Seq<bool>, i: int) -> bool {
    0 <= i < blank.len() && blank[i]
}

/// The first position at or after `i` that is marked blank, or the length of
/// `s` if there is none.
pub open spec fn word_end(s: Seq<char>, blank: Seq<bool>, i: int) -> int
    decreases s.len() - i,
{
    if i < 0 || i >= s.len() || is_blank_at(blank, i) {
        i
    } else {
        word_end(s, blank, i + 1)
    }
}

/// A word ends at or after the position it is sought from, and within the
/// text.
pub proof fn lemma_word_end_bounds(s: Seq<char>, blank: Seq<bool>, i: int)
    requires
        0 <= i <= s.len(),
    ensures
        i <= word_end(s, blank, i) <= s.len(),
    decreases s.len() - i,
{
    if i < s.len() && !is_blank_at(blank, i) {
        lemma_word_end_bounds(s, blank, i + 1);
    }
}

/// The words of `s` from position `i` on: the maximal runs of positions not
/// marked blank, in order.
pub open spec fn words_from(s: Seq<char>, blank: Seq<bool>, i: int) -> Seq<Seq<char>>
    decreases s.len() - i,
{
    if i < 0 || i >= s.len() {
        Seq::empty()
    } else if is_blank_at(blank, i) {
        words_from(s, blank, i + 1)
    } else {
        let j = word_end(s, blank, i + 1);
        proof {
            lemma_word_end_bounds(s, blank, i + 1);
        }
        seq![s.subrange(i, j)] + words_from(s, blank, j)
    }
}

/// The blank mark of each character of `s`: whether it is Unicode whitespace.
pub open spec fn blank_marks(s: Seq<char>) -> Seq<bool> {
    s.map_values(|c: char| unicode_whitespace(c))
}

/// `word` with `upper` in place of its first character. An empty word stays
/// empty.
pub open spec fn capitalized_with(word: Seq<char>, upper: Seq<char>) -> Seq<char> {
    if word.len() == 0 {
        word
    } else {
        upper + word.skip(1)
    }
}

/// `word` with its first character replaced by that character's upper-case
/// mapping.
pub open spec fn capitalized(word: Seq<char>) -> Seq<char> {
    if word.len() == 0 {
        word
    } else {
        capitalized_with(word, unicode_uppercase(word[0]))
    }
}

/// Each of the words capitalized.
pub open spec fn capitalized_all(words: Seq<Seq<char>>) -> Seq<Seq<char>> {
    words.map_values(|w: Seq<char>| capitalized(w))
}

/// The words joined by single spaces.
pub open spec fn joined(words: Seq<Seq<char>>) -> Seq<char>
    decreases words.len(),
{
    if words.len() == 0 {
        Seq::empty()
    } else if words.len() == 1 {
        words[0]
    } else {
        joined(words.drop_last()) + seq![' '] + words.last()
    }
}

/// The display form of the stored name `s`: separators expanded, split into
/// words at Unicode whitespace, each word capitalized, the words joined by
/// single spaces.
pub open spec fn title_case(s: Seq<char>) -> Seq<char> {
    let expanded = expanded(s);
    joined(capitalized_all(words_from(expanded, blank_marks(expanded), 0)))
}

/// The characters of `s`, in order.
fn chars_of(s: &str) -> (chars: Vec<char>)
    ensures
        chars@ == s@,
{
    let mut chars: Vec<char> = Vec::new();
    for c in it: s.chars()
        invariant
            chars@ == it.seq().take(it.index() as int),
            it.seq() == s@,
    {
        chars.push(c);
    }
    chars
}

/// Replaces every double underscore of `input` by ` - ` and every other
/// underscore by a space.
pub fn expand_separators(input: &str) -> (out: Vec<char>)
    ensures
        out@ == expanded(input@),
{
    let chars = chars_of(input);
    let n = chars.len();
    let mut out: Vec<char> = Vec::new();
    let mut i: usize = 0;
    assert(chars@.skip(0) == chars@);
    while i < n
        invariant
            i <= n,
            n == chars@.len(),
            chars@ == input@,
            expanded(chars@) == out@ + expanded(chars@.skip(i as int)),
        decreases n - i,
    {
        let ghost rest = chars@.skip(i as int);
        let c = chars[i];
        if c == '_' && i + 1 < n && chars[i + 1] == '_' {
            out.push(' ');
            out.push('-');
            out.push(' ');
            i += 2;
            assert(rest.skip(2) == chars@.skip(i as int));
        } else {
            out.push(if c == '_' { ' ' } else { c });
            i += 1;
            assert(rest.skip(1) == chars@.skip(i as int));
        }
    }
    out
}

/// Marks each character of `chars` that is Unicode whitespace.
fn mark_blanks(chars: &Vec<char>) -> (blank: Vec<bool>)
    ensures
        blank@ == blank_marks(chars@),
{
    let n = chars.len();
    let mut blank: Vec<bool> = Vec::new();
    let mut i: usize = 0;
    while i < n
        invariant
            i <= n,
            n == chars@.len(),
            blank@ == blank_marks(chars@.take(i as int)),
        decreases n - i,
    {
        blank.push(is_whitespace(chars[i]));
        i += 1;
    }
    blank
}

/// Splits `chars` into its words, given which positions hold a blank:
/// position `i` is blank where `blank[i]` is set, and a position that `blank`
/// does not reach is not.
pub fn split_words(chars: &Vec<char>, blank: &Vec<bool>) -> (words: Vec<Vec<char>>)
    ensures
        views(words@) == words_from(chars@, blank@, 0),
{
    let n = chars.len();
    let mut words: Vec<Vec<char>> = Vec::new();
    let mut i: usize = 0;
    while i < n
        invariant
            i <= n,
            n == chars@.len(),
            words_from(chars@, blank@, 0) == views(words@) + words_from(chars@, blank@, i as int),
        decreases n - i,
    {
        if i < blank.len() && blank[i] {
            i += 1;
        } else {
            let start = i;
            let mut word: Vec<char> = Vec::new();
            word.push(chars[i]);
            i += 1;
            while i < n && !(i < blank.len() && blank[i])
                invariant
                    start < i <= n,
                    n == chars@.len(),
                    word@ == chars@.subrange(start as int, i as int),
                    word_end(chars@, blank@, start + 1) == word_end(chars@, blank@, i as int),
                decreases n - i,
            {
                word.push(chars[i]);
                i += 1;
            }
            words.push(word);
        }
    }
    words
}

/// Puts `upper` in place of the first character of `word`. An empty word
/// stays empty.
pub fn capitalize(word: &Vec<char>, upper: &Vec<char>) -> (out: Vec<char>)
    ensures
        out@ == capitalized_with(word@, upper@),
{
    let mut out: Vec<char> = Vec::new();
    if word.len() == 0 {
        return out;
    }
    let mut k: usize = 0;
    while k < upper.len()
        invariant
            k <= upper@.len(),
            out@ == upper@.take(k as int),
        decreases upper@.len() - k,
    {
        out.push(upper[k]);
        k += 1;
    }
    let mut i: usize = 1;
    while i < word.len()
        invariant
            1 <= i <= word@.len(),
            out@ == upper@ + word@.subrange(1, i as int),
        decreases word@.len() - i,
    {
        out.push(word[i]);
        i += 1;
    }
    out
}

/// Joins `words` with single spaces.
pub fn join_words(words: &Vec<Vec<char>>) -> (text: String)
    ensures
        text@ == joined(views(words@)),
{
    let mut text = String::new();
    let mut k: usize = 0;
    while k < words.len()
        invariant
            k <= words@.len(),
            text@ == joined(views(words@).take(k as int)),
        decreases words@.len() - k,
    {
        if k > 0 {
            text.push(' ');
        }
        let ghost glued = text@;
        let word = &words[k];
        let mut i: usize = 0;
        while i < word.len()
            invariant
                i <= word@.len(),
                text@ == glued + word@.take(i as int),
            decreases word@.len() - i,
        {
            text.push(word[i]);
            i += 1;
        }
        k += 1;
        assert(views(words@).take(k as int).drop_last() == views(words@).take(k - 1));
    }
    assert(views(words@).take(words@.len() as int) == views(words@));
    text
}

/// The display form of a stored exercise name.
pub fn to_title_case(input: &str) -> (title: String)
    ensures
        title@ == title_case(input@),
{
    let chars = expand_separators(input);
    let blank = mark_blanks(&chars);
    let words = split_words(&chars, &blank);
    let mut capitals: Vec<Vec<char>> = Vec::new();
    let mut k: usize = 0;
    while k < words.len()
        invariant
            k <= words@.len(),
            views(capitals@) == capitalized_all(views(words@).take(k as int)),
        decreases words@.len() - k,
    {
        let ghost before = views(capitals@);
        let word = &words[k];
        let capital = if word.len() == 0 {
            Vec::new()
        } else {
            let upper = to_uppercase(word[0]);
            capitalize(word, &upper)
        };
        assert(capital@ == capitalized(word@));
        capitals.push(capital);
        k += 1;
        assert(views(capitals@) == before.push(capitalized(word@)));
    }
    assert(views(words@).take(words@.len() as int) == views(words@));
    join_words(&capitals)
}

} // verus!
