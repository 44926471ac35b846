//! The words of an input line: the runs of characters between white space,
//! and the line without the white space around it.

use crate::format::texts;
use vstd::prelude::*;
use vstd::string::StrSliceExecFns;

verus! {

/// Whether a character is white space, and so parts words: one of the
/// characters that Unicode gives the property White_Space. These are the
/// blank, the tab, the line feed and the other controls from U+0009 to
/// U+000D, the next-line control, the no-break spaces, the spaces of fixed
/// width, and the line and paragraph separators.
pub open spec fn is_space(c: char) -> bool {
    let n = c as u32;
    ||| 0x9 <= n <= 0xd
    ||| n == 0x20
    ||| n == 0x85
    ||| n == 0xa0
    ||| n == 0x1680
    ||| 0x2000 <= n <= 0x200a
    ||| n == 0x2028
    ||| n == 0x2029
    ||| n == 0x202f
    ||| n == 0x205f
    ||| n == 0x3000
}

/// The index of the first character from `i` on that is no white space; the
/// length of `s` where there is none.
pub open spec fn skip_spaces(s: Seq<char>, i: int) -> int
    decreases s.len() - i,
{
    if i < 0 || i >= s.len() {
        s.len() as int
    } else if !is_space(s[i]) {
        i
    } else {
        skip_spaces(s, i + 1)
    }
}

/// The index of the first white space from `i` on; the length of `s` where
/// there is none.
pub open spec fn word_end(s: Seq<char>, i: int) -> int
    decreases s.len() - i,
{
    if i < 0 || i >= s.len() {
        s.len() as int
    } else if is_space(s[i]) {
        i
    } else {
        word_end(s, i + 1)
    }
}

/// Neither search goes back, nor beyond the end.
pub proof fn lemma_search_bounds(s: Seq<char>, i: int)
    requires
        0 <= i <= s.len(),
    ensures
        i <= skip_spaces(s, i) <= s.len(),
        i <= word_end(s, i) <= s.len(),
    decreases s.len() - i,
{
    if i < s.len() {
        lemma_search_bounds(s, i + 1);
    }
}

/// The words of `s` from index `i` on, in their order.
pub open spec fn words_from(s: Seq<char>, i: int) -> Seq<Seq<char>>
    decreases s.len() - i,
    via words_from_ends
{
    let start = skip_spaces(s, i);
    if i < 0 || start >= s.len() {
        Seq::empty()
    } else {
        let end = word_end(s, start + 1);
        seq![s.subrange(start, end)] + words_from(s, end)
    }
}

#[via_fn]
proof fn words_from_ends(s: Seq<char>, i: int) {
    if 0 <= i <= s.len() {
        lemma_search_bounds(s, i);
        let start = skip_spaces(s, i);
        if start < s.len() {
            lemma_search_bounds(s, start + 1);
        }
    }
}

/// The words of `s`, in their order.
pub open spec fn words_of(s: Seq<char>) -> Seq<Seq<char>> {
    words_from(s, 0)
}

/// Whether `c` is white space.
pub fn parts_words(c: char) -> (parts: bool)
    ensures
        parts == is_space(c),
{
    let n = c as u32;
    (0x9 <= n && n <= 0xd) || n == 0x20 || n == 0x85 || n == 0xa0 || n == 0x1680 || (0x2000 <= n
        && n <= 0x200a) || n == 0x2028 || n == 0x2029 || n == 0x202f || n == 0x205f || n == 0x3000
}

/// The index after the last character of the first `j` of `s` that is no
/// white space; zero where they are all white space.
pub open spec fn trim_end(s: Seq<char>, j: int) -> int
    decreases j,
{
    if j <= 0 || j > s.len() {
        0
    } else if !is_space(s[j - 1]) {
        j
    } else {
        trim_end(s, j - 1)
    }
}

/// `s` without the white space before its first and after its last
/// character that is none; nothing where `s` is all white space.
pub open spec fn trimmed(s: Seq<char>) -> Seq<char> {
    let start = skip_spaces(s, 0);
    let end = trim_end(s, s.len() as int);
    if start < end {
        s.subrange(start, end)
    } else {
        Seq::empty()
    }
}

/// `line` without the white space around it.
pub fn trim(line: &str) -> (text: String)
    ensures
        text@ == trimmed(line@),
{
    let length = line.unicode_len();
    let mut start: usize = 0;
    while start < length && parts_words(line.get_char(start))
        invariant
            length == line@.len(),
            start <= length,
            skip_spaces(line@, 0) == skip_spaces(line@, start as int),
        decreases length - start,
    {
        start += 1;
    }
    let mut end: usize = length;
    while end > 0 && parts_words(line.get_char(end - 1))
        invariant
            length == line@.len(),
            end <= length,
            trim_end(line@, length as int) == trim_end(line@, end as int),
        decreases end,
    {
        end -= 1;
    }
    if start < end {
        line.substring_char(start, end).to_owned()
    } else {
        String::new()
    }
}

/// The words of `line`, in their order.
pub fn split_words(line: &str) -> (words: Vec<String>)
    ensures
        texts(words@) == words_of(line@),
{
    let length = line.unicode_len();
    let mut words: Vec<String> = Vec::new();
    let mut i: usize = 0;
    assert(texts(words@) + words_from(line@, 0) =~= words_of(line@));
    loop
        invariant_except_break
            texts(words@) + words_from(line@, i as int) == words_of(line@),
        invariant
            length == line@.len(),
            i <= length,
        ensures
            texts(words@) == words_of(line@),
        decreases length - i,
    {
        let ghost from = i;
        while i < length && parts_words(line.get_char(i))
            invariant
                length == line@.len(),
                from <= i <= length,
                skip_spaces(line@, from as int) == skip_spaces(line@, i as int),
            decreases length - i,
        {
            i += 1;
        }
        if i >= length {
            assert(texts(words@) + Seq::<Seq<char>>::empty() =~= texts(words@));
            break ;
        }
        let start = i;
        i += 1;
        while i < length && !parts_words(line.get_char(i))
            invariant
                length == line@.len(),
                start < i <= length,
                word_end(line@, start + 1) == word_end(line@, i as int),
            decreases length - i,
        {
            i += 1;
        }
        let word = line.substring_char(start, i).to_owned();
        proof {
            let before = texts(words@);
            let rest = words_from(line@, i as int);
            assert(words_from(line@, from as int) == seq![word@] + rest);
            assert(texts(words@.push(word)) =~= before.push(word@));
            assert(before.push(word@) + rest =~= before + (seq![word@] + rest));
        }
        words.push(word);
    }
    words
}

} // verus!
