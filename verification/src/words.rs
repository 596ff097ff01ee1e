//! Splitting a line of source text into its whitespace-separated words.

use vstd::prelude::*;

verus! {

/// Whether `c` is white space: one of the code points that Unicode marks as
/// `White_Space`.
pub open spec fn is_whitespace(c: char) -> bool {
    let u = c as int;
    ||| 0x09 <= u <= 0x0d
    ||| u == 0x20
    ||| u == 0x85
    ||| u == 0xa0
    ||| u == 0x1680
    ||| 0x2000 <= u <= 0x200a
    ||| u == 0x2028
    ||| u == 0x2029
    ||| u == 0x202f
    ||| u == 0x205f
    ||| u == 0x3000
}

/// Where the run of characters other than white space that holds position `i`
/// ends: the first position from `i` on that is white space or past the end.
pub open spec fn word_end(s: Seq<char>, i: int) -> int
    decreases s.len() - i,
{
    if 0 <= i < s.len() && !is_whitespace(s[i]) {
        word_end(s, i + 1)
    } else {
        i
    }
}

/// The words of `s` that start at position `i` or later, in order.
pub open spec fn words_from(s: Seq<char>, i: int) -> Seq<Seq<char>>
    decreases s.len() - i,
{
    if i < 0 || i >= s.len() {
        Seq::empty()
    } else if is_whitespace(s[i]) {
        words_from(s, i + 1)
    } else {
        proof {
            lemma_word_end_bounds(s, i + 1);
        }
        seq![s.subrange(i, word_end(s, i))] + words_from(s, word_end(s, i))
    }
}

/// The words of a line: its maximal runs of characters other than white
/// space, in order. A line of white space alone has none.
pub open spec fn words_of(s: Seq<char>) -> Seq<Seq<char>> {
    words_from(s, 0)
}

/// The text of each string of `v`.
pub open spec fn texts(v: Seq<String>) -> Seq<Seq<char>> {
    v.map_values(|s: String| s@)
}

/// A word ends at or after the position it is asked from, and within the line.
pub proof fn lemma_word_end_bounds(s: Seq<char>, i: int)
    requires
        0 <= i <= s.len(),
    ensures
        i <= word_end(s, i) <= s.len(),
    decreases s.len() - i,
{
    if i < s.len() && !is_whitespace(s[i]) {
        lemma_word_end_bounds(s, i + 1);
    }
}

/// Whether `c` is white space.
pub fn is_whitespace_char(c: char) -> (b: bool)
    ensures
        b == is_whitespace(c),
{
    let u: u32 = c as u32;
    (0x09 <= u && u <= 0x0d) || u == 0x20 || u == 0x85 || u == 0xa0 || u == 0x1680 || (0x2000 <= u
        && u <= 0x200a) || u == 0x2028 || u == 0x2029 || u == 0x202f || u == 0x205f || u == 0x3000
}

/// The characters of `text`, one by one.
pub fn chars_of(text: &str) -> (chars: Vec<char>)
    ensures
        chars@ == text@,
{
    let mut chars: Vec<char> = Vec::new();
    for c in it: text.chars()
        invariant
            it.seq() == text@,
            chars@ == it.seq().take(it.index()),
    {
        chars.push(c);
    }
    chars
}

/// Splits `line` into its words.
pub fn split_words(line: &str) -> (words: Vec<String>)
    ensures
        texts(words@) == words_of(line@),
{
    let chars = chars_of(line);
    let n = chars.len();
    let mut words: Vec<String> = Vec::new();
    let mut i: usize = 0;
    while i < n
        invariant
            chars@ == line@,
            n == chars.len(),
            0 <= i <= n,
            texts(words@) + words_from(line@, i as int) == words_of(line@),
        decreases n - i,
    {
        if is_whitespace_char(chars[i]) {
            i = i + 1;
        } else {
            let start = i;
            i = i + 1;
            while i < n && !is_whitespace_char(chars[i])
                invariant
                    chars@ == line@,
                    n == chars.len(),
                    start < i <= n,
                    word_end(line@, i as int) == word_end(line@, start as int),
                decreases n - i,
            {
                i = i + 1;
            }
            let word = String::from_str(line.substring_char(start, i));
            assert(texts(words@.push(word)) =~= texts(words@) + seq![word@]);
            words.push(word);
        }
    }
    words
}

/// A line of white space alone, from position `i` on, has no words there.
pub proof fn lemma_blank_line_has_no_words(s: Seq<char>, i: int)
    requires
        0 <= i,
        forall|k: int| i <= k < s.len() ==> is_whitespace(#[trigger] s[k]),
    ensures
        words_from(s, i) == Seq::<Seq<char>>::empty(),
    decreases s.len() - i,
{
    if i < s.len() {
        lemma_blank_line_has_no_words(s, i + 1);
    }
}

/// Whether `word` is not empty and holds no white space.
pub open spec fn is_word(word: Seq<char>) -> bool {
    &&& word.len() > 0
    &&& forall|j: int| 0 <= j < word.len() ==> !is_whitespace(#[trigger] word[j])
}

/// Every word of a line is a piece of the line that is not empty and holds
/// no white space.
pub proof fn lemma_words_hold_no_whitespace(s: Seq<char>, i: int)
    requires
        0 <= i,
    ensures
        forall|k: int| 0 <= k < words_from(s, i).len() ==> is_word(#[trigger] words_from(s, i)[k]),
    decreases s.len() - i,
{
    if i < s.len() {
        if is_whitespace(s[i]) {
            lemma_words_hold_no_whitespace(s, i + 1);
            assert(words_from(s, i) == words_from(s, i + 1));
        } else {
            let end = word_end(s, i);
            lemma_word_end_bounds(s, i + 1);
            lemma_word_holds_no_whitespace(s, i, i);
            lemma_words_hold_no_whitespace(s, end);
            assert(is_word(s.subrange(i, end)));
            assert(words_from(s, i) == seq![s.subrange(i, end)] + words_from(s, end));
        }
    }
}

/// No position from the start of a word up to its end is white space.
proof fn lemma_word_holds_no_whitespace(s: Seq<char>, start: int, i: int)
    requires
        0 <= start <= i <= s.len(),
        word_end(s, i) == word_end(s, start),
        forall|j: int| start <= j < i ==> !is_whitespace(#[trigger] s[j]),
    ensures
        forall|j: int| start <= j < word_end(s, start) ==> !is_whitespace(#[trigger] s[j]),
    decreases s.len() - i,
{
    if i < s.len() && !is_whitespace(s[i]) {
        lemma_word_holds_no_whitespace(s, start, i + 1);
    }
}

} // verus!
