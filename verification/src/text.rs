//! Text as contracts see it, and the three things done with it: comparing
//! two strings, splitting a line into words at ASCII whitespace, and joining
//! words with single spaces.

use vstd::prelude::*;
use vstd::utf8::{encode_utf8, encode_utf8_decode_utf8};

verus! {

/// A string as contracts see it: its characters in order.
pub type Text = Seq<char>;

/// What a list of borrowed strings holds.
pub open spec fn texts(v: Seq<&str>) -> Seq<Text> {
    Seq::new(v.len(), |i: int| v[i]@)
}

/// What a list of owned strings holds.
pub open spec fn lines(v: Seq<String>) -> Seq<Text> {
    Seq::new(v.len(), |i: int| v[i]@)
}

/// Whether two strings hold the same characters.
pub fn same_text(a: &str, b: &str) -> (same: bool)
    ensures
        same == (a@ == b@),
{
    let x = a.as_bytes();
    let y = b.as_bytes();
    proof {
        encode_utf8_decode_utf8(a@);
        encode_utf8_decode_utf8(b@);
    }
    if x.len() != y.len() {
        return false;
    }
    let mut i: usize = 0;
    while i < x.len()
        invariant
            i <= x@.len(),
            x@.len() == y@.len(),
            x@ == encode_utf8(a@),
            y@ == encode_utf8(b@),
            forall|j: int| 0 <= j < i ==> x@[j] == y@[j],
        decreases x@.len() - i,
    {
        if x[i] != y[i] {
            return false;
        }
        i += 1;
    }
    assert(x@ =~= y@);
    true
}

/// The ASCII characters that separate words: tab, line feed, vertical tab,
/// form feed, carriage return and space. No other character does.
pub open spec fn is_space(c: char) -> bool {
    c == '\t' || c == '\n' || c == '\u{0B}' || c == '\u{0C}' || c == '\r' || c == ' '
}

/// `w` is a word: at least one character, none of them a separator.
pub open spec fn is_word(w: Text) -> bool {
    w.len() > 0 && forall|i: int| 0 <= i < w.len() ==> !is_space(#[trigger] w[i])
}

/// The number of characters before the first separator of `s`, or the length
/// of `s` where it has none.
pub open spec fn word_len(s: Text) -> nat
    decreases s.len(),
{
    if s.len() == 0 || is_space(s[0]) {
        0
    } else {
        1 + word_len(s.drop_first())
    }
}

/// The words of `s`: the longest runs of characters that are no separators,
/// from left to right.
pub open spec fn words(s: Text) -> Seq<Text>
    decreases s.len(),
{
    if s.len() == 0 {
        Seq::empty()
    } else if is_space(s[0]) {
        words(s.drop_first())
    } else {
        proof {
            lemma_word_len(s);
        }
        let n = word_len(s) as int;
        seq![s.take(n)] + words(s.skip(n))
    }
}

/// The words of `parts` with one space between each two neighbours.
pub open spec fn join_spaced(parts: Seq<Text>) -> Text
    decreases parts.len(),
{
    if parts.len() == 0 {
        Seq::empty()
    } else if parts.len() == 1 {
        parts[0]
    } else {
        join_spaced(parts.drop_last()) + seq![' '] + parts.last()
    }
}

/// `word_len` stops at the first separator and not before.
pub proof fn lemma_word_len(s: Text)
    ensures
        word_len(s) <= s.len(),
        forall|i: int| 0 <= i < word_len(s) ==> !is_space(#[trigger] s[i]),
        word_len(s) < s.len() ==> is_space(s[word_len(s) as int]),
    decreases s.len(),
{
    if s.len() == 0 || is_space(s[0]) {
    } else {
        let t = s.drop_first();
        lemma_word_len(t);
        assert forall|i: int| 0 <= i < word_len(s) implies !is_space(#[trigger] s[i]) by {
            if i > 0 {
                assert(s[i] == t[i - 1]);
            }
        }
        if word_len(s) < s.len() {
            assert(s[word_len(s) as int] == t[word_len(t) as int]);
        }
    }
}

/// A run of `n` characters that are no separators, ended by a separator or by
/// the end of `s`, is the whole first word.
pub proof fn lemma_word_len_is(s: Text, n: int)
    requires
        0 <= n <= s.len(),
        forall|i: int| 0 <= i < n ==> !is_space(#[trigger] s[i]),
        n < s.len() ==> is_space(s[n]),
    ensures
        word_len(s) == n,
    decreases s.len(),
{
    if n == 0 {
    } else {
        let t = s.drop_first();
        assert forall|i: int| 0 <= i < n - 1 implies !is_space(#[trigger] t[i]) by {
            assert(t[i] == s[i + 1]);
        }
        lemma_word_len_is(t, n - 1);
    }
}

/// A leading separator belongs to no word.
pub proof fn lemma_words_skip_space(s: Text, at: int)
    requires
        0 <= at < s.len(),
        is_space(s[at]),
    ensures
        words(s.skip(at)) == words(s.skip(at + 1)),
{
    assert(s.skip(at).drop_first() =~= s.skip(at + 1));
}

/// A run of characters that are no separators, from `start` up to a separator
/// or the end of `s` at `end`, is the next word.
pub proof fn lemma_words_take_word(s: Text, start: int, end: int)
    requires
        0 <= start < end <= s.len(),
        forall|i: int| start <= i < end ==> !is_space(#[trigger] s[i]),
        end < s.len() ==> is_space(s[end]),
    ensures
        words(s.skip(start)) == seq![s.subrange(start, end)] + words(s.skip(end)),
{
    let t = s.skip(start);
    lemma_word_len_is(t, end - start);
    assert(t.take(end - start) =~= s.subrange(start, end));
    assert(t.skip(end - start) =~= s.skip(end));
}

/// Splits `line` into its words.
pub fn split_words<'a>(line: &'a str) -> (found: Vec<&'a str>)
    ensures
        texts(found@) == words(line@),
{
    let total = line.unicode_len();
    let mut found: Vec<&'a str> = Vec::new();
    let mut start: usize = 0;
    let mut inside = false;
    let mut at: usize = 0;
    assert(line@.skip(0) =~= line@);
    for c in it: line.chars()
        invariant
            it.seq() == line@,
            at == it.index(),
            total == line@.len(),
            inside ==> start < at,
            inside ==> forall|i: int| start <= i < at ==> !is_space(#[trigger] line@[i]),
            words(line@) == texts(found@) + words(
                line@.skip(if inside { start as int } else { at as int }),
            ),
    {
        let ghost before = texts(found@);
        if is_separator(c) {
            if inside {
                let word = line.substring_char(start, at);
                found.push(word);
                inside = false;
                proof {
                    lemma_words_take_word(line@, start as int, at as int);
                    assert(texts(found@) =~= before + seq![line@.subrange(start as int, at as int)]);
                }
            }
            proof {
                lemma_words_skip_space(line@, at as int);
            }
        } else if !inside {
            start = at;
            inside = true;
        }
        at += 1;
    }
    if inside {
        let ghost before = texts(found@);
        let word = line.substring_char(start, total);
        found.push(word);
        proof {
            lemma_words_take_word(line@, start as int, total as int);
            assert(texts(found@) =~= before + seq![line@.subrange(start as int, total as int)]);
            assert(line@.skip(total as int) =~= Text::empty());
        }
    } else {
        assert(line@.skip(at as int) =~= Text::empty());
    }
    found
}

/// Joins `parts` with one space between each two neighbours.
pub fn join_words(parts: &[&str]) -> (joined: String)
    ensures
        joined@ == join_spaced(texts(parts@)),
{
    let mut joined = String::new();
    let mut i: usize = 0;
    while i < parts.len()
        invariant
            i <= parts@.len(),
            joined@ == join_spaced(texts(parts@).take(i as int)),
        decreases parts@.len() - i,
    {
        proof {
            reveal_strlit(" ");
            assert(texts(parts@).take(i + 1).drop_last() =~= texts(parts@).take(i as int));
        }
        if i > 0 {
            joined.append(" ");
            assert(" "@ =~= seq![' ']);
        } else {
            assert(join_spaced(texts(parts@).take(0)) =~= Text::empty());
            assert(joined@ + parts@[0]@ =~= parts@[0]@);
        }
        joined.append(parts[i]);
        i += 1;
    }
    assert(texts(parts@).take(parts@.len() as int) =~= texts(parts@));
    joined
}

/// Whether `c` separates words.
pub fn is_separator(c: char) -> (yes: bool)
    ensures
        yes == is_space(c),
{
    c == '\t' || c == '\n' || c == '\u{0B}' || c == '\u{0C}' || c == '\r' || c == ' '
}

} // verus!
