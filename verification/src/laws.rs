//! Laws of the store, of the dispatcher and of the shell, stated over the
//! models that the contracts of the executable functions use.

use crate::cli::Operation;
use crate::dispatch::{answer, apply, leaves_store, list_lines, not_found_line};
use crate::repl::{keeps_store, next_model, parse, reply_lines, Request};
use crate::store::{deletion, is_listing_of, lookup, Model};
use crate::text::{
    is_space, is_word, join_spaced, lemma_word_len, lemma_word_len_is, word_len, words, Text,
};
use vstd::prelude::*;

verus! {

/// The mapping after every operation of `ops` has been applied to `m`, from
/// the first to the last.
pub open spec fn apply_all(m: Model, ops: Seq<Operation>) -> Model
    decreases ops.len(),
{
    if ops.len() == 0 {
        m
    } else {
        apply(apply_all(m, ops.drop_last()), ops.last())
    }
}

/// Whether `op` stores a value under `key`.
pub open spec fn puts(op: Operation, key: Text) -> bool {
    op matches Operation::Put { key: k, value } && k == key
}

/// A lookup finds nothing under a key that was never set: whatever was done
/// to a store since it was empty, as long as none of it stored a value under
/// the key.
pub proof fn lemma_never_set_is_absent(ops: Seq<Operation>, key: Text)
    requires
        forall|i: int| 0 <= i < ops.len() ==> !puts(#[trigger] ops[i], key),
    ensures
        lookup(apply_all(Model::empty(), ops), key) is None,
    decreases ops.len(),
{
    if ops.len() > 0 {
        assert forall|i: int| 0 <= i < ops.drop_last().len() implies !puts(
            #[trigger] ops.drop_last()[i],
            key,
        ) by {
            assert(ops.drop_last()[i] == ops[i]);
        }
        lemma_never_set_is_absent(ops.drop_last(), key);
        assert(!puts(ops[ops.len() - 1], key));
    }
}

/// After a value has been stored under a key, a lookup of the key finds that
/// value, whatever it holds, and every other key is found as before.
pub proof fn lemma_get_after_set(m: Model, key: Text, value: Text, other: Text)
    ensures
        lookup(m.insert(key, value), key) == Some(value),
        other != key ==> lookup(m.insert(key, value), other) == lookup(m, other),
{
}

/// Of two values stored under one key the second stays: the store is as if
/// the first had never been stored.
pub proof fn lemma_last_write_wins(m: Model, key: Text, first: Text, second: Text)
    ensures
        lookup(m.insert(key, first).insert(key, second), key) == Some(second),
        m.insert(key, first).insert(key, second) == m.insert(key, second),
{
    assert(m.insert(key, first).insert(key, second) =~= m.insert(key, second));
}

/// A key that the store holds is deleted once: the deletion succeeds, and a
/// second deletion of the same key fails and names the key.
pub proof fn lemma_delete_succeeds_once(m: Model, key: Text)
    requires
        m.contains_key(key),
    ensures
        deletion(m, key) == Ok::<Model, Text>(m.remove(key)),
        deletion(m.remove(key), key) == Err::<Model, Text>(key),
{
}

/// The mapping that a deletion of `key` from `m` leaves behind, whether the
/// deletion succeeds or fails.
pub open spec fn after_deletion(m: Model, key: Text) -> Model {
    match deletion(m, key) {
        Ok(after) => after,
        Err(_) => m,
    }
}

/// After the deletion of a key, a lookup finds nothing under it and no
/// listing of the store holds it; every other key is found as before.
pub proof fn lemma_deleted_key_is_gone(m: Model, key: Text, listing: Seq<(Text, Text)>, other: Text)
    requires
        is_listing_of(listing, after_deletion(m, key)),
    ensures
        lookup(after_deletion(m, key), key) is None,
        forall|i: int| 0 <= i < listing.len() ==> (#[trigger] listing[i]).0 != key,
        other != key ==> lookup(after_deletion(m, key), other) == lookup(m, other),
        after_deletion(m, key) == apply(m, Operation::Delete { key }),
{
    assert forall|i: int| 0 <= i < listing.len() implies (#[trigger] listing[i]).0 != key by {
        assert(after_deletion(m, key).contains_pair(listing[i].0, listing[i].1));
    }
    assert(after_deletion(m, key) =~= m.remove(key));
}

/// A listing of the empty store is empty, and is shown as the one line
/// `(empty)`.
pub proof fn lemma_empty_store_lists_nothing(listing: Seq<(Text, Text)>)
    requires
        is_listing_of(listing, Model::empty()),
    ensures
        listing.len() == 0,
        list_lines(listing) == seq!["(empty)"@],
        answer(Model::empty(), listing, Operation::List) == seq!["(empty)"@],
{
    if listing.len() > 0 {
        assert(Model::empty().contains_pair(listing[0].0, listing[0].1));
    }
}

/// A lookup changes nothing, so that the same lookup gives the same answer
/// however often it is repeated.
pub proof fn lemma_get_is_repeatable(m: Model, listing: Seq<(Text, Text)>, key: Text)
    ensures
        apply(m, Operation::Get { key }) == m,
        leaves_store(m, Operation::Get { key }),
        answer(apply(m, Operation::Get { key }), listing, Operation::Get { key }) == answer(
            m,
            listing,
            Operation::Get { key },
        ),
{
}

/// A line that holds nothing but separators has no words.
pub proof fn lemma_blank_has_no_words(line: Text)
    requires
        forall|i: int| 0 <= i < line.len() ==> is_space(#[trigger] line[i]),
    ensures
        words(line).len() == 0,
    decreases line.len(),
{
    if line.len() > 0 {
        let rest = line.drop_first();
        assert forall|i: int| 0 <= i < rest.len() implies is_space(#[trigger] rest[i]) by {
            assert(rest[i] == line[i + 1]);
        }
        lemma_blank_has_no_words(rest);
    }
}

/// An empty line, or one of separators only, makes the shell print nothing,
/// leaves the store exactly as it is and does not end the session.
pub proof fn lemma_blank_line_does_nothing(m: Model, listing: Seq<(Text, Text)>, line: Text)
    requires
        forall|i: int| 0 <= i < line.len() ==> is_space(#[trigger] line[i]),
    ensures
        parse(line) == Request::Blank,
        reply_lines(m, listing, parse(line)).len() == 0,
        next_model(m, parse(line)) == m,
        keeps_store(m, parse(line)),
{
    lemma_blank_has_no_words(line);
}

/// Deleting a key that the store does not hold prints that the key was not
/// found, and leaves the store exactly as it is.
pub proof fn lemma_delete_of_missing_key(m: Model, listing: Seq<(Text, Text)>, key: Text)
    requires
        !m.contains_key(key),
    ensures
        answer(m, listing, Operation::Delete { key }) == seq![not_found_line(key)],
        leaves_store(m, Operation::Delete { key }),
        apply(m, Operation::Delete { key }) == m,
{
    assert(m.remove(key) =~= m);
}

/// Every word of a line is a word: it holds a character, and no separator.
pub proof fn lemma_words_are_words(line: Text)
    ensures
        forall|i: int| 0 <= i < words(line).len() ==> is_word(#[trigger] words(line)[i]),
    decreases line.len(),
{
    if line.len() == 0 {
    } else if is_space(line[0]) {
        lemma_words_are_words(line.drop_first());
        assert(words(line) == words(line.drop_first()));
    } else {
        lemma_word_len(line);
        let n = word_len(line) as int;
        lemma_words_are_words(line.skip(n));
        assert(words(line) == seq![line.take(n)] + words(line.skip(n)));
        assert forall|i: int| 0 <= i < words(line).len() implies is_word(
            #[trigger] words(line)[i],
        ) by {
            if i > 0 {
                assert(words(line)[i] == words(line.skip(n))[i - 1]);
            } else {
                let first = line.take(n);
                assert(words(line)[0] == first);
                assert forall|j: int| 0 <= j < first.len() implies !is_space(
                    #[trigger] first[j],
                ) by {
                    assert(first[j] == line[j]);
                }
            }
        }
    }
}

/// A word alone on a line is the one word of that line.
pub proof fn lemma_words_of_word(word: Text)
    requires
        is_word(word),
    ensures
        words(word) == seq![word],
{
    lemma_word_len_is(word, word.len() as int);
    assert(!is_space(word[0]));
    assert(word.take(word.len() as int) =~= word);
    assert(word.skip(word.len() as int) =~= Text::empty());
    assert(words(Text::empty()) =~= Seq::<Text>::empty());
    assert(words(word) =~= seq![word]);
}

/// A word written after a line and one space is one more word of that line.
pub proof fn lemma_words_of_appended(line: Text, word: Text)
    requires
        is_word(word),
    ensures
        words(line + seq![' '] + word) == words(line).push(word),
    decreases line.len(),
{
    let whole = line + seq![' '] + word;
    if line.len() == 0 {
        assert(whole.drop_first() =~= word);
        lemma_words_of_word(word);
    } else if is_space(line[0]) {
        assert(whole.drop_first() =~= line.drop_first() + seq![' '] + word);
        lemma_words_of_appended(line.drop_first(), word);
    } else {
        lemma_word_len(line);
        let n = word_len(line) as int;
        assert forall|i: int| 0 <= i < n implies !is_space(#[trigger] whole[i]) by {
            assert(whole[i] == line[i]);
        }
        assert(is_space(whole[n])) by {
            if n < line.len() {
                assert(whole[n] == line[n]);
            }
        }
        lemma_word_len_is(whole, n);
        assert(whole.take(n) =~= line.take(n));
        assert(whole.skip(n) =~= line.skip(n) + seq![' '] + word);
        lemma_words_of_appended(line.skip(n), word);
        assert(words(whole) =~= words(line).push(word));
    }
}

/// Splitting undoes joining: words joined by single spaces make a line whose
/// words they are. So a value that the shell has built from the words of a
/// line holds those words and one space between each two of them, whatever
/// separated them in the line.
pub proof fn lemma_words_of_joined(parts: Seq<Text>)
    requires
        forall|i: int| 0 <= i < parts.len() ==> is_word(#[trigger] parts[i]),
    ensures
        words(join_spaced(parts)) == parts,
    decreases parts.len(),
{
    if parts.len() == 0 {
        assert(words(Text::empty()) =~= parts);
    } else if parts.len() == 1 {
        lemma_words_of_word(parts[0]);
        assert(seq![parts[0]] =~= parts);
    } else {
        let front = parts.drop_last();
        assert forall|i: int| 0 <= i < front.len() implies is_word(#[trigger] front[i]) by {
            assert(front[i] == parts[i]);
        }
        lemma_words_of_joined(front);
        lemma_words_of_appended(join_spaced(front), parts.last());
        assert(front.push(parts.last()) =~= parts);
    }
}

} // verus!
