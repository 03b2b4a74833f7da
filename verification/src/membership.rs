//! Which speakers stand in which buckets of an inventory, and how often.

use vstd::prelude::*;
use crate::inventory::{bucket_of, catalog_entries, indexed, speakers_in, Entry, VoiceView};
use crate::language::generic_key;

verus! {

/// How often `item` occurs in `items`.
pub open spec fn count_of<T>(items: Seq<T>, item: T) -> nat
    decreases items.len(),
{
    if items.len() == 0 {
        0
    } else if items.last() == item {
        count_of(items.drop_last(), item) + 1
    } else {
        count_of(items.drop_last(), item)
    }
}

/// Counting in a concatenation adds the counts of its parts.
pub proof fn lemma_count_add<T>(left: Seq<T>, right: Seq<T>, item: T)
    ensures
        count_of(left + right, item) == count_of(left, item) + count_of(right, item),
    decreases right.len(),
{
    if right.len() == 0 {
        assert(left + right =~= left);
    } else {
        assert((left + right).drop_last() =~= left + right.drop_last());
        assert((left + right).last() == right.last());
        lemma_count_add(left, right.drop_last(), item);
    }
}

/// An item occurs in a sequence exactly when its count there is not zero.
pub proof fn lemma_count_contains<T>(items: Seq<T>, item: T)
    ensures
        items.contains(item) <==> count_of(items, item) > 0,
    decreases items.len(),
{
    if items.len() > 0 {
        lemma_count_contains(items.drop_last(), item);
        if items.contains(item) {
            let i = choose|i: int| 0 <= i < items.len() && items[i] == item;
            if i < items.len() - 1 {
                assert(items.drop_last()[i] == item);
            }
        }
        if items.drop_last().contains(item) {
            let i = choose|i: int| 0 <= i < items.drop_last().len() && items.drop_last()[i] == item;
            assert(items[i] == item);
        }
        if items.last() == item {
            assert(items[items.len() - 1] == item);
        }
    }
}

/// An item that occurs at one place of a sequence and nowhere else has the
/// count one.
pub proof fn lemma_count_single<T>(items: Seq<T>, item: T, place: int)
    requires
        0 <= place < items.len(),
        items[place] == item,
        forall|i: int| 0 <= i < items.len() && i != place ==> items[i] != item,
    ensures
        count_of(items, item) == 1,
    decreases items.len(),
{
    let front = items.drop_last();
    if place == items.len() - 1 {
        lemma_count_contains(front, item);
        if front.contains(item) {
            let i = choose|i: int| 0 <= i < front.len() && front[i] == item;
            assert(items[i] == item);
        }
    } else {
        assert(front[place] == item);
        assert forall|i: int| 0 <= i < front.len() && i != place implies front[i] != item by {
            assert(front[i] == items[i]);
        }
        lemma_count_single(front, item, place);
    }
}

/// A speaker occurs in the bucket of a key as often as the pair of the key
/// and the speaker occurs among the entries.
pub proof fn lemma_bucket_count(entries: Seq<Entry>, key: Seq<char>, speaker: Seq<char>)
    ensures
        count_of(bucket_of(entries, key), speaker) == count_of(entries, (key, speaker)),
    decreases entries.len(),
{
    if entries.len() > 0 {
        lemma_bucket_count(entries.drop_last(), key, speaker);
        if entries.last().0 == key {
            let bucket = bucket_of(entries.drop_last(), key);
            assert(bucket.push(entries.last().1).drop_last() =~= bucket);
            assert(bucket.push(entries.last().1).last() == entries.last().1);
        }
    }
}

/// A voice that lacks the baseline tier, or carries another identifier than
/// `speaker`, adds no entry of `speaker`.
pub proof fn lemma_voice_adds_none(voice: VoiceView, key: Seq<char>, speaker: Seq<char>)
    requires
        voice.id == Some(speaker) ==> !voice.supports_standard(),
    ensures
        count_of(voice.entries(), (key, speaker)) == 0,
{
    lemma_count_contains(voice.entries(), (key, speaker));
    if voice.entries().contains((key, speaker)) {
        let i = choose|i: int|
            0 <= i < voice.entries().len() && voice.entries()[i] == (key, speaker);
        assert(voice.entries()[i].1 == voice.id.unwrap());
    }
}

/// The baseline tier is a condition of the inventory: a speaker that no voice
/// of the catalog carries together with support for the baseline tier stands
/// in no bucket.
pub proof fn lemma_non_standard_excluded(voices: Seq<VoiceView>, key: Seq<char>, speaker: Seq<char>)
    requires
        forall|i: int|
            0 <= i < voices.len() && (#[trigger] voices[i]).id == Some(speaker)
                ==> !voices[i].supports_standard(),
    ensures
        count_of(catalog_entries(voices), (key, speaker)) == 0,
        !bucket_of(catalog_entries(voices), key).contains(speaker),
        !speakers_in(indexed(catalog_entries(voices)), key).contains(speaker),
    decreases voices.len(),
{
    if voices.len() > 0 {
        let front = voices.drop_last();
        assert forall|i: int| 0 <= i < front.len() && (#[trigger] front[i]).id == Some(
            speaker,
        ) implies !front[i].supports_standard() by {
            assert(front[i] == voices[i]);
        }
        lemma_non_standard_excluded(front, key, speaker);
        assert(voices.last() == voices[voices.len() - 1]);
        lemma_voice_adds_none(voices.last(), key, speaker);
        lemma_count_add(catalog_entries(front), voices.last().entries(), (key, speaker));
    }
    lemma_bucket_count(catalog_entries(voices), key, speaker);
    lemma_count_contains(bucket_of(catalog_entries(voices), key), speaker);
}

/// Whether the language codes of a voice reduce to generic keys that differ
/// from one another.
pub open spec fn distinct_keys(voice: VoiceView) -> bool {
    forall|a: int, b: int|
        0 <= a < b < voice.codes().len() ==> generic_key(#[trigger] voice.codes()[a])
            != generic_key(#[trigger] voice.codes()[b])
}

/// A voice with several language codes stands once in the bucket of each of
/// them: where the voice at `place` supports the baseline tier and has an
/// identifier that no other voice of the catalog carries, and its codes
/// reduce to generic keys that differ from one another, its identifier has
/// the count one in the bucket of the generic key of each of its codes.
pub proof fn lemma_once_per_key(voices: Seq<VoiceView>, place: int, code: int)
    requires
        0 <= place < voices.len(),
        voices[place].supports_standard(),
        voices[place].id is Some,
        forall|i: int|
            0 <= i < voices.len() && i != place ==> (#[trigger] voices[i]).id != voices[place].id,
        distinct_keys(voices[place]),
        0 <= code < voices[place].codes().len(),
    ensures
        count_of(
            bucket_of(catalog_entries(voices), generic_key(voices[place].codes()[code])),
            voices[place].id.unwrap(),
        ) == 1,
        indexed(catalog_entries(voices)).contains_key(generic_key(voices[place].codes()[code])),
        count_of(
            indexed(catalog_entries(voices))[generic_key(voices[place].codes()[code])],
            voices[place].id.unwrap(),
        ) == 1,
    decreases voices.len(),
{
    let voice = voices[place];
    let speaker = voice.id.unwrap();
    let key = generic_key(voice.codes()[code]);
    let front = voices.drop_last();
    let last = voices.last();
    assert(last == voices[voices.len() - 1]);
    lemma_count_add(catalog_entries(front), last.entries(), (key, speaker));
    if place == voices.len() - 1 {
        assert forall|i: int| 0 <= i < front.len() && (#[trigger] front[i]).id == Some(
            speaker,
        ) implies !front[i].supports_standard() by {
            assert(front[i] == voices[i]);
        }
        lemma_non_standard_excluded(front, key, speaker);
        let added = voice.entries();
        assert(added[code] == (key, speaker));
        assert forall|i: int| 0 <= i < added.len() && i != code implies added[i] != (
            key,
            speaker,
        ) by {
            assert(added[i].0 == generic_key(voice.codes()[i]));
        }
        lemma_count_single(added, (key, speaker), code);
    } else {
        assert(front[place] == voice);
        assert forall|i: int| 0 <= i < front.len() && i != place implies (#[trigger] front[i]).id
            != front[place].id by {
            assert(front[i] == voices[i]);
        }
        lemma_once_per_key(front, place, code);
        lemma_bucket_count(catalog_entries(front), key, speaker);
        lemma_voice_adds_none(last, key, speaker);
    }
    lemma_bucket_count(catalog_entries(voices), key, speaker);
    lemma_count_contains(bucket_of(catalog_entries(voices), key), speaker);
}

} // verus!
