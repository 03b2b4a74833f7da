//! The draw of one speaker from the bucket of a generic language key.

use vstd::prelude::*;
use rand::rngs::StdRng;
use rand::rngs::ThreadRng;
use rand::seq::IndexedRandom;
use rand::SeedableRng;
use crate::inventory::VoiceInventory;

verus! {

/// rand's generator that lives in the calling thread.
#[verifier::external_type_specification]
#[verifier::external_body]
pub struct ExThreadRng(ThreadRng);

/// rand's standard generator.
#[verifier::external_type_specification]
#[verifier::external_body]
pub struct ExStdRng(StdRng);

/// Calls `rand::rng`, which hands out the generator of the calling thread.
/// Nothing is claimed of it.
#[verifier::external_body]
fn thread_generator() -> ThreadRng {
    rand::rng()
}

/// Calls `StdRng::from_rng`, which seeds a new standard generator with bytes
/// drawn from `source`. Nothing is claimed of it.
#[verifier::external_body]
fn seeded_from(source: &mut ThreadRng) -> StdRng {
    StdRng::from_rng(source)
}

/// Calls `IndexedRandom::choose` of rand on the slice of `speakers`. It
/// returns nothing for an empty slice, and otherwise a reference to the
/// element at an index that the generator drew below the length. Which
/// element that is depends on the generator and is left open.
#[verifier::external_body]
fn choose_speaker<'a>(speakers: &'a Vec<String>, generator: &mut StdRng) -> (chosen: Option<
    &'a String,
>)
    ensures
        speakers@.len() == 0 ==> chosen is None,
        speakers@.len() > 0 ==> chosen is Some && speakers@.contains(*chosen.unwrap()),
{
    speakers.choose(generator)
}

/// Why no speaker could be selected for a generic language key.
#[derive(Clone, Copy, Debug, PartialEq, Eq, Structural)]
pub enum NoSpeakersForLanguage {
    /// The inventory has no bucket for the key.
    KeyAbsent,
    /// The bucket of the key holds no speaker.
    BucketEmpty,
}

/// Draws one speaker of the bucket of `key` with a freshly seeded generator.
/// Each call is independent of the others. Which speaker of the bucket comes
/// out is left to the generator; that one does, if the bucket holds any, is
/// promised.
pub fn select<'a>(inventory: &'a VoiceInventory, key: &String) -> (selection: Result<
    &'a String,
    NoSpeakersForLanguage,
>)
    requires
        inventory.wf(),
    ensures
        match selection {
            Ok(speaker) => inventory@.contains_key(key@) && inventory@[key@].contains(speaker@),
            Err(NoSpeakersForLanguage::KeyAbsent) => !inventory@.contains_key(key@),
            Err(NoSpeakersForLanguage::BucketEmpty) => inventory@.contains_key(key@)
                && inventory@[key@].len() == 0,
        },
{
    let speakers = match inventory.get(key) {
        Some(speakers) => speakers,
        None => {
            return Err(NoSpeakersForLanguage::KeyAbsent);
        },
    };
    let mut source = thread_generator();
    let mut generator = seeded_from(&mut source);
    match choose_speaker(speakers, &mut generator) {
        Some(speaker) => {
            proof {
                let i = choose|i: int| 0 <= i < speakers@.len() && speakers@[i] == *speaker;
                assert(inventory@[key@][i] == speaker@);
            }
            Ok(speaker)
        },
        None => Err(NoSpeakersForLanguage::BucketEmpty),
    }
}

} // verus!
