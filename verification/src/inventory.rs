//! The voice inventory: speaker identifiers of the provider's catalog,
//! grouped by generic language key.

use vstd::prelude::*;
use vstd::string::StrSliceExecFns;
use crate::language::{generic_key, generic_language_from_code, has_generic_key};

verus! {

/// A synthesis engine tier that a voice may support.
#[derive(Clone, Copy, Debug, PartialEq, Eq, Structural)]
pub enum Engine {
    Generative,
    LongForm,
    Neural,
    Standard,
    /// A tier that this library does not know by name.
    Unknown,
}

/// One voice of the provider's catalog, as plain values.
#[derive(Debug)]
pub struct Voice {
    /// The speaker identifier, where the provider gave one.
    pub id: Option<String>,
    /// The primary language code.
    pub language_code: Option<String>,
    /// Further language codes that the voice speaks.
    pub additional_language_codes: Vec<String>,
    /// The engine tiers that the voice supports.
    pub supported_engines: Vec<Engine>,
}

/// The mathematical value of a `Voice`.
pub ghost struct VoiceView {
    pub id: Option<Seq<char>>,
    pub language_code: Option<Seq<char>>,
    pub additional_language_codes: Seq<Seq<char>>,
    pub supported_engines: Seq<Engine>,
}

/// The character sequences of a sequence of strings.
pub open spec fn texts(strings: Seq<String>) -> Seq<Seq<char>> {
    strings.map_values(|s: String| s@)
}

/// The character sequence of an optional string.
pub open spec fn optional_text(string: Option<String>) -> Option<Seq<char>> {
    match string {
        Some(s) => Some(s@),
        None => None,
    }
}

impl View for Voice {
    type V = VoiceView;

    open spec fn view(&self) -> VoiceView {
        VoiceView {
            id: optional_text(self.id),
            language_code: optional_text(self.language_code),
            additional_language_codes: texts(self.additional_language_codes@),
            supported_engines: self.supported_engines@,
        }
    }
}

/// A pair of a generic language key and a speaker identifier.
pub type Entry = (Seq<char>, Seq<char>);

impl VoiceView {
    /// Whether the voice supports the baseline engine tier.
    pub open spec fn supports_standard(self) -> bool {
        self.supported_engines.contains(Engine::Standard)
    }

    /// The language codes of the voice: the additional ones in their order,
    /// then the primary one.
    pub open spec fn codes(self) -> Seq<Seq<char>>
        recommends
            self.language_code is Some,
    {
        self.additional_language_codes.push(self.language_code.unwrap())
    }

    /// Whether the inventory can take the voice: one that supports the
    /// baseline tier has a primary language code, and each of its codes
    /// yields a generic key.
    pub open spec fn usable(self) -> bool {
        self.supports_standard() ==> {
            &&& self.language_code is Some
            &&& forall|j: int|
                0 <= j < self.codes().len() ==> has_generic_key(#[trigger] self.codes()[j])
        }
    }

    /// What the voice adds to the inventory: for a voice with an identifier
    /// that supports the baseline tier, one entry for each of its codes, in
    /// their order; for any other voice, nothing.
    pub open spec fn entries(self) -> Seq<Entry> {
        if self.supports_standard() && self.id is Some {
            self.codes().map_values(|code: Seq<char>| (generic_key(code), self.id.unwrap()))
        } else {
            Seq::empty()
        }
    }
}

impl Voice {
    /// Whether the voice supports the baseline engine tier.
    pub fn supports_standard(&self) -> (supported: bool)
        ensures
            supported == self@.supports_standard(),
    {
        let mut i: usize = 0;
        while i < self.supported_engines.len()
            invariant
                i <= self.supported_engines@.len(),
                forall|j: int| 0 <= j < i ==> self.supported_engines@[j] != Engine::Standard,
            decreases self.supported_engines@.len() - i,
        {
            if self.supported_engines[i] == Engine::Standard {
                return true;
            }
            i += 1;
        }
        false
    }

    /// Whether the inventory can take the voice.
    pub fn is_usable(&self) -> (usable: bool)
        ensures
            usable == self@.usable(),
    {
        if !self.supports_standard() {
            return true;
        }
        let primary = match &self.language_code {
            Some(code) => code,
            None => {
                return false;
            },
        };
        let ghost codes = self@.codes();
        let n: usize = self.additional_language_codes.len();
        if primary.as_str().unicode_len() < 2 {
            assert(!has_generic_key(codes[n as int]));
            return false;
        }
        let mut j: usize = 0;
        while j < n
            invariant
                j <= n,
                n == self.additional_language_codes@.len(),
                codes == self@.codes(),
                self@.supports_standard(),
                self.language_code is Some,
                forall|k: int| 0 <= k < j ==> has_generic_key(#[trigger] codes[k]),
            decreases n - j,
        {
            assert(codes[j as int] == self.additional_language_codes@[j as int]@);
            if self.additional_language_codes[j].as_str().unicode_len() < 2 {
                assert(!has_generic_key(codes[j as int]));
                return false;
            }
            j += 1;
        }
        true
    }
}

/// The values of the voices of a catalog.
pub open spec fn catalog_view(voices: Seq<Voice>) -> Seq<VoiceView> {
    voices.map_values(|v: Voice| v@)
}

/// Whether every voice of a catalog is usable.
pub open spec fn usable_catalog(voices: Seq<VoiceView>) -> bool {
    forall|i: int| 0 <= i < voices.len() ==> (#[trigger] voices[i]).usable()
}

/// Whether every voice of a catalog is usable.
pub fn catalog_is_usable(voices: &Vec<Voice>) -> (usable: bool)
    ensures
        usable == usable_catalog(catalog_view(voices@)),
{
    let ghost views = catalog_view(voices@);
    let mut i: usize = 0;
    while i < voices.len()
        invariant
            i <= voices@.len(),
            views == catalog_view(voices@),
            forall|j: int| 0 <= j < i ==> (#[trigger] views[j]).usable(),
        decreases voices@.len() - i,
    {
        assert(views[i as int] == voices@[i as int]@);
        if !voices[i].is_usable() {
            return false;
        }
        i += 1;
    }
    true
}

/// The entries of a whole catalog, voice after voice.
pub open spec fn catalog_entries(voices: Seq<VoiceView>) -> Seq<Entry>
    decreases voices.len(),
{
    if voices.len() == 0 {
        Seq::empty()
    } else {
        catalog_entries(voices.drop_last()) + voices.last().entries()
    }
}

/// The speakers that `entries` lists under `key`, in the order of the entries
/// and as often as they are listed.
pub open spec fn bucket_of(entries: Seq<Entry>, key: Seq<char>) -> Seq<Seq<char>>
    decreases entries.len(),
{
    if entries.len() == 0 {
        Seq::empty()
    } else if entries.last().0 == key {
        bucket_of(entries.drop_last(), key).push(entries.last().1)
    } else {
        bucket_of(entries.drop_last(), key)
    }
}

/// The inventory that `entries` describes: a bucket for each key that occurs
/// among them.
pub open spec fn indexed(entries: Seq<Entry>) -> Map<Seq<char>, Seq<Seq<char>>> {
    Map::new(
        |key: Seq<char>| bucket_of(entries, key).len() > 0,
        |key: Seq<char>| bucket_of(entries, key),
    )
}

/// The speakers that a map holds under a key: none where it has no such key.
pub open spec fn speakers_in(buckets: Map<Seq<char>, Seq<Seq<char>>>, key: Seq<char>) -> Seq<
    Seq<char>,
> {
    if buckets.contains_key(key) {
        buckets[key]
    } else {
        Seq::empty()
    }
}

/// One more entry lengthens the bucket of its key and leaves the others.
pub proof fn lemma_indexed_push(entries: Seq<Entry>, key: Seq<char>, speaker: Seq<char>)
    ensures
        indexed(entries.push((key, speaker))) =~= indexed(entries).insert(
            key,
            speakers_in(indexed(entries), key).push(speaker),
        ),
{
    let longer = entries.push((key, speaker));
    assert(longer.drop_last() =~= entries);
    assert forall|k: Seq<char>|
        #[trigger] bucket_of(longer, k) == if k == key {
            bucket_of(entries, k).push(speaker)
        } else {
            bucket_of(entries, k)
        } by {}
    if bucket_of(entries, key).len() == 0 {
        assert(bucket_of(entries, key) =~= Seq::empty());
    }
}

/// The speakers of one generic language key.
struct Bucket {
    key: String,
    speakers: Vec<String>,
}

/// Speaker identifiers by generic language key.
pub struct VoiceInventory {
    buckets: Vec<Bucket>,
}

impl VoiceInventory {
    /// No two buckets carry the same key.
    pub closed spec fn wf(&self) -> bool {
        forall|i: int, j: int|
            0 <= i < j < self.buckets@.len() ==> (#[trigger] self.buckets@[i]).key@ != (
            #[trigger] self.buckets@[j]).key@
    }

    /// Whether bucket `i` carries `key`.
    spec fn holds_at(&self, i: int, key: Seq<char>) -> bool {
        0 <= i < self.buckets@.len() && self.buckets@[i].key@ == key
    }

    /// The place of the bucket of `key`.
    spec fn place(&self, key: Seq<char>) -> int {
        choose|i: int| self.holds_at(i, key)
    }

    /// The keys of the first `n` buckets.
    spec fn keys_before(&self, n: int) -> Set<Seq<char>> {
        Set::new(|key: Seq<char>| exists|i: int| 0 <= i < n && self.holds_at(i, key))
    }
}

impl View for VoiceInventory {
    type V = Map<Seq<char>, Seq<Seq<char>>>;

    closed spec fn view(&self) -> Map<Seq<char>, Seq<Seq<char>>> {
        Map::new(
            |key: Seq<char>| exists|i: int| self.holds_at(i, key),
            |key: Seq<char>| texts(self.buckets@[self.place(key)].speakers@),
        )
    }
}

impl VoiceInventory {
    /// An inventory without buckets.
    pub fn new() -> (inventory: VoiceInventory)
        ensures
            inventory.wf(),
            inventory@ == Map::<Seq<char>, Seq<Seq<char>>>::empty(),
    {
        let inventory = VoiceInventory { buckets: Vec::new() };
        assert(inventory@ =~= Map::<Seq<char>, Seq<Seq<char>>>::empty());
        inventory
    }

    /// The first `n` buckets of a well-formed inventory carry `n` keys.
    proof fn lemma_keys_before(&self, n: int)
        requires
            self.wf(),
            0 <= n <= self.buckets@.len(),
        ensures
            self.keys_before(n).finite(),
            self.keys_before(n).len() == n,
        decreases n,
    {
        if n == 0 {
            assert(self.keys_before(0) =~= Set::<Seq<char>>::empty());
        } else {
            self.lemma_keys_before(n - 1);
            let key = self.buckets@[n - 1].key@;
            assert(self.holds_at(n - 1, key));
            assert(!self.keys_before(n - 1).contains(key)) by {
                if self.keys_before(n - 1).contains(key) {
                    let i = choose|i: int| 0 <= i < n - 1 && self.holds_at(i, key);
                    assert(self.buckets@[i].key@ == self.buckets@[n - 1].key@);
                }
            }
            assert(self.keys_before(n) =~= self.keys_before(n - 1).insert(key)) by {
                assert forall|k: Seq<char>| self.keys_before(n).contains(k) implies self.keys_before(
                    n - 1,
                ).insert(key).contains(k) by {
                    let i = choose|i: int| 0 <= i < n && self.holds_at(i, k);
                    if i < n - 1 {
                        assert(self.keys_before(n - 1).contains(k));
                    }
                }
                assert forall|k: Seq<char>|
                    self.keys_before(n - 1).insert(key).contains(k) implies self.keys_before(
                    n,
                ).contains(k) by {
                    if k != key {
                        let i = choose|i: int| 0 <= i < n - 1 && self.holds_at(i, k);
                        assert(0 <= i < n && self.holds_at(i, k));
                    }
                }
            }
        }
    }

    /// The number of generic language keys with a bucket.
    pub fn len(&self) -> (count: usize)
        requires
            self.wf(),
        ensures
            self@.dom().finite(),
            count == self@.dom().len(),
    {
        proof {
            self.lemma_keys_before(self.buckets@.len() as int);
            assert(self@.dom() =~= self.keys_before(self.buckets@.len() as int));
        }
        self.buckets.len()
    }

    /// In a well-formed inventory the bucket of a key stands at one place only.
    proof fn lemma_place(&self, i: int, key: Seq<char>)
        requires
            self.wf(),
            self.holds_at(i, key),
        ensures
            self.place(key) == i,
    {
        let p = self.place(key);
        assert(self.holds_at(p, key));
        assert(self.buckets@[p].key@ == self.buckets@[i].key@);
    }

    fn find(&self, key: &String) -> (found: Option<usize>)
        requires
            self.wf(),
        ensures
            match found {
                Some(i) => self.holds_at(i as int, key@) && self.place(key@) == i,
                None => forall|i: int| !self.holds_at(i, key@),
            },
    {
        let mut i: usize = 0;
        while i < self.buckets.len()
            invariant
                self.wf(),
                i <= self.buckets@.len(),
                forall|j: int| 0 <= j < i ==> !self.holds_at(j, key@),
            decreases self.buckets@.len() - i,
        {
            if self.buckets[i].key == *key {
                assert(self.holds_at(i as int, key@));
                let ghost p = self.place(key@);
                assert(self.holds_at(p, key@));
                assert(self.buckets@[p].key@ == self.buckets@[i as int].key@);
                return Some(i);
            }
            i += 1;
        }
        None
    }

    /// The bucket of a generic language key, if there is one.
    pub fn get(&self, key: &String) -> (bucket: Option<&Vec<String>>)
        requires
            self.wf(),
        ensures
            match bucket {
                Some(speakers) => self@.contains_key(key@) && texts(speakers@) == self@[key@],
                None => !self@.contains_key(key@),
            },
    {
        match self.find(key) {
            Some(i) => Some(&self.buckets[i].speakers),
            None => None,
        }
    }

    /// Appends a speaker to the bucket of a key, which is made if it is not
    /// there yet.
    pub fn register(&mut self, key: String, speaker: String)
        requires
            old(self).wf(),
        ensures
            final(self).wf(),
            final(self)@ == old(self)@.insert(
                key@,
                speakers_in(old(self)@, key@).push(speaker@),
            ),
    {
        let ghost before = *self;
        match self.find(&key) {
            Some(i) => {
                self.buckets[i].speakers.push(speaker);
                proof {
                    assert(texts(self.buckets@[i as int].speakers@) =~= texts(
                        before.buckets@[i as int].speakers@,
                    ).push(speaker@));
                    assert forall|k: Seq<char>, j: int|
                        self.holds_at(j, k) == before.holds_at(j, k) by {}
                    assert(self.wf());
                    let target = before@.insert(
                        key@,
                        speakers_in(before@, key@).push(speaker@),
                    );
                    before.lemma_place(i as int, key@);
                    assert forall|k: Seq<char>| self@.contains_key(k) implies #[trigger]
                        target.contains_key(k) && self@[k] == target[k] by {
                        let j = choose|j: int| self.holds_at(j, k);
                        assert(before.holds_at(j, k));
                        self.lemma_place(j, k);
                        before.lemma_place(j, k);
                    }
                    assert forall|k: Seq<char>| #[trigger]
                        target.contains_key(k) implies self@.contains_key(k) by {
                        if k != key@ {
                            let j = choose|j: int| before.holds_at(j, k);
                            assert(self.holds_at(j, k));
                        } else {
                            assert(self.holds_at(i as int, k));
                        }
                    }
                    assert(self@ =~= target);
                }
            },
            None => {
                let mut speakers: Vec<String> = Vec::new();
                speakers.push(speaker);
                self.buckets.push(Bucket { key, speakers });
                proof {
                    let last = before.buckets@.len() as int;
                    assert(texts(self.buckets@[last].speakers@) =~= Seq::<Seq<char>>::empty().push(
                        speaker@,
                    ));
                    assert(self.holds_at(last, key@));
                    assert forall|k: Seq<char>, j: int|
                        self.holds_at(j, k) == (before.holds_at(j, k) || (j == last && k
                            == key@)) by {}
                    assert(self.wf()) by {
                        assert forall|a: int, b: int| 0 <= a < b < self.buckets@.len() implies (
                        #[trigger] self.buckets@[a]).key@ != (#[trigger] self.buckets@[b]).key@ by {
                            if b == last {
                                assert(!before.holds_at(a, key@));
                            } else {
                                assert(before.buckets@[a].key@ != before.buckets@[b].key@);
                            }
                        }
                    }
                    let target = before@.insert(
                        key@,
                        speakers_in(before@, key@).push(speaker@),
                    );
                    assert(!before@.contains_key(key@));
                    assert forall|k: Seq<char>| self@.contains_key(k) implies #[trigger]
                        target.contains_key(k) && self@[k] == target[k] by {
                        let j = choose|j: int| self.holds_at(j, k);
                        self.lemma_place(j, k);
                        if j != last {
                            assert(before.holds_at(j, k));
                            before.lemma_place(j, k);
                        }
                    }
                    assert forall|k: Seq<char>| #[trigger]
                        target.contains_key(k) implies self@.contains_key(k) by {
                        if k != key@ {
                            let j = choose|j: int| before.holds_at(j, k);
                            assert(self.holds_at(j, k));
                        } else {
                            assert(self.holds_at(last, k));
                        }
                    }
                    assert(self@ =~= target);
                }
            },
        }
    }

    /// Builds the inventory of a catalog: the voices that support the baseline
    /// engine tier and have an identifier, each under the generic key of each
    /// of its language codes, in the order of the catalog.
    pub fn build(voices: &Vec<Voice>) -> (inventory: VoiceInventory)
        requires
            usable_catalog(catalog_view(voices@)),
        ensures
            inventory.wf(),
            inventory@ == indexed(catalog_entries(catalog_view(voices@))),
    {
        let ghost views = catalog_view(voices@);
        let mut inventory = VoiceInventory::new();
        let ghost mut done: Seq<Entry> = Seq::empty();
        proof {
            assert(views.take(0) =~= Seq::<VoiceView>::empty());
            assert(inventory@ =~= indexed(done));
        }
        let mut i: usize = 0;
        while i < voices.len()
            invariant
                i <= voices@.len(),
                views == catalog_view(voices@),
                usable_catalog(views),
                inventory.wf(),
                done == catalog_entries(views.take(i as int)),
                inventory@ == indexed(done),
            decreases voices@.len() - i,
        {
            let voice = &voices[i];
            proof {
                assert(views[i as int] == voice@);
                assert(views.take(i + 1).drop_last() =~= views.take(i as int));
                assert(views.take(i + 1).last() == voice@);
                assert(voice@.usable());
            }
            let listed = voice.supports_standard();
            match (&voice.id, &voice.language_code) {
                (Some(id), Some(primary)) if listed => {
                    let ghost base = done;
                    let ghost added = voice@.entries();
                    let n: usize = voice.additional_language_codes.len();
                    let mut j: usize = 0;
                    proof {
                        assert(added.take(0) =~= Seq::<Entry>::empty());
                        assert(base + added.take(0) =~= base);
                    }
                    while j < n
                        invariant
                            j <= n,
                            n == voice.additional_language_codes@.len(),
                            voice@.usable(),
                            voice@.supports_standard(),
                            voice.id == Some(*id),
                            voice.language_code == Some(*primary),
                            added == voice@.entries(),
                            inventory.wf(),
                            done == base + added.take(j as int),
                            inventory@ == indexed(done),
                        decreases n - j,
                    {
                        let code = &voice.additional_language_codes[j];
                        proof {
                            assert(voice@.codes()[j as int] == code@);
                            assert(has_generic_key(voice@.codes()[j as int]));
                            assert(added[j as int] == (generic_key(code@), id@));
                            assert(added.take(j + 1) =~= added.take(j as int).push(
                                added[j as int],
                            ));
                            assert(base + added.take(j + 1) =~= (base + added.take(
                                j as int,
                            )).push(added[j as int]));
                            lemma_indexed_push(done, generic_key(code@), id@);
                        }
                        let key = generic_language_from_code(code.as_str());
                        inventory.register(key, id.clone());
                        proof {
                            done = done.push((generic_key(code@), id@));
                        }
                        j += 1;
                    }
                    proof {
                        assert(voice@.codes()[n as int] == primary@);
                        assert(has_generic_key(voice@.codes()[n as int]));
                        assert(added[n as int] == (generic_key(primary@), id@));
                        assert(added.len() == n + 1);
                        assert(added =~= added.take(n as int).push(added[n as int]));
                        assert(base + added =~= (base + added.take(n as int)).push(
                            added[n as int],
                        ));
                        lemma_indexed_push(done, generic_key(primary@), id@);
                    }
                    let key = generic_language_from_code(primary.as_str());
                    inventory.register(key, id.clone());
                    proof {
                        done = done.push((generic_key(primary@), id@));
                    }
                },
                _ => {
                    proof {
                        assert(voice@.entries() =~= Seq::<Entry>::empty());
                        assert(done + voice@.entries() =~= done);
                    }
                },
            }
            i += 1;
        }
        proof {
            assert(views.take(voices@.len() as int) =~= views);
        }
        inventory
    }
}

} // verus!
