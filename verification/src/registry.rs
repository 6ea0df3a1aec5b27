//! The registry itself: the counter of ids, the kitties on record, and the
//! two calls that add to them.

use crate::account::AccountId;
use crate::dna::recombine;
use crate::entropy::{blake2_128, payload, spec_random_value};
use crate::error::{Error, Event};
use crate::kitty::Kitty;
use crate::state::State;
use vstd::prelude::*;

verus! {

/// One kitty on record, with the owner and the id that it stands under.
struct Entry {
    owner: AccountId,
    id: u32,
    kitty: Kitty,
}

impl Entry {
    /// The pair that the entry is found by.
    spec fn key(self) -> (Seq<u8>, u32) {
        (self.owner@, self.id)
    }
}

/// Whether no two entries stand under the same owner and id.
spec fn distinct_keys(entries: Seq<Entry>) -> bool {
    forall|i: int, j: int|
        0 <= i < j < entries.len() ==> (#[trigger] entries[i]).key() != (
        #[trigger] entries[j]).key()
}

/// Whether some entry stands under `key`.
spec fn has_key(entries: Seq<Entry>, key: (Seq<u8>, u32)) -> bool {
    exists|i: int| 0 <= i < entries.len() && (#[trigger] entries[i]).key() == key
}

/// The place of an entry that stands under `key`.
spec fn place_of(entries: Seq<Entry>, key: (Seq<u8>, u32)) -> int {
    choose|i: int| 0 <= i < entries.len() && (#[trigger] entries[i]).key() == key
}

/// The entries as a map from owner and id to DNA.
spec fn entries_map(entries: Seq<Entry>) -> Map<(Seq<u8>, u32), Seq<u8>> {
    Map::new(
        |key: (Seq<u8>, u32)| has_key(entries, key),
        |key: (Seq<u8>, u32)| entries[place_of(entries, key)].kitty@,
    )
}

/// An entry among distinct ones is what the map holds under its key.
proof fn lemma_entry_in_map(entries: Seq<Entry>, i: int)
    requires
        distinct_keys(entries),
        0 <= i < entries.len(),
    ensures
        entries_map(entries).dom().contains(entries[i].key()),
        entries_map(entries)[entries[i].key()] == entries[i].kitty@,
{
    let key = entries[i].key();
    assert(has_key(entries, key));
    let j = place_of(entries, key);
    assert(entries[j].key() == key);
    assert(i == j);
}

/// Putting an entry in the place of one with the same key writes its DNA
/// under that key and changes nothing else.
proof fn lemma_replace_entry(before: Seq<Entry>, i: int, entry: Entry)
    requires
        distinct_keys(before),
        0 <= i < before.len(),
        before[i].key() == entry.key(),
    ensures
        distinct_keys(before.update(i, entry)),
        entries_map(before.update(i, entry)) == entries_map(before).insert(
            entry.key(),
            entry.kitty@,
        ),
{
    let after = before.update(i, entry);
    assert forall|a: int, b: int| 0 <= a < b < after.len() implies (#[trigger] after[a]).key() != (
    #[trigger] after[b]).key() by {
        assert(after[a].key() == before[a].key());
        assert(after[b].key() == before[b].key());
    }
    assert forall|k: (Seq<u8>, u32)| has_key(after, k) == has_key(before, k) by {
        if has_key(before, k) {
            assert(after[place_of(before, k)].key() == k);
        }
        if has_key(after, k) {
            assert(before[place_of(after, k)].key() == k);
        }
    }
    assert forall|k: (Seq<u8>, u32)| has_key(after, k) implies #[trigger] entries_map(after)[k]
        == entries_map(before).insert(entry.key(), entry.kitty@)[k] by {
        let j = place_of(after, k);
        lemma_entry_in_map(after, j);
        if k != entry.key() {
            lemma_entry_in_map(before, j);
        } else {
            lemma_entry_in_map(after, i);
        }
    }
    assert(entries_map(after) =~= entries_map(before).insert(entry.key(), entry.kitty@));
}

/// Adding an entry under a key that no entry has writes its DNA under that
/// key and changes nothing else.
proof fn lemma_push_entry(before: Seq<Entry>, entry: Entry)
    requires
        distinct_keys(before),
        !has_key(before, entry.key()),
    ensures
        distinct_keys(before.push(entry)),
        entries_map(before.push(entry)) == entries_map(before).insert(entry.key(), entry.kitty@),
{
    let after = before.push(entry);
    let last = before.len() as int;
    assert(after[last].key() == entry.key());
    assert forall|a: int, b: int| 0 <= a < b < after.len() implies (#[trigger] after[a]).key() != (
    #[trigger] after[b]).key() by {
        assert(after[a] == before[a]);
        if b < last {
            assert(after[b] == before[b]);
        }
    }
    assert forall|k: (Seq<u8>, u32)|
        has_key(after, k) == (k == entry.key() || has_key(before, k)) by {
        if has_key(before, k) {
            assert(after[place_of(before, k)].key() == k);
        }
        if has_key(after, k) {
            let j = place_of(after, k);
            if j < last {
                assert(before[j].key() == k);
            }
        }
    }
    assert forall|k: (Seq<u8>, u32)| has_key(after, k) implies #[trigger] entries_map(after)[k]
        == entries_map(before).insert(entry.key(), entry.kitty@)[k] by {
        let j = place_of(after, k);
        lemma_entry_in_map(after, j);
        if k != entry.key() {
            lemma_entry_in_map(before, j);
        } else {
            lemma_entry_in_map(after, last);
        }
    }
    assert(entries_map(after) =~= entries_map(before).insert(entry.key(), entry.kitty@));
}

/// Where the entry of this owner and id stands, if there is one.
fn position(entries: &Vec<Entry>, owner: &AccountId, kitty_id: u32) -> (place: Option<usize>)
    ensures
        match place {
            Some(i) => i < entries@.len() && entries@[i as int].key() == (owner@, kitty_id),
            None => !has_key(entries@, (owner@, kitty_id)),
        },
{
    let mut i: usize = 0;
    while i < entries.len()
        invariant
            i <= entries@.len(),
            forall|j: int| 0 <= j < i ==> (#[trigger] entries@[j]).key() != (owner@, kitty_id),
        decreases entries@.len() - i,
    {
        if entries[i].id == kitty_id && entries[i].owner.same(owner) {
            return Some(i);
        }
        i += 1;
    }
    None
}

/// The kitties registry: the id that the next kitty gets, and every kitty on
/// record under its owner and id.
pub struct Module {
    next_kitty_id: u32,
    entries: Vec<Entry>,
}

impl View for Module {
    type V = State;

    closed spec fn view(&self) -> State {
        State { next_kitty_id: self.next_kitty_id, kitties: entries_map(self.entries@) }
    }
}

impl Module {
    #[verifier::type_invariant]
    spec fn well_formed(self) -> bool {
        distinct_keys(self.entries@)
    }

    /// The registry at genesis: the counter at 0, no kitty on record.
    pub fn new() -> (module: Module)
        ensures
            module@ == State::genesis(),
    {
        let module = Module { next_kitty_id: 0, entries: Vec::new() };
        assert(module@.kitties =~= Map::empty());
        module
    }

    /// A registry with no kitty on record yet whose counter stands at
    /// `next_kitty_id`, as when a persisted counter is taken up again.
    pub fn with_next_kitty_id(next_kitty_id: u32) -> (module: Module)
        ensures
            module@ == (State { next_kitty_id, kitties: Map::empty() }),
    {
        let module = Module { next_kitty_id, entries: Vec::new() };
        assert(module@.kitties =~= Map::empty());
        module
    }

    /// The id that the next kitty will get.
    pub fn next_kitty_id(&self) -> (next: u32)
        ensures
            next == self@.next_kitty_id,
    {
        self.next_kitty_id
    }

    /// The kitty on record for exactly this owner and id. An id that is on
    /// record under another owner is not found.
    pub fn kitties(&self, owner: &AccountId, kitty_id: u32) -> (found: Option<Kitty>)
        ensures
            match found {
                Some(kitty) => self@.get(owner@, kitty_id) == Some(kitty@),
                None => self@.get(owner@, kitty_id).is_none(),
            },
    {
        proof {
            use_type_invariant(self);
        }
        match position(&self.entries, owner, kitty_id) {
            Some(i) => {
                proof {
                    lemma_entry_in_map(self.entries@, i as int);
                }
                Some(self.entries[i].kitty)
            },
            None => None,
        }
    }

    /// Writes `kitty` under this owner and id, in place of whatever stood
    /// there. Nothing else on record changes, nor does the counter. The id
    /// is taken as given: a write under an id that the counter has yet to
    /// issue is not refused, and a later `create` or `breed` that is issued
    /// this id for the same owner overwrites it. `State::consistent` holds of
    /// the registries in which that cannot happen.
    pub fn insert(&mut self, owner: &AccountId, kitty_id: u32, kitty: Kitty)
        ensures
            final(self)@ == old(self)@.insert(owner@, kitty_id, kitty@),
    {
        proof {
            use_type_invariant(&*self);
        }
        let entry = Entry { owner: owner.clone(), id: kitty_id, kitty };
        let mut entries: Vec<Entry> = Vec::new();
        core::mem::swap(&mut self.entries, &mut entries);
        match position(&entries, owner, kitty_id) {
            Some(i) => {
                proof {
                    lemma_replace_entry(entries@, i as int, entry);
                }
                entries.set(i, entry);
            },
            None => {
                proof {
                    lemma_push_entry(entries@, entry);
                }
                entries.push(entry);
            },
        }
        self.entries = entries;
    }

    /// Issues the next id. The counter's value before the call is the id,
    /// and the counter goes up by one; at the end of the counter's range the
    /// call fails and the registry stays exactly as it was.
    pub fn get_next_kitty_id(&mut self) -> (issued: Result<u32, Error>)
        ensures
            match old(self)@.next_id() {
                Ok((kitty_id, state)) => issued == Ok::<u32, Error>(kitty_id) && final(self)@
                    == state,
                Err(error) => issued == Err::<u32, Error>(error) && final(self)@ == old(self)@,
            },
            issued == Err::<u32, Error>(Error::KittiesIdOverflow) <==> old(self)@.next_kitty_id
                == u32::MAX,
            issued.is_err() ==> *final(self) == *old(self),
            issued.is_ok() ==> {
                &&& issued == Ok::<u32, Error>(old(self)@.next_kitty_id)
                &&& final(self)@.next_kitty_id == old(self)@.next_kitty_id + 1
                &&& final(self)@.kitties == old(self)@.kitties
            },
    {
        proof {
            use_type_invariant(&*self);
        }
        let current_id = self.next_kitty_id;
        match current_id.checked_add(1) {
            Some(next_id) => {
                self.next_kitty_id = next_id;
                Ok(current_id)
            },
            None => Err(Error::KittiesIdOverflow),
        }
    }

    /// Sixteen bytes drawn from the ledger's random seed, the sender and the
    /// index of the extrinsic: the Blake2 hash of the three, encoded one
    /// after the other. The same three give the same bytes.
    pub fn random_value(
        seed: &[u8],
        sender: &AccountId,
        extrinsic_index: Option<u32>,
    ) -> (value: [u8; 16])
        ensures
            value@ == spec_random_value(seed@, sender@, extrinsic_index),
    {
        let bytes = payload(seed, sender, extrinsic_index);
        blake2_128(bytes.as_slice())
    }

    /// Creates a kitty with the given DNA for `sender`: issues the next id
    /// and records the kitty under the sender and that id. Where no id is
    /// left, nothing changes.
    pub fn create_with_dna(&mut self, sender: &AccountId, dna: [u8; 16]) -> (created: Result<
        Event,
        Error,
    >)
        ensures
            match old(self)@.create(sender@, dna@) {
                Ok((kitty_id, state)) => {
                    &&& final(self)@ == state
                    &&& created matches Ok(Event::KittyCreated(owner, id, kitty))
                    &&& owner@ == sender@
                    &&& id == kitty_id
                    &&& kitty@ == dna@
                },
                Err(error) => created == Err::<Event, Error>(error) && final(self)@ == old(self)@,
            },
            created.is_err() ==> *final(self) == *old(self),
    {
        let next_id = match self.get_next_kitty_id() {
            Ok(next_id) => next_id,
            Err(error) => {
                return Err(error);
            },
        };
        let kitty = Kitty(dna);
        self.insert(sender, next_id, kitty);
        Ok(Event::KittyCreated(sender.clone(), next_id, kitty))
    }

    /// Creates a kitty for `sender` whose DNA is drawn from the seed, the
    /// sender and the extrinsic index.
    pub fn create(
        &mut self,
        sender: &AccountId,
        seed: &[u8],
        extrinsic_index: Option<u32>,
    ) -> (created: Result<Event, Error>)
        ensures
            match old(self)@.create(sender@, spec_random_value(seed@, sender@, extrinsic_index)) {
                Ok((kitty_id, state)) => {
                    &&& final(self)@ == state
                    &&& created matches Ok(Event::KittyCreated(owner, id, kitty))
                    &&& owner@ == sender@
                    &&& id == kitty_id
                    &&& kitty@ == spec_random_value(seed@, sender@, extrinsic_index)
                },
                Err(error) => created == Err::<Event, Error>(error) && final(self)@ == old(self)@,
            },
            created.is_err() ==> *final(self) == *old(self),
    {
        let dna = Self::random_value(seed, sender, extrinsic_index);
        self.create_with_dna(sender, dna)
    }

    /// Breeds two kitties of `sender` under the given selector. Both must be
    /// on record under the sender and differ in gender; the offspring gets
    /// the next id and, bit by bit, the DNA of the first parent where the
    /// selector has a 0 and of the second where it has a 1. A call that
    /// fails changes neither the counter nor the record.
    pub fn breed_with_selector(
        &mut self,
        sender: &AccountId,
        kitty_id_1: u32,
        kitty_id_2: u32,
        selector: [u8; 16],
    ) -> (bred: Result<Event, Error>)
        ensures
            match old(self)@.breed(sender@, kitty_id_1, kitty_id_2, selector@) {
                Ok((kitty_id, state)) => {
                    &&& final(self)@ == state
                    &&& bred matches Ok(Event::KittyBred(owner, id, kitty))
                    &&& owner@ == sender@
                    &&& id == kitty_id
                    &&& state.get(sender@, kitty_id) == Some(kitty@)
                },
                Err(error) => bred == Err::<Event, Error>(error) && final(self)@ == old(self)@,
            },
            bred.is_err() ==> *final(self) == *old(self),
    {
        let kitty1 = match self.kitties(sender, kitty_id_1) {
            Some(kitty) => kitty,
            None => {
                return Err(Error::InvalidKittyId);
            },
        };
        let kitty2 = match self.kitties(sender, kitty_id_2) {
            Some(kitty) => kitty,
            None => {
                return Err(Error::InvalidKittyId);
            },
        };
        if kitty1.gender() == kitty2.gender() {
            return Err(Error::SameGender);
        }
        let kitty_id = match self.get_next_kitty_id() {
            Ok(kitty_id) => kitty_id,
            Err(error) => {
                return Err(error);
            },
        };
        let new_dna = recombine(&kitty1.0, &kitty2.0, &selector);
        let new_kitty = Kitty(new_dna);
        self.insert(sender, kitty_id, new_kitty);
        Ok(Event::KittyBred(sender.clone(), kitty_id, new_kitty))
    }

    /// Breeds two kitties of `sender` under a selector drawn from the seed,
    /// the sender and the extrinsic index.
    pub fn breed(
        &mut self,
        sender: &AccountId,
        kitty_id_1: u32,
        kitty_id_2: u32,
        seed: &[u8],
        extrinsic_index: Option<u32>,
    ) -> (bred: Result<Event, Error>)
        ensures
            match old(self)@.breed(
                sender@,
                kitty_id_1,
                kitty_id_2,
                spec_random_value(seed@, sender@, extrinsic_index),
            ) {
                Ok((kitty_id, state)) => {
                    &&& final(self)@ == state
                    &&& bred matches Ok(Event::KittyBred(owner, id, kitty))
                    &&& owner@ == sender@
                    &&& id == kitty_id
                    &&& state.get(sender@, kitty_id) == Some(kitty@)
                },
                Err(error) => bred == Err::<Event, Error>(error) && final(self)@ == old(self)@,
            },
            bred.is_err() ==> *final(self) == *old(self),
    {
        let selector = Self::random_value(seed, sender, extrinsic_index);
        self.breed_with_selector(sender, kitty_id_1, kitty_id_2, selector)
    }
}

} // verus!
