//! The registry's state as a mathematical value, and what each call makes
//! of it.

use crate::dna::{bit, lemma_combine_dna_selects_bits, spec_recombine};
use crate::error::Error;
use crate::kitty::spec_gender;
use vstd::prelude::*;

verus! {

/// The registry's whole persistent state: the counter, and each kitty's DNA
/// under the pair of its owner and its id.
#[verifier::ext_equal]
pub struct State {
    /// The id that the next kitty will get.
    pub next_kitty_id: u32,
    /// The DNA of each kitty, by owner and id.
    pub kitties: Map<(Seq<u8>, u32), Seq<u8>>,
}

/// One call of the registry, with the sixteen bytes that were drawn for it.
pub enum Call {
    /// `sender` creates a kitty, and `dna` is drawn for it.
    Create { sender: Seq<u8>, dna: Seq<u8> },
    /// `sender` breeds the kitties of the two ids, and `selector` is drawn
    /// for the breeding.
    Breed { sender: Seq<u8>, kitty_id_1: u32, kitty_id_2: u32, selector: Seq<u8> },
}

impl State {
    /// The state at genesis: the counter at 0 and no kitty.
    pub open spec fn genesis() -> State {
        State { next_kitty_id: 0, kitties: Map::empty() }
    }

    /// The DNA recorded for exactly this owner and id, if there is one.
    pub open spec fn get(self, owner: Seq<u8>, kitty_id: u32) -> Option<Seq<u8>> {
        if self.kitties.dom().contains((owner, kitty_id)) {
            Some(self.kitties[(owner, kitty_id)])
        } else {
            None
        }
    }

    /// The state with `dna` written under this owner and id, whatever stood
    /// there before.
    pub open spec fn insert(self, owner: Seq<u8>, kitty_id: u32, dna: Seq<u8>) -> State {
        State {
            next_kitty_id: self.next_kitty_id,
            kitties: self.kitties.insert((owner, kitty_id), dna),
        }
    }

    /// Taking the next id: the counter's value is issued and the counter
    /// goes up by one, unless it stands at the end of its range.
    pub open spec fn next_id(self) -> Result<(u32, State), Error> {
        if self.next_kitty_id == u32::MAX {
            Err(Error::KittiesIdOverflow)
        } else {
            Ok(
                (
                    self.next_kitty_id,
                    State { next_kitty_id: (self.next_kitty_id + 1) as u32, kitties: self.kitties },
                ),
            )
        }
    }

    /// Creating a kitty with the given DNA for `sender`: the id issued and
    /// the state that follows.
    pub open spec fn create(self, sender: Seq<u8>, dna: Seq<u8>) -> Result<(u32, State), Error> {
        match self.next_id() {
            Ok((kitty_id, state)) => Ok((kitty_id, state.insert(sender, kitty_id, dna))),
            Err(error) => Err(error),
        }
    }

    /// The DNA of the two parents, where both are on record under `sender`.
    pub open spec fn parents(self, sender: Seq<u8>, kitty_id_1: u32, kitty_id_2: u32) -> Option<
        (Seq<u8>, Seq<u8>),
    > {
        match (self.get(sender, kitty_id_1), self.get(sender, kitty_id_2)) {
            (Some(dna1), Some(dna2)) => Some((dna1, dna2)),
            _ => None,
        }
    }

    /// Breeding two kitties of `sender` under the given selector: the id
    /// issued to the offspring and the state that follows. Both parents must
    /// be on record under the sender, and their genders must differ.
    pub open spec fn breed(
        self,
        sender: Seq<u8>,
        kitty_id_1: u32,
        kitty_id_2: u32,
        selector: Seq<u8>,
    ) -> Result<(u32, State), Error> {
        match self.parents(sender, kitty_id_1, kitty_id_2) {
            None => Err(Error::InvalidKittyId),
            Some((dna1, dna2)) => {
                if spec_gender(dna1) == spec_gender(dna2) {
                    Err(Error::SameGender)
                } else {
                    let offspring = spec_recombine(dna1, dna2, selector);
                    match self.next_id() {
                        Ok((kitty_id, state)) => Ok(
                            (kitty_id, state.insert(sender, kitty_id, offspring)),
                        ),
                        Err(error) => Err(error),
                    }
                }
            },
        }
    }

    /// What one call makes of the state.
    pub open spec fn apply(self, call: Call) -> Result<(u32, State), Error> {
        match call {
            Call::Create { sender, dna } => self.create(sender, dna),
            Call::Breed { sender, kitty_id_1, kitty_id_2, selector } => self.breed(
                sender,
                kitty_id_1,
                kitty_id_2,
                selector,
            ),
        }
    }

    /// The state after a run of calls, made one after the other. A call that
    /// fails leaves the state as it was.
    pub open spec fn after(self, calls: Seq<Call>) -> State
        decreases calls.len(),
    {
        if calls.len() == 0 {
            self
        } else {
            let before = self.after(calls.drop_last());
            match before.apply(calls.last()) {
                Ok((_, state)) => state,
                Err(_) => before,
            }
        }
    }

    /// The ids that a run of calls issues, in the order of the calls that
    /// succeed.
    pub open spec fn issued(self, calls: Seq<Call>) -> Seq<u32>
        decreases calls.len(),
    {
        if calls.len() == 0 {
            Seq::empty()
        } else {
            let before = self.after(calls.drop_last());
            let ids = self.issued(calls.drop_last());
            match before.apply(calls.last()) {
                Ok((kitty_id, _)) => ids.push(kitty_id),
                Err(_) => ids,
            }
        }
    }

    /// Whether the counter lies above every id in use and no id is in use
    /// under two owners. This holds at genesis and no call breaks it.
    pub open spec fn consistent(self) -> bool {
        &&& forall|owner: Seq<u8>, kitty_id: u32| #[trigger]
            self.kitties.dom().contains((owner, kitty_id)) ==> kitty_id < self.next_kitty_id
        &&& forall|owner1: Seq<u8>, owner2: Seq<u8>, kitty_id: u32|
            #[trigger] self.kitties.dom().contains((owner1, kitty_id))
                && #[trigger] self.kitties.dom().contains((owner2, kitty_id)) ==> owner1
                == owner2
    }
}

/// Creating fails exactly when the counter stands at the end of its range.
/// Otherwise the id issued is the counter's value, the counter goes up by
/// one, and the DNA is recorded under the sender and that id.
pub proof fn lemma_create_outcomes(state: State, sender: Seq<u8>, dna: Seq<u8>)
    ensures
        state.create(sender, dna) == Err::<(u32, State), Error>(Error::KittiesIdOverflow)
            <==> state.next_kitty_id == u32::MAX,
        state.create(sender, dna).is_ok() <==> state.next_kitty_id < u32::MAX,
        state.create(sender, dna) matches Ok((kitty_id, next)) ==> {
            &&& kitty_id == state.next_kitty_id
            &&& next.next_kitty_id == state.next_kitty_id + 1
            &&& next.kitties == state.kitties.insert((sender, kitty_id), dna)
        },
{
}

/// Which way a breeding goes: `InvalidKittyId` exactly when a parent is not
/// on record under the sender; else `SameGender` exactly when the parents'
/// genders are equal; else `KittiesIdOverflow` exactly when the counter
/// stands at the end of its range; else it succeeds, issues the counter's
/// value, and records the recombined DNA under the sender and that id.
pub proof fn lemma_breed_outcomes(
    state: State,
    sender: Seq<u8>,
    kitty_id_1: u32,
    kitty_id_2: u32,
    selector: Seq<u8>,
)
    ensures
        ({
            let outcome = state.breed(sender, kitty_id_1, kitty_id_2, selector);
            let found_1 = state.get(sender, kitty_id_1);
            let found_2 = state.get(sender, kitty_id_2);
            let same = spec_gender(found_1.unwrap()) == spec_gender(found_2.unwrap());
            &&& outcome == Err::<(u32, State), Error>(Error::InvalidKittyId) <==> (found_1.is_none()
                || found_2.is_none())
            &&& outcome == Err::<(u32, State), Error>(Error::SameGender) <==> (found_1.is_some()
                && found_2.is_some() && same)
            &&& outcome == Err::<(u32, State), Error>(Error::KittiesIdOverflow) <==> (
            found_1.is_some() && found_2.is_some() && !same && state.next_kitty_id == u32::MAX)
            &&& outcome.is_ok() <==> (found_1.is_some() && found_2.is_some() && !same
                && state.next_kitty_id < u32::MAX)
            &&& outcome matches Ok((kitty_id, next)) ==> {
                &&& kitty_id == state.next_kitty_id
                &&& next.next_kitty_id == state.next_kitty_id + 1
                &&& next.kitties == state.kitties.insert(
                    (sender, kitty_id),
                    spec_recombine(found_1.unwrap(), found_2.unwrap(), selector),
                )
            }
        }),
{
}

/// The ids that a run of calls issues count up from the counter's value at
/// the start, one by one and in the order of the calls that succeed: each is
/// one more than the id before it, and none is issued twice. The counter
/// never goes down: it ends at its first value plus the number of ids
/// issued.
pub proof fn lemma_issued_ids_count_up(start: State, calls: Seq<Call>)
    ensures
        start.issued(calls).len() <= calls.len(),
        start.after(calls).next_kitty_id == start.next_kitty_id + start.issued(calls).len(),
        start.after(calls).next_kitty_id >= start.next_kitty_id,
        forall|k: int|
            0 <= k < start.issued(calls).len() ==> #[trigger] start.issued(calls)[k]
                == start.next_kitty_id + k,
        forall|k: int|
            0 < k < start.issued(calls).len() ==> #[trigger] start.issued(calls)[k]
                == start.issued(calls)[k - 1] + 1,
        forall|i: int, j: int|
            0 <= i < j < start.issued(calls).len() ==> #[trigger] start.issued(calls)[i]
                < #[trigger] start.issued(calls)[j],
    decreases calls.len(),
{
    if calls.len() > 0 {
        lemma_issued_ids_count_up(start, calls.drop_last());
    }
}

/// From genesis on, the ids issued are 0, 1, 2 and so on, whatever the calls
/// are and whichever of them fail.
pub proof fn lemma_issued_ids_from_genesis(calls: Seq<Call>)
    ensures
        forall|k: int|
            0 <= k < State::genesis().issued(calls).len() ==> #[trigger] State::genesis().issued(
                calls,
            )[k] == k,
{
    lemma_issued_ids_count_up(State::genesis(), calls);
}

/// In a run from genesis in which every call succeeds, each call is issued
/// the id that equals the number of calls before it.
pub proof fn lemma_successful_calls_get_their_index(calls: Seq<Call>, k: int)
    requires
        0 <= k < calls.len(),
        forall|i: int|
            0 <= i < calls.len() ==> (#[trigger] State::genesis().after(calls.take(i))).apply(
                calls[i],
            ).is_ok(),
    ensures
        State::genesis().after(calls.take(k)).apply(calls[k]) matches Ok((kitty_id, _))
            && kitty_id == k,
{
    lemma_all_successful_issue_all(calls, k);
    lemma_issued_ids_count_up(State::genesis(), calls.take(k));
}

/// Where the first `n` calls of a run from genesis all succeed, they issue
/// `n` ids.
proof fn lemma_all_successful_issue_all(calls: Seq<Call>, n: int)
    requires
        0 <= n <= calls.len(),
        forall|i: int|
            0 <= i < n ==> (#[trigger] State::genesis().after(calls.take(i))).apply(
                calls[i],
            ).is_ok(),
    ensures
        State::genesis().issued(calls.take(n)).len() == n,
    decreases n,
{
    if n > 0 {
        lemma_all_successful_issue_all(calls, n - 1);
        assert(calls.take(n).drop_last() =~= calls.take(n - 1));
        assert(calls.take(n).last() == calls[n - 1]);
    }
}

/// Genesis is consistent.
pub proof fn lemma_genesis_consistent()
    ensures
        State::genesis().consistent(),
{
}

/// No call breaks consistency, whether it succeeds or fails.
pub proof fn lemma_call_keeps_consistent(state: State, call: Call)
    requires
        state.consistent(),
    ensures
        state.after(seq![call]).consistent(),
        state.apply(call) matches Ok((_, next)) ==> next.consistent(),
{
    assert(seq![call].drop_last() =~= Seq::<Call>::empty());
    assert(state.after(Seq::<Call>::empty()) == state);
}

/// Every state that a run of calls reaches from a consistent one is
/// consistent: so is every state reached from genesis.
pub proof fn lemma_run_keeps_consistent(start: State, calls: Seq<Call>)
    requires
        start.consistent(),
    ensures
        start.after(calls).consistent(),
    decreases calls.len(),
{
    if calls.len() > 0 {
        lemma_run_keeps_consistent(start, calls.drop_last());
        lemma_call_keeps_consistent(start.after(calls.drop_last()), calls.last());
    }
}

/// In a consistent state a call that succeeds writes to a place where
/// nothing stood, under an id that no owner has in use, and leaves every
/// kitty on record as it was: no kitty is overwritten or changed.
pub proof fn lemma_new_kitty_is_fresh(state: State, call: Call)
    requires
        state.consistent(),
        state.apply(call).is_ok(),
    ensures
        state.apply(call) matches Ok((kitty_id, next)) && {
            &&& kitty_id == state.next_kitty_id
            &&& forall|owner: Seq<u8>| state.get(owner, kitty_id).is_none()
            &&& forall|owner: Seq<u8>, id: u32| #[trigger]
                state.kitties.dom().contains((owner, id)) ==> next.get(owner, id) == state.get(
                    owner,
                    id,
                )
        },
{
}

/// No call changes or removes a kitty: whatever a run of calls does from a
/// consistent state, each kitty that was on record before it is on record
/// after it, under the same owner and id and with the same DNA.
pub proof fn lemma_run_keeps_kitties(start: State, calls: Seq<Call>)
    requires
        start.consistent(),
    ensures
        forall|owner: Seq<u8>, id: u32| #[trigger]
            start.kitties.dom().contains((owner, id)) ==> start.after(calls).get(owner, id)
                == start.get(owner, id),
    decreases calls.len(),
{
    if calls.len() > 0 {
        let before = start.after(calls.drop_last());
        lemma_run_keeps_kitties(start, calls.drop_last());
        lemma_run_keeps_consistent(start, calls.drop_last());
        if before.apply(calls.last()).is_ok() {
            lemma_new_kitty_is_fresh(before, calls.last());
        }
        assert forall|owner: Seq<u8>, id: u32| #[trigger]
            start.kitties.dom().contains((owner, id)) implies start.after(calls).get(owner, id)
            == start.get(owner, id) by {
            assert(before.get(owner, id) == start.get(owner, id));
            assert(before.kitties.dom().contains((owner, id)));
        }
    }
}

/// Breeding two kitties of the same gender fails with `SameGender`,
/// whatever their DNA, the selector and the counter are.
pub proof fn lemma_same_gender_never_breeds(
    state: State,
    sender: Seq<u8>,
    kitty_id_1: u32,
    kitty_id_2: u32,
    selector: Seq<u8>,
)
    requires
        state.parents(sender, kitty_id_1, kitty_id_2) matches Some((dna1, dna2)) && spec_gender(
            dna1,
        ) == spec_gender(dna2),
    ensures
        state.breed(sender, kitty_id_1, kitty_id_2, selector) == Err::<(u32, State), Error>(
            Error::SameGender,
        ),
{
}

/// A kitty written under one owner is not found under another: a lookup of
/// the same id under a different owner gives what it gave before.
pub proof fn lemma_insert_is_scoped(
    state: State,
    owner: Seq<u8>,
    kitty_id: u32,
    dna: Seq<u8>,
    other: Seq<u8>,
)
    requires
        other != owner,
    ensures
        state.insert(owner, kitty_id, dna).get(owner, kitty_id) == Some(dna),
        state.insert(owner, kitty_id, dna).get(other, kitty_id) == state.get(other, kitty_id),
{
}

/// A kitty created under one owner in a consistent state is found under
/// that owner and its id, and under no other owner with that id.
pub proof fn lemma_lookup_is_scoped(state: State, owner: Seq<u8>, dna: Seq<u8>, other: Seq<u8>)
    requires
        state.consistent(),
        state.create(owner, dna).is_ok(),
        other != owner,
    ensures
        state.create(owner, dna) matches Ok((kitty_id, next)) && {
            &&& next.get(owner, kitty_id) == Some(dna)
            &&& next.get(other, kitty_id).is_none()
        },
{
}

/// The offspring that a successful breeding records is the two parents'
/// DNA recombined under the selector: each of its bits is the bit of the
/// first parent where the selector's bit is 0, and of the second where it
/// is 1.
pub proof fn lemma_offspring_takes_parents_bits(
    state: State,
    sender: Seq<u8>,
    kitty_id_1: u32,
    kitty_id_2: u32,
    selector: Seq<u8>,
)
    requires
        state.breed(sender, kitty_id_1, kitty_id_2, selector).is_ok(),
    ensures
        state.breed(sender, kitty_id_1, kitty_id_2, selector) matches Ok((kitty_id, next)) && {
            let dna1 = state.kitties[(sender, kitty_id_1)];
            let dna2 = state.kitties[(sender, kitty_id_2)];
            let offspring = next.kitties[(sender, kitty_id)];
            &&& next.get(sender, kitty_id) == Some(offspring)
            &&& offspring == spec_recombine(dna1, dna2, selector)
            &&& forall|i: int, k: u8|
                0 <= i < 16 && k < 8 ==> #[trigger] bit(offspring[i], k) == if bit(
                    selector[i],
                    k,
                ) {
                    bit(dna2[i], k)
                } else {
                    bit(dna1[i], k)
                }
        },
{
    let dna1 = state.kitties[(sender, kitty_id_1)];
    let dna2 = state.kitties[(sender, kitty_id_2)];
    let offspring = spec_recombine(dna1, dna2, selector);
    assert forall|i: int, k: u8| 0 <= i < 16 && k < 8 implies #[trigger] bit(offspring[i], k)
        == if bit(selector[i], k) {
        bit(dna2[i], k)
    } else {
        bit(dna1[i], k)
    } by {
        lemma_combine_dna_selects_bits(dna1[i], dna2[i], selector[i], k);
    }
}

} // verus!
