//! The registry of vesting schedules, kept in the chain-state key-value store.

use crate::codec::{bincode_schedule_bytes, bincode_schedule_fields, decode_schedule, encode_schedule};
use crate::schedule::{lemma_locked_never_increases, lemma_released_bounded, locked_at, release_defined, released_at, ScheduleView, VestingSchedule};
use crate::storage::Storage;
use vstd::prelude::*;

verus! {

/// The storage key under which the schedule of `addr` is kept:
/// `vesting:schedule:` followed by the address.
pub open spec fn schedule_key(addr: Seq<char>) -> Seq<char> {
    "vesting:schedule:"@ + addr
}

/// The schedule that a store holds for `addr`: the decoding of the bytes under
/// its key, or `None` where there are none or they do not decode.
pub open spec fn stored_schedule(store: Map<Seq<char>, Seq<u8>>, addr: Seq<char>) -> Option<ScheduleView> {
    if store.contains_key(schedule_key(addr)) {
        bincode_schedule_fields(store[schedule_key(addr)])
    } else {
        None
    }
}

/// Whether the locked amount of `addr` in `denom` at height `h` is computable.
pub open spec fn locked_amount_defined(store: Map<Seq<char>, Seq<u8>>, addr: Seq<char>, denom: Seq<char>, h: u64) -> bool {
    match stored_schedule(store, addr) {
        Some(s) => s.0 == denom ==> release_defined(s, h),
        None => true,
    }
}

/// Locked amount of `addr` in `denom` at height `h`: that of its schedule when
/// the schedule is for `denom`, otherwise 0.
pub open spec fn locked_amount_at(store: Map<Seq<char>, Seq<u8>>, addr: Seq<char>, denom: Seq<char>, h: u64) -> nat {
    match stored_schedule(store, addr) {
        Some(s) => if s.0 == denom { locked_at(s, h) } else { 0 },
        None => 0,
    }
}

/// Spendable portion of `total`: what is left once the locked amount is set
/// aside, and never less than 0.
pub open spec fn spendable_at(store: Map<Seq<char>, Seq<u8>>, total: u128, addr: Seq<char>, denom: Seq<char>, h: u64) -> nat {
    let locked = locked_amount_at(store, addr, denom, h);
    if total >= locked { (total - locked) as nat } else { 0 }
}

/// Every key starts with `vesting:schedule:`, and two addresses share a key
/// exactly when they are the same address.
pub proof fn lemma_schedule_key_injective(a: Seq<char>, b: Seq<char>)
    ensures
        schedule_key(a) == schedule_key(b) <==> a == b,
        schedule_key(a).subrange(0, "vesting:schedule:"@.len() as int) == "vesting:schedule:"@,
{
    let p = "vesting:schedule:"@;
    assert(schedule_key(a).subrange(0, p.len() as int) =~= p);
    if schedule_key(a) == schedule_key(b) {
        assert(a =~= schedule_key(a).subrange(p.len() as int, schedule_key(a).len() as int));
        assert(b =~= schedule_key(b).subrange(p.len() as int, schedule_key(b).len() as int));
    }
}

/// The locked amount of an address never increases as the height grows.
pub proof fn lemma_locked_amount_never_increases(
    store: Map<Seq<char>, Seq<u8>>,
    addr: Seq<char>,
    denom: Seq<char>,
    h1: u64,
    h2: u64,
)
    requires
        h1 <= h2,
        locked_amount_defined(store, addr, denom, h1),
        locked_amount_defined(store, addr, denom, h2),
    ensures
        locked_amount_at(store, addr, denom, h2) <= locked_amount_at(store, addr, denom, h1),
{
    if let Some(s) = stored_schedule(store, addr) {
        if s.0 == denom {
            lemma_locked_never_increases(s, h1, h2);
        }
    }
}

/// A balance that passes a sufficiency check at one height still passes it at
/// every later height: the spendable portion never shrinks as the height grows.
pub proof fn lemma_sufficiency_persists(
    store: Map<Seq<char>, Seq<u8>>,
    total: u128,
    addr: Seq<char>,
    denom: Seq<char>,
    amount: nat,
    h1: u64,
    h2: u64,
)
    requires
        h1 <= h2,
        locked_amount_defined(store, addr, denom, h1),
        locked_amount_defined(store, addr, denom, h2),
    ensures
        spendable_at(store, total, addr, denom, h1) <= spendable_at(store, total, addr, denom, h2),
        amount <= spendable_at(store, total, addr, denom, h1) ==> amount <= spendable_at(
            store,
            total,
            addr,
            denom,
            h2,
        ),
{
    lemma_locked_amount_never_increases(store, addr, denom, h1, h2);
}

/// The locked amount is computable except for a schedule of the wanted
/// denomination whose start lies after its end, at a height in its linear
/// phase (at or past the cliff, before the end).
pub proof fn lemma_locked_amount_defined_exactly(
    store: Map<Seq<char>, Seq<u8>>,
    addr: Seq<char>,
    denom: Seq<char>,
    h: u64,
)
    ensures
        !locked_amount_defined(store, addr, denom, h) <==> (stored_schedule(store, addr) matches Some(
            s,
        ) && s.0 == denom && s.3 <= h && h < s.4 && s.2 > s.4),
{
}

/// More of the balance is spendable the more there is, and by no more than
/// the balance grew.
pub proof fn lemma_spendable_follows_total(
    store: Map<Seq<char>, Seq<u8>>,
    t1: u128,
    t2: u128,
    addr: Seq<char>,
    denom: Seq<char>,
    h: u64,
)
    requires
        t1 <= t2,
    ensures
        spendable_at(store, t1, addr, denom, h) <= spendable_at(store, t2, addr, denom, h),
        spendable_at(store, t2, addr, denom, h) - spendable_at(store, t1, addr, denom, h) <= t2 - t1,
{
}

/// Registry of vesting schedules over a chain-state key-value store, which it
/// owns. Schedules are kept in the store as bincode bytes under
/// `vesting:schedule:<address>`.
pub struct VestingModule {
    storage: Storage,
}

impl View for VestingModule {
    type V = Map<Seq<char>, Seq<u8>>;

    closed spec fn view(&self) -> Map<Seq<char>, Seq<u8>> {
        self.storage@
    }
}

impl VestingModule {
    /// A registry over `storage`.
    pub fn new(storage: Storage) -> (m: Self)
        ensures
            m@ == storage@,
    {
        Self { storage }
    }

    /// The storage key for `addr`.
    fn key(addr: &str) -> (k: String)
        ensures
            k@ == schedule_key(addr@),
            k@.subrange(0, "vesting:schedule:"@.len() as int) == "vesting:schedule:"@,
            forall|other: Seq<char>| k@ == #[trigger] schedule_key(other) <==> other == addr@,
    {
        proof {
            lemma_schedule_key_injective(addr@, addr@);
            assert forall|other: Seq<char>| schedule_key(addr@) == #[trigger] schedule_key(other) <==> other == addr@ by {
                lemma_schedule_key_injective(other, addr@);
            }
        }
        let mut k = String::from_str("vesting:schedule:");
        k.append(addr);
        k
    }

    /// Persists the schedule of `addr`, replacing any earlier one. Loading it
    /// back gives the same schedule; the schedules of other addresses stay.
    pub fn register_schedule(&mut self, addr: &str, s: &VestingSchedule)
        ensures
            final(self)@ == old(self)@.insert(schedule_key(addr@), bincode_schedule_bytes(s@)),
            stored_schedule(final(self)@, addr@) == Some(s@),
            forall|other: Seq<char>|
                other != addr@ ==> stored_schedule(final(self)@, other) == stored_schedule(
                    old(self)@,
                    other,
                ),
    {
        if let Some(b) = encode_schedule(s) {
            self.storage.put(Self::key(addr), b);
        }
        proof {
            assert forall|other: Seq<char>| other != addr@ implies stored_schedule(self@, other)
                == stored_schedule(old(self)@, other) by {
                lemma_schedule_key_injective(other, addr@);
            }
        }
    }

    /// The schedule persisted for `addr`, if there is one that decodes.
    pub fn load_schedule(&self, addr: &str) -> (r: Option<VestingSchedule>)
        ensures
            r is Some == stored_schedule(self@, addr@) is Some,
            r matches Some(s) ==> s@ == stored_schedule(self@, addr@).unwrap(),
    {
        match self.storage.get(&Self::key(addr)) {
            Some(b) => decode_schedule(b.as_slice()),
            None => None,
        }
    }

    /// Locked amount for `addr` in `denom` at height `h` (0 if there is no
    /// schedule or the schedule is for a different denomination).
    pub fn locked_amount(&self, addr: &str, denom: &str, h: u64) -> (r: u128)
        requires
            locked_amount_defined(self@, addr@, denom@, h),
        ensures
            r == locked_amount_at(self@, addr@, denom@, h),
            stored_schedule(self@, addr@) is None ==> r == 0,
            stored_schedule(self@, addr@) matches Some(s) ==> (s.0 != denom@ ==> r == 0),
            stored_schedule(self@, addr@) matches Some(s) ==> (s.0 == denom@ ==> r + released_at(s, h)
                == s.1),
    {
        proof {
            if let Some(s) = stored_schedule(self@, addr@) {
                if s.0 == denom@ {
                    lemma_released_bounded(s, h);
                }
            }
        }
        match self.load_schedule(addr) {
            Some(s) => {
                let wanted = denom.to_owned();
                if s.denom == wanted {
                    s.locked(h)
                } else {
                    0
                }
            },
            None => 0,
        }
    }

    /// Locked amount for `addr` in `denom` at height `h`, or `None` where the
    /// schedule's release at `h` is not computable (its start lies after its
    /// end while `h` is in its linear phase).
    pub fn checked_locked_amount(&self, addr: &str, denom: &str, h: u64) -> (r: Option<u128>)
        ensures
            r is Some == locked_amount_defined(self@, addr@, denom@, h),
            r is Some ==> r.unwrap() == locked_amount_at(self@, addr@, denom@, h),
            stored_schedule(self@, addr@) is None ==> r == Some(0u128),
            stored_schedule(self@, addr@) matches Some(s) ==> (s.0 != denom@ ==> r == Some(0u128)),
            stored_schedule(self@, addr@) matches Some(s) ==> (s.0 == denom@ ==> (r is Some <==> (h
                < s.3 || h >= s.4 || s.2 <= s.4))),
            stored_schedule(self@, addr@) matches Some(s) ==> (s.0 == denom@ && r is Some ==> r.unwrap()
                + released_at(s, h) == s.1),
    {
        if let Some(s) = self.load_schedule(addr) {
            let wanted = denom.to_owned();
            if s.denom == wanted && !(h < s.cliff_height || h >= s.end_height
                || s.start_height <= s.end_height) {
                return None;
            }
        }
        proof {
            if let Some(s) = stored_schedule(self@, addr@) {
                if s.0 == denom@ && release_defined(s, h) {
                    lemma_released_bounded(s, h);
                }
            }
        }
        Some(self.locked_amount(addr, denom, h))
    }

    /// Spendable portion of `total` for `addr` in `denom` at height `h`, or
    /// `None` where the locked amount is not computable.
    pub fn checked_spendable(&self, total: u128, addr: &str, denom: &str, h: u64) -> (r: Option<u128>)
        ensures
            stored_schedule(self@, addr@) is None ==> r == Some(total),
            stored_schedule(self@, addr@) matches Some(s) ==> (s.0 != denom@ ==> r == Some(total)),
            stored_schedule(self@, addr@) matches Some(s) ==> (s.0 == denom@ ==> (r is Some <==> (h
                < s.3 || h >= s.4 || s.2 <= s.4))),
            r is Some == locked_amount_defined(self@, addr@, denom@, h),
            r is Some ==> r.unwrap() == spendable_at(self@, total, addr@, denom@, h),
    {
        match self.checked_locked_amount(addr, denom, h) {
            Some(locked) => Some(total.saturating_sub(locked)),
            None => None,
        }
    }

    /// Spendable portion of `total` for `addr` in `denom` at height `h`.
    pub fn spendable(&self, total: u128, addr: &str, denom: &str, h: u64) -> (r: u128)
        requires
            locked_amount_defined(self@, addr@, denom@, h),
        ensures
            r == spendable_at(self@, total, addr@, denom@, h),
            r <= total,
            stored_schedule(self@, addr@) is None ==> r == total,
            stored_schedule(self@, addr@) matches Some(s) ==> (s.0 != denom@ ==> r == total),
            stored_schedule(self@, addr@) matches Some(s) ==> (s.0 == denom@ ==> (r + (s.1
                - released_at(s, h)) == total || (r == 0 && total <= s.1 - released_at(s, h)))),
    {
        total.saturating_sub(self.locked_amount(addr, denom, h))
    }
}

} // verus!
