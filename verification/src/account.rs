//! Per-identity record: the four per-party stream-id sets that index every
//! non-terminal stream, the per-asset accrual-rate and received tallies, and
//! the native-currency reserve and stake.

use vstd::prelude::*;

use crate::primitives::AccountId;
use crate::primitives::Balance;
use crate::primitives::StreamId;
use crate::table::IdList;
use crate::table::Table;

verus! {

pub struct Account {
    pub id: AccountId,
    pub active_incoming_streams: IdList,
    pub active_outgoing_streams: IdList,
    pub inactive_incoming_streams: IdList,
    pub inactive_outgoing_streams: IdList,
    /// Sum of accrual rates of active incoming streams, per asset.
    pub total_incoming: Table<Balance>,
    /// Sum of accrual rates of active outgoing streams, per asset.
    pub total_outgoing: Table<Balance>,
    /// Total settled payments received, per asset; non-decreasing.
    pub total_received: Table<Balance>,
    /// Native-currency reserve, charged for unlisted-asset operations.
    pub deposit: Balance,
    pub stake: Balance,
    pub last_created_stream: Option<StreamId>,
    pub is_cron_allowed: bool,
    pub total_streams_created: u64,
}

impl Account {
    pub open spec fn wf(self) -> bool {
        &&& self.active_incoming_streams.wf()
        &&& self.active_outgoing_streams.wf()
        &&& self.inactive_incoming_streams.wf()
        &&& self.inactive_outgoing_streams.wf()
        &&& self.total_incoming.wf()
        &&& self.total_outgoing.wf()
        &&& self.total_received.wf()
    }

    pub fn new(id: AccountId) -> (r: Account)
        ensures
            r.wf(),
            r.id@ == id@,
            r.active_incoming_streams@ == Set::<StreamId>::empty(),
            r.active_outgoing_streams@ == Set::<StreamId>::empty(),
            r.inactive_incoming_streams@ == Set::<StreamId>::empty(),
            r.inactive_outgoing_streams@ == Set::<StreamId>::empty(),
            r.total_incoming@ == Map::<Seq<char>, Balance>::empty(),
            r.total_outgoing@ == Map::<Seq<char>, Balance>::empty(),
            r.total_received@ == Map::<Seq<char>, Balance>::empty(),
            r.deposit == 0,
            r.stake == 0,
            r.last_created_stream is None,
            r.is_cron_allowed == false,
            r.total_streams_created == 0,
    {
        Account {
            id,
            active_incoming_streams: IdList::new(),
            active_outgoing_streams: IdList::new(),
            inactive_incoming_streams: IdList::new(),
            inactive_outgoing_streams: IdList::new(),
            total_incoming: Table::new(),
            total_outgoing: Table::new(),
            total_received: Table::new(),
            deposit: 0,
            stake: 0,
            last_created_stream: None,
            is_cron_allowed: false,
            total_streams_created: 0,
        }
    }
}

/// The tally stored under `k`, or zero if absent.
pub open spec fn tally_of(t: Map<Seq<char>, Balance>, k: Seq<char>) -> int {
    if t.dom().contains(k) {
        t[k] as int
    } else {
        0
    }
}

/// The tally map after adding `amount` under `k` (absent counts as zero).
pub open spec fn tally_added(t: Map<Seq<char>, Balance>, k: Seq<char>, amount: Balance) -> Map<
    Seq<char>,
    Balance,
> {
    t.insert(k, (tally_of(t, k) as u128).saturating_add(amount))
}

/// The tally map after subtracting `amount` under `k`, stopping at zero; an
/// absent tally stays absent.
pub open spec fn tally_subbed(t: Map<Seq<char>, Balance>, k: Seq<char>, amount: Balance) -> Map<
    Seq<char>,
    Balance,
> {
    if t.dom().contains(k) {
        t.insert(k, t[k].saturating_sub(amount))
    } else {
        t
    }
}

/// The tally map after adding `amount` under `k` only if a tally is already
/// tracked there; an absent tally stays absent.
pub open spec fn tally_bumped(t: Map<Seq<char>, Balance>, k: Seq<char>, amount: Balance) -> Map<
    Seq<char>,
    Balance,
> {
    if t.dom().contains(k) {
        t.insert(k, t[k].saturating_add(amount))
    } else {
        t
    }
}

/// Adds `amount` to the tally under `key` only if one is tracked there.
pub fn tally_add_existing(t: &mut Table<Balance>, key: &AccountId, amount: Balance)
    requires
        old(t).wf(),
    ensures
        final(t).wf(),
        final(t)@ == tally_bumped(old(t)@, key@, amount),
{
    let cur: Balance = match t.get(key) {
        Some(v) => *v,
        None => {
            return ;
        },
    };
    t.insert(key.clone(), cur.saturating_add(amount));
}

/// Adds `amount` to the tally under `key`, saturating at the 128-bit limit;
/// an absent tally counts as zero and is created.
pub fn tally_add(t: &mut Table<Balance>, key: &AccountId, amount: Balance)
    requires
        old(t).wf(),
    ensures
        final(t).wf(),
        final(t)@ == old(t)@.insert(
            key@,
            (tally_of(old(t)@, key@) as u128).saturating_add(amount),
        ),
{
    let cur: Balance = match t.get(key) {
        Some(v) => *v,
        None => 0,
    };
    t.insert(key.clone(), cur.saturating_add(amount));
}

/// Subtracts `amount` from the tally under `key`, stopping at zero; an
/// absent tally is left absent.
pub fn tally_sub(t: &mut Table<Balance>, key: &AccountId, amount: Balance)
    requires
        old(t).wf(),
    ensures
        final(t).wf(),
        old(t)@.dom().contains(key@) ==> final(t)@ == old(t)@.insert(
            key@,
            old(t)@[key@].saturating_sub(amount),
        ),
        !old(t)@.dom().contains(key@) ==> final(t)@ == old(t)@,
{
    let cur: Balance = match t.get(key) {
        Some(v) => *v,
        None => {
            return ;
        },
    };
    t.insert(key.clone(), cur.saturating_sub(amount));
}

} // verus!
