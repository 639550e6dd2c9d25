//! The engine's state: the DAO configuration, the account and stream stores,
//! and the statistics record, with the extract–mutate–reinsert helpers and
//! the global well-formedness invariant (account-index exclusivity).

use vstd::prelude::*;

use crate::account::Account;
use crate::dao::Dao;
use crate::err::ContractError;
use crate::primitives::AccountId;
use crate::primitives::StreamId;
use crate::primitives::Timestamp;
use crate::stats::Stats;
use crate::stream::Stream;
use crate::table::IdTable;
use crate::table::Table;

verus! {

pub struct Contract {
    pub dao: Dao,
    pub finance_id: AccountId,
    pub accounts: Table<Account>,
    pub streams: IdTable<Stream>,
    pub stats: Stats,
}

/// Each non-terminal stream is indexed in exactly one of the owner's
/// outgoing sets and exactly one of the receiver's incoming sets, matching
/// its status; a terminal stream is indexed nowhere.
pub open spec fn stream_indexed(ow: Account, re: Account, s: Stream) -> bool {
    &&& (s.status is Active ==> ow.active_outgoing_streams@.contains(s.id)
        && !ow.inactive_outgoing_streams@.contains(s.id) && re.active_incoming_streams@.contains(
        s.id,
    ) && !re.inactive_incoming_streams@.contains(s.id))
    &&& ((s.status is Initialized || s.status is Paused)
        ==> ow.inactive_outgoing_streams@.contains(s.id)
        && !ow.active_outgoing_streams@.contains(s.id) && re.inactive_incoming_streams@.contains(
        s.id,
    ) && !re.active_incoming_streams@.contains(s.id))
    &&& (s.status is Finished ==> !ow.active_outgoing_streams@.contains(s.id)
        && !ow.inactive_outgoing_streams@.contains(s.id) && !re.active_incoming_streams@.contains(
        s.id,
    ) && !re.inactive_incoming_streams@.contains(s.id))
}

impl Contract {
    /// Every stored account is well-formed and keyed by its own identity.
    pub open spec fn accounts_ok(self) -> bool {
        &&& self.accounts.wf()
        &&& forall|k: Seq<char>|
            self.accounts@.dom().contains(k) ==> (#[trigger] self.accounts@[k]).wf()
                && self.accounts@[k].id@ == k
    }

    /// The entry for `id` in the stream map `m` is well-formed, both parties
    /// exist, and the entry is correctly indexed in their sets.
    pub open spec fn stream_entry_ok(self, m: Map<StreamId, Stream>, id: StreamId) -> bool {
        let s = m[id];
        &&& s.id == id
        &&& s.wf()
        &&& s.owner_id@ != s.receiver_id@
        &&& self.accounts@.dom().contains(s.owner_id@)
        &&& self.accounts@.dom().contains(s.receiver_id@)
        &&& stream_indexed(self.accounts@[s.owner_id@], self.accounts@[s.receiver_id@], s)
    }

    /// The account-index invariant over the stream map `m`: every stream is
    /// indexed per its status, and every indexed id points back to a stream
    /// of matching party and status.
    pub open spec fn index_ok_for(self, m: Map<StreamId, Stream>) -> bool {
        &&& forall|id: StreamId| #[trigger] m.dom().contains(id) ==> self.stream_entry_ok(m, id)
        &&& forall|k: Seq<char>, id: StreamId|
            self.accounts@.dom().contains(k) && #[trigger] self.accounts@.index(k).active_outgoing_streams@.contains(id) ==> m.dom().contains(id) && m[id].owner_id@
                == k && m[id].status is Active
        &&& forall|k: Seq<char>, id: StreamId|
            self.accounts@.dom().contains(k) && #[trigger] self.accounts@.index(k).inactive_outgoing_streams@.contains(id) ==> m.dom().contains(id) && m[id].owner_id@
                == k && (m[id].status is Initialized || m[id].status is Paused)
        &&& forall|k: Seq<char>, id: StreamId|
            self.accounts@.dom().contains(k) && #[trigger] self.accounts@.index(k).active_incoming_streams@.contains(id) ==> m.dom().contains(id) && m[id].receiver_id@
                == k && m[id].status is Active
        &&& forall|k: Seq<char>, id: StreamId|
            self.accounts@.dom().contains(k) && #[trigger] self.accounts@.index(k).inactive_incoming_streams@.contains(id) ==> m.dom().contains(id) && m[
                id
            ].receiver_id@ == k && (m[id].status is Initialized || m[id].status is Paused)
    }

    /// Structural well-formedness of all stores and configuration.
    pub open spec fn wf_base(self) -> bool {
        &&& self.dao.wf()
        &&& self.accounts_ok()
        &&& self.streams.wf()
        &&& self.stats.wf()
    }

    /// Every stored stream was last settled no later than `now`: the host
    /// clock is monotonic.
    pub open spec fn time_ok(self, now: Timestamp) -> bool {
        forall|id: StreamId| #[trigger] self.streams@.dom().contains(id) ==> self.streams@[
            id
        ].last_action <= now
    }

    /// The full invariant every public operation preserves.
    pub open spec fn wf(self) -> bool {
        &&& self.wf_base()
        &&& self.index_ok_for(self.streams@)
    }

    /// Replacing a stream entry with one of the same id, parties and status
    /// leaves the account index correct: the index never depends on the
    /// settlement fields.
    pub proof fn lemma_index_substitute(
        self,
        m: Map<StreamId, Stream>,
        id: StreamId,
        s_new: Stream,
    )
        requires
            self.index_ok_for(m),
            m.dom().contains(id),
            s_new.id == m[id].id,
            s_new.owner_id == m[id].owner_id,
            s_new.receiver_id == m[id].receiver_id,
            s_new.status == m[id].status,
            s_new.wf(),
        ensures
            self.index_ok_for(m.insert(id, s_new)),
    {
        let m2 = m.insert(id, s_new);
        assert(self.stream_entry_ok(m, id));
        assert forall|id2: StreamId| #[trigger] m2.dom().contains(id2) implies self.stream_entry_ok(
            m2,
            id2,
        ) by {
            if id2 != id {
                assert(m2[id2] == m[id2]);
                assert(self.stream_entry_ok(m, id2));
            }
        }
    }

    pub fn new(
        dao_id: AccountId,
        finance_id: AccountId,
        utility_token_id: AccountId,
        utility_token_decimals: u8,
    ) -> (r: Contract)
        ensures
            r.wf(),
            r.dao.dao_id@ == dao_id@,
            r.finance_id@ == finance_id@,
            r.dao.utility_token_id@ == utility_token_id@,
            r.dao.utility_token_decimals == utility_token_decimals,
            r.accounts@ == Map::<Seq<char>, Account>::empty(),
            r.streams@ == Map::<StreamId, Stream>::empty(),
            r.dao.tokens@ == Map::<Seq<char>, crate::token::Token>::empty(),
            r.dao.commission_non_payment_ft
                == crate::primitives::DEFAULT_COMMISSION_NON_PAYMENT_FT,
            r.dao.eth_near_ratio == crate::safe_float::SafeFloat::spec_zero(),
            r.dao.oracles@ == Set::<Seq<char>>::empty(),
            r.dao.approved_nfts@ == Set::<Seq<char>>::empty(),
            r.stats.total_accounts == 0,
            r.stats.total_streams == 0,
            r.stats.total_streams_unlisted == 0,
            r.stats.total_active_streams == 0,
            r.stats.total_aurora_streams == 0,
            r.stats.total_dao_tokens == 0,
            r.stats.total_account_deposit_near == 0,
            r.stats.total_account_deposit_eth == 0,
            r.stats.dao_tokens@ == Map::<Seq<char>, crate::stats::TokenStats>::empty(),
            r.stats.last_update_time == 0,
    {
        let r = Contract {
            dao: Dao::new(dao_id, utility_token_id, utility_token_decimals),
            finance_id,
            accounts: Table::new(),
            streams: IdTable::new(),
            stats: Stats::new(),
        };
        r
    }

    /// Removes and returns the account record, to be mutated and reinserted.
    pub fn extract_account(&mut self, account_id: &AccountId) -> (r: Result<
        Account,
        ContractError,
    >)
        requires
            old(self).accounts.wf(),
        ensures
            final(self).accounts.wf(),
            match r {
                Ok(a) => old(self).accounts@.dom().contains(account_id@) && a == old(
                    self,
                ).accounts@[account_id@] && final(self).accounts@ == old(self).accounts@.remove(
                    account_id@,
                ) && *final(self) == (Contract { accounts: final(self).accounts, ..*old(self) }),
                Err(e) => *final(self) == *old(self) && !old(self).accounts@.dom().contains(
                    account_id@,
                ) && e == (ContractError::AccountNotExist { account_id: *account_id }),
            },
    {
        match self.accounts.remove(account_id) {
            Some(a) => Ok(a),
            None => Err(ContractError::AccountNotExist { account_id: account_id.clone() }),
        }
    }

    /// Reinserts an account record; the slot must be empty.
    pub fn save_account(&mut self, account: Account) -> (r: Result<(), ContractError>)
        requires
            old(self).accounts.wf(),
        ensures
            final(self).accounts.wf(),
            r is Ok <==> !old(self).accounts@.dom().contains(account.id@),
            r is Ok ==> final(self).accounts@ == old(self).accounts@.insert(account.id@, account)
                && *final(self) == (Contract { accounts: final(self).accounts, ..*old(self) }),
            r is Err ==> *final(self) == *old(self) && r == Result::<(), ContractError>::Err(
                ContractError::DataCorruption,
            ),
    {
        if self.accounts.contains_key(&account.id) {
            Err(ContractError::DataCorruption)
        } else {
            self.accounts.insert(account.id.clone(), account);
            Ok(())
        }
    }

    /// A read-only view of an account record.
    pub fn view_account(&self, account_id: &AccountId) -> (r: Option<&Account>)
        requires
            self.accounts.wf(),
        ensures
            match r {
                Some(a) => self.accounts@.dom().contains(account_id@) && *a == self.accounts@.index(account_id@),
                None => !self.accounts@.dom().contains(account_id@),
            },
    {
        self.accounts.get(account_id)
    }

    /// Whether a fresh account record: empty indices and tallies, nothing
    /// deposited, staked or created yet.
    pub open spec fn is_fresh_account(a: Account, k: Seq<char>) -> bool {
        &&& a.id@ == k
        &&& a.active_incoming_streams@ == Set::<StreamId>::empty()
        &&& a.active_outgoing_streams@ == Set::<StreamId>::empty()
        &&& a.inactive_incoming_streams@ == Set::<StreamId>::empty()
        &&& a.inactive_outgoing_streams@ == Set::<StreamId>::empty()
        &&& a.total_incoming@ == Map::<Seq<char>, u128>::empty()
        &&& a.total_outgoing@ == Map::<Seq<char>, u128>::empty()
        &&& a.total_received@ == Map::<Seq<char>, u128>::empty()
        &&& a.deposit == 0
        &&& a.stake == 0
        &&& a.last_created_stream is None
        &&& a.is_cron_allowed == false
        &&& a.total_streams_created == 0
    }

    /// Creates an empty record for `account_id` unless one exists.
    pub fn create_account_if_not_exist(&mut self, account_id: &AccountId)
        requires
            old(self).accounts.wf(),
        ensures
            final(self).accounts.wf(),
            old(self).accounts@.dom().contains(account_id@) ==> *final(self) == *old(self),
            !old(self).accounts@.dom().contains(account_id@) ==> final(self).accounts@ == old(
                self,
            ).accounts@.insert(account_id@, final(self).accounts@[account_id@])
                && Contract::is_fresh_account(final(self).accounts@[account_id@], account_id@)
                && final(self).accounts@[account_id@].wf() && *final(self) == (Contract {
                accounts: final(self).accounts,
                ..*old(self)
            }),
    {
        if !self.accounts.contains_key(account_id) {
            let fresh = Account::new(account_id.clone());
            self.accounts.insert(account_id.clone(), fresh);
        }
    }

    /// A read-only view of a stream record.
    pub fn view_stream(&self, stream_id: StreamId) -> (r: Result<&Stream, ContractError>)
        requires
            self.streams.wf(),
        ensures
            match r {
                Ok(s) => self.streams@.dom().contains(stream_id) && *s == self.streams@[stream_id],
                Err(e) => !self.streams@.dom().contains(stream_id) && e == (
                ContractError::StreamNotExist { stream_id }),
            },
    {
        match self.streams.get(stream_id) {
            Some(s) => Ok(s),
            None => Err(ContractError::StreamNotExist { stream_id }),
        }
    }

    /// Removes and returns the stream record, to be mutated and reinserted.
    pub fn extract_stream(&mut self, stream_id: StreamId) -> (r: Result<Stream, ContractError>)
        requires
            old(self).streams.wf(),
        ensures
            final(self).streams.wf(),
            match r {
                Ok(s) => old(self).streams@.dom().contains(stream_id) && s == old(self).streams@.index(stream_id) && final(self).streams@ == old(self).streams@.remove(stream_id) && *final(self)
                    == (Contract { streams: final(self).streams, ..*old(self) }),
                Err(e) => *final(self) == *old(self) && !old(self).streams@.dom().contains(
                    stream_id,
                ) && e == (ContractError::StreamNotExist { stream_id }),
            },
    {
        match self.streams.remove(stream_id) {
            Some(s) => Ok(s),
            None => Err(ContractError::StreamNotExist { stream_id }),
        }
    }

    /// Reinserts a stream record; the slot must be empty.
    pub fn save_stream(&mut self, stream: Stream) -> (r: Result<(), ContractError>)
        requires
            old(self).streams.wf(),
        ensures
            final(self).streams.wf(),
            r is Ok <==> !old(self).streams@.dom().contains(stream.id),
            r is Ok ==> final(self).streams@ == old(self).streams@.insert(stream.id, stream)
                && *final(self) == (Contract { streams: final(self).streams, ..*old(self) }),
            r is Err ==> *final(self) == *old(self) && r == Result::<(), ContractError>::Err(
                ContractError::DataCorruption,
            ),
    {
        if self.streams.contains_key(stream.id) {
            Err(ContractError::DataCorruption)
        } else {
            self.streams.insert(stream.id, stream);
            Ok(())
        }
    }
}

} // verus!
