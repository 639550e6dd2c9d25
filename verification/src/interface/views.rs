//! Read-only views: single records, per-account stream listings with
//! pagination, and the per-asset tallies of an account.

use vstd::prelude::*;

use crate::account::tally_of;
use crate::contract::Contract;
use crate::err::ContractError;
use crate::primitives::AccountId;
use crate::primitives::Balance;
use crate::primitives::StreamId;
use crate::primitives::DEFAULT_VIEW_STREAMS_LIMIT;
use crate::stats::TokenStats;
use crate::stream::Stream;
use crate::table::IdList;
use crate::table::Table;
use crate::token::Token;

verus! {

/// A plain image of an account: set sizes, per-asset tallies over the
/// registered tokens, and the scalar fields.
pub struct AccountView {
    pub active_incoming_streams: u32,
    pub active_outgoing_streams: u32,
    pub inactive_incoming_streams: u32,
    pub inactive_outgoing_streams: u32,
    pub total_incoming: Table<Balance>,
    pub total_outgoing: Table<Balance>,
    pub total_received: Table<Balance>,
    pub deposit: Balance,
    pub stake: Balance,
    pub last_created_stream: Option<StreamId>,
    pub is_cron_allowed: bool,
}

impl Contract {
    /// The registry entry of an asset together with its statistics record,
    /// if any.
    pub fn get_token(&self, token_account_id: &AccountId) -> (r: (Token, Option<TokenStats>))
        requires
            self.wf(),
        ensures
            r.0.wf(),
            self.dao.tokens@.dom().contains(token_account_id@) ==> r.0 == self.dao.tokens@.index(
                token_account_id@,
            ),
            !self.dao.tokens@.dom().contains(token_account_id@) ==> r.0.is_unlisted_for(
                token_account_id@,
            ),
            r.1 matches Some(ts) ==> self.stats.dao_tokens@.dom().contains(token_account_id@)
                && ts == self.stats.dao_tokens@.index(token_account_id@),
            r.1 is None ==> !self.stats.dao_tokens@.dom().contains(token_account_id@),
    {
        let token = self.dao.get_token(token_account_id);
        let ts = match self.stats.dao_tokens.get(token_account_id) {
            Some(ts) => Some(*ts),
            None => None,
        };
        (token, ts)
    }

    /// A copy of the stored stream record.
    pub fn get_stream(&self, stream_id: StreamId) -> (r: Result<Stream, ContractError>)
        requires
            self.wf(),
        ensures
            match r {
                Ok(s) => self.streams@.dom().contains(stream_id) && s == self.streams@[stream_id],
                Err(e) => !self.streams@.dom().contains(stream_id) && e == (
                ContractError::StreamNotExist { stream_id }),
            },
    {
        match self.view_stream(stream_id) {
            Ok(s) => Ok(s.clone()),
            Err(e) => Err(e),
        }
    }

    /// Builds the per-asset tally view of one tally table over the
    /// registered tokens; an asset without a tally reads as zero.
    fn tally_view(&self, t: &Table<Balance>) -> (r: Table<Balance>)
        requires
            self.wf(),
            t.wf(),
        ensures
            r.wf(),
            forall|k: Seq<char>|
                self.dao.tokens@.dom().contains(k) ==> #[trigger] r@.dom().contains(k) && r@[k]
                    == tally_of(t@, k),
    {
        let mut r: Table<Balance> = Table::new();
        let n = self.dao.tokens.len();
        let mut i: usize = 0;
        while i < n
            invariant
                self.wf(),
                t.wf(),
                r.wf(),
                n == self.dao.tokens.entries_view().len(),
                i <= n,
                forall|j: int|
                    0 <= j < i ==> #[trigger] r@.dom().contains(
                        self.dao.tokens.entries_view()[j].0@,
                    ) && r@[self.dao.tokens.entries_view()[j].0@] == tally_of(
                        t@,
                        self.dao.tokens.entries_view()[j].0@,
                    ),
            decreases n - i,
        {
            let key = self.dao.tokens.key_at(i);
            let val: Balance = match t.get(key) {
                Some(v) => *v,
                None => 0,
            };
            r.insert(key.clone(), val);
            proof {
                assert forall|j: int| 0 <= j < i + 1 implies #[trigger] r@.dom().contains(
                    self.dao.tokens.entries_view()[j].0@,
                ) && r@[self.dao.tokens.entries_view()[j].0@] == tally_of(
                    t@,
                    self.dao.tokens.entries_view()[j].0@,
                ) by {
                    assert(self.dao.tokens.wf());
                    if j < i {
                        assert(self.dao.tokens.entries_view()[j].0@
                            != self.dao.tokens.entries_view()[i as int].0@);
                    } else {
                        assert(r@.dom().contains(self.dao.tokens.entries_view()[i as int].0@));
                        assert(r@[self.dao.tokens.entries_view()[i as int].0@] == val);
                        assert(val == tally_of(t@, self.dao.tokens.entries_view()[i as int].0@));
                    }
                }
            }
            i = i + 1;
        }
        proof {
            assert forall|k: Seq<char>| self.dao.tokens@.dom().contains(k) implies #[trigger] r@
                .dom().contains(k) && r@[k] == tally_of(t@, k) by {
                let j = choose|j: int|
                    0 <= j < self.dao.tokens.entries_view().len()
                        && self.dao.tokens.entries_view()[j].0@ == k;
                assert(r@.dom().contains(self.dao.tokens.entries_view()[j].0@));
            }
        }
        r
    }

    /// A plain image of an account; an unknown account reads as empty when
    /// `only_if_exist` is off and is an error otherwise.
    pub fn get_account(&self, account_id: &AccountId, only_if_exist: bool) -> (r: Result<
        AccountView,
        ContractError,
    >)
        requires
            self.wf(),
        ensures
            (!self.accounts@.dom().contains(account_id@) && only_if_exist) ==> r is Err,
            (self.accounts@.dom().contains(account_id@) || !only_if_exist) ==> r is Ok,
            r matches Ok(v) ==> self.accounts@.dom().contains(account_id@) ==> ({
                let a = self.accounts@.index(account_id@);
                &&& v.deposit == a.deposit
                &&& v.stake == a.stake
                &&& v.last_created_stream == a.last_created_stream
                &&& v.is_cron_allowed == a.is_cron_allowed
                &&& (forall|k: Seq<char>|
                    self.dao.tokens@.dom().contains(k) ==> #[trigger] v.total_incoming@.dom(
                    ).contains(k) && v.total_incoming@[k] == tally_of(a.total_incoming@, k))
            }),
    {
        match self.view_account(account_id) {
            Some(a) => {
                let r = AccountView {
                    active_incoming_streams: (#[verifier::truncate] (
                    a.active_incoming_streams.len() as u32)),
                    active_outgoing_streams: (#[verifier::truncate] (
                    a.active_outgoing_streams.len() as u32)),
                    inactive_incoming_streams: (#[verifier::truncate] (
                    a.inactive_incoming_streams.len() as u32)),
                    inactive_outgoing_streams: (#[verifier::truncate] (
                    a.inactive_outgoing_streams.len() as u32)),
                    total_incoming: self.tally_view(&a.total_incoming),
                    total_outgoing: self.tally_view(&a.total_outgoing),
                    total_received: self.tally_view(&a.total_received),
                    deposit: a.deposit,
                    stake: a.stake,
                    last_created_stream: a.last_created_stream,
                    is_cron_allowed: a.is_cron_allowed,
                };
                Ok(r)
            },
            None => {
                if only_if_exist {
                    return Err(ContractError::AccountNotExist {
                        account_id: account_id.clone(),
                    });
                }
                let empty: Table<Balance> = Table::new();
                let empty2: Table<Balance> = Table::new();
                let empty3: Table<Balance> = Table::new();
                Ok(AccountView {
                    active_incoming_streams: 0,
                    active_outgoing_streams: 0,
                    inactive_incoming_streams: 0,
                    inactive_outgoing_streams: 0,
                    total_incoming: empty,
                    total_outgoing: empty2,
                    total_received: empty3,
                    deposit: 0,
                    stake: 0,
                    last_created_stream: None,
                    is_cron_allowed: false,
                })
            },
        }
    }

    /// An account's incoming, outgoing and received tallies for one asset.
    pub fn get_account_ft(&self, account_id: &AccountId, token_account_id: &AccountId) -> (r:
        Result<(Balance, Balance, Balance), ContractError>)
        requires
            self.wf(),
        ensures
            r is Ok <==> self.accounts@.dom().contains(account_id@),
            r matches Ok(v) ==> ({
                let a = self.accounts@.index(account_id@);
                &&& v.0 == tally_of(a.total_incoming@, token_account_id@)
                &&& v.1 == tally_of(a.total_outgoing@, token_account_id@)
                &&& v.2 == tally_of(a.total_received@, token_account_id@)
            }),
    {
        let account = match self.view_account(account_id) {
            Some(a) => a,
            None => {
                return Err(ContractError::AccountNotExist { account_id: account_id.clone() });
            },
        };
        let incoming: Balance = match account.total_incoming.get(token_account_id) {
            Some(v) => *v,
            None => 0,
        };
        let outgoing: Balance = match account.total_outgoing.get(token_account_id) {
            Some(v) => *v,
            None => 0,
        };
        let received: Balance = match account.total_received.get(token_account_id) {
            Some(v) => *v,
            None => 0,
        };
        Ok((incoming, outgoing, received))
    }

    /// A page of stored streams, in storage order.
    pub fn get_streams(&self, from: Option<u32>, limit: Option<u32>) -> (r: Vec<Stream>)
        requires
            self.wf(),
        ensures
            forall|j: int|
                0 <= j < r@.len() ==> self.streams@.dom().contains(#[trigger] r@[j].id) && r@[j]
                    == self.streams@[r@[j].id],
    {
        let from: u32 = match from {
            Some(v) => v,
            None => 0,
        };
        let limit: u32 = match limit {
            Some(v) => v,
            None => DEFAULT_VIEW_STREAMS_LIMIT,
        };
        let mut out: Vec<Stream> = Vec::new();
        let n = self.streams.len();
        let mut i: usize = from as usize;
        while i < n && (i as u64) < (from as u64) + (limit as u64)
            invariant
                self.wf(),
                n == self.streams.entries_view().len(),
                forall|j: int|
                    0 <= j < out@.len() ==> self.streams@.dom().contains(#[trigger] out@[j].id)
                        && out@[j] == self.streams@[out@[j].id],
            decreases n - i,
        {
            let s = self.streams.val_at(i);
            proof {
                self.streams.lemma_entry_in_view(i as int);
                assert(self.stream_entry_ok(self.streams@, self.streams.entries_view()[i as int].0));
            }
            out.push(s.clone());
            i = i + 1;
        }
        out
    }

    /// A page of an account's streams from one of its index lists.
    fn collect_list(&self, list: &IdList, from: u32, limit: u32, out: &mut Vec<Stream>)
        requires
            self.wf(),
            list.wf(),
            forall|id: StreamId| #[trigger] list@.contains(id) ==> self.streams@.dom().contains(id),
            forall|j: int|
                0 <= j < old(out)@.len() ==> self.streams@.dom().contains(
                    #[trigger] old(out)@[j].id,
                ) && old(out)@[j] == self.streams@[old(out)@[j].id],
        ensures
            forall|j: int|
                0 <= j < final(out)@.len() ==> self.streams@.dom().contains(
                    #[trigger] final(out)@[j].id,
                ) && final(out)@[j] == self.streams@[final(out)@[j].id],
    {
        let n = list.len();
        let mut i: usize = from as usize;
        while i < n && (i as u64) < (from as u64) + (limit as u64)
            invariant
                self.wf(),
                list.wf(),
                n == list.items@.len(),
                forall|id: StreamId| #[trigger]
                    list@.contains(id) ==> self.streams@.dom().contains(id),
                forall|j: int|
                    0 <= j < out@.len() ==> self.streams@.dom().contains(#[trigger] out@[j].id)
                        && out@[j] == self.streams@[out@[j].id],
            decreases n - i,
        {
            let id = list.at(i);
            let s = match self.view_stream(id) {
                Ok(s) => s,
                Err(_) => {
                    proof {
                        assert(false);
                    }
                    return ;
                },
            };
            proof {
                assert(self.stream_entry_ok(self.streams@, id));
            }
            out.push(s.clone());
            i = i + 1;
        }
    }

    /// A page of an account's incoming streams: active first, then inactive.
    pub fn get_account_incoming_streams(
        &self,
        account_id: &AccountId,
        from: Option<u32>,
        limit: Option<u32>,
    ) -> (r: Result<Vec<Stream>, ContractError>)
        requires
            self.wf(),
        ensures
            r is Ok <==> self.accounts@.dom().contains(account_id@),
            r matches Ok(v) ==> forall|j: int|
                0 <= j < v@.len() ==> self.streams@.dom().contains(#[trigger] v@[j].id) && v@[j]
                    == self.streams@[v@[j].id],
    {
        let from: u32 = match from {
            Some(v) => v,
            None => 0,
        };
        let limit: u32 = match limit {
            Some(v) => v,
            None => DEFAULT_VIEW_STREAMS_LIMIT,
        };
        let account = match self.view_account(account_id) {
            Some(a) => a,
            None => {
                return Err(ContractError::AccountNotExist { account_id: account_id.clone() });
            },
        };
        let mut out: Vec<Stream> = Vec::new();
        self.collect_list(&account.active_incoming_streams, from, limit, &mut out);
        self.collect_list(&account.inactive_incoming_streams, from, limit, &mut out);
        Ok(out)
    }

    /// A page of an account's outgoing streams: active first, then inactive.
    pub fn get_account_outgoing_streams(
        &self,
        account_id: &AccountId,
        from: Option<u32>,
        limit: Option<u32>,
    ) -> (r: Result<Vec<Stream>, ContractError>)
        requires
            self.wf(),
        ensures
            r is Ok <==> self.accounts@.dom().contains(account_id@),
            r matches Ok(v) ==> forall|j: int|
                0 <= j < v@.len() ==> self.streams@.dom().contains(#[trigger] v@[j].id) && v@[j]
                    == self.streams@[v@[j].id],
    {
        let from: u32 = match from {
            Some(v) => v,
            None => 0,
        };
        let limit: u32 = match limit {
            Some(v) => v,
            None => DEFAULT_VIEW_STREAMS_LIMIT,
        };
        let account = match self.view_account(account_id) {
            Some(a) => a,
            None => {
                return Err(ContractError::AccountNotExist { account_id: account_id.clone() });
            },
        };
        let mut out: Vec<Stream> = Vec::new();
        self.collect_list(&account.active_outgoing_streams, from, limit, &mut out);
        self.collect_list(&account.inactive_outgoing_streams, from, limit, &mut out);
        Ok(out)
    }
}

} // verus!
