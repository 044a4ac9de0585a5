use crate::errors::ErrorCode;
use crate::keys::{DaoName, Pubkey};
use vstd::prelude::*;

verus! {

/// Longest content reference of a proposal, in bytes.
pub const MAX_CID_LEN: usize = 64;

/// The lifecycle of a proposal: `Active`, then `Approved` or `Rejected`, and
/// `Executed` only after `Approved`.
#[derive(Clone, Copy, Debug, PartialEq, Eq, Structural)]
pub enum ProposalStatus {
    Active,
    Rejected,
    Approved,
    Executed,
}

pub open spec fn status_code(s: ProposalStatus) -> u8 {
    match s {
        ProposalStatus::Active => 0,
        ProposalStatus::Rejected => 2,
        ProposalStatus::Approved => 3,
        ProposalStatus::Executed => 4,
    }
}

/// Whether a proposal may move from status `a` to status `b` (or stay).
pub open spec fn status_step(a: ProposalStatus, b: ProposalStatus) -> bool {
    a == b || (a == ProposalStatus::Active && (b == ProposalStatus::Approved || b
        == ProposalStatus::Rejected)) || (a == ProposalStatus::Approved && b
        == ProposalStatus::Executed)
}

impl ProposalStatus {
    /// The one-byte encoding of the status.
    pub fn to_u8(&self) -> (r: u8)
        ensures
            r == status_code(*self),
    {
        match self {
            ProposalStatus::Active => 0,
            ProposalStatus::Rejected => 2,
            ProposalStatus::Approved => 3,
            ProposalStatus::Executed => 4,
        }
    }

    /// Decodes a status byte; any byte that encodes no status is an error.
    pub fn from_u8(b: u8) -> (r: Result<ProposalStatus, ErrorCode>)
        ensures
            match r {
                Ok(s) => status_code(s) == b,
                Err(e) => e == ErrorCode::DecodeError && (forall|s: ProposalStatus|
                    status_code(s) != b),
            },
    {
        match b {
            0 => Ok(ProposalStatus::Active),
            2 => Ok(ProposalStatus::Rejected),
            3 => Ok(ProposalStatus::Approved),
            4 => Ok(ProposalStatus::Executed),
            _ => Err(ErrorCode::DecodeError),
        }
    }
}

/// Who is calling and when: the verified signer and the current unix time.
#[derive(Clone, Copy, Debug)]
pub struct Context {
    pub signer: Pubkey,
    pub now: i64,
}

/// A DAO: its unique name, its authority and how many proposals it has.
#[derive(Clone, Copy, Debug)]
pub struct DaoAccount {
    pub authority: Pubkey,
    pub proposal_count: u64,
    pub dao_name: DaoName,
}

/// The treasury of the DAO of the same name, bound to one funding mint.
#[derive(Clone, Copy, Debug)]
pub struct Treasury {
    pub dao_name: DaoName,
    pub treasury_mint: Pubkey,
}

/// A balance of one mint held for one owner in the external funding ledger.
#[derive(Clone, Copy, Debug)]
pub struct TokenAccount {
    pub owner: Pubkey,
    pub mint: Pubkey,
    pub amount: u64,
}

/// A funding request of a DAO, addressed by the DAO's name and its index.
#[derive(Clone, Copy, Debug)]
pub struct Proposal {
    pub dao_name: DaoName,
    pub proposal_index: u64,
    pub recipient: Pubkey,
    pub mint: Pubkey,
    pub amount: u64,
    pub votes_for: u64,
    pub votes_against: u64,
    pub voting_deadline: i64,
    pub status: ProposalStatus,
    pub cid: [u8; 64],
    pub cid_len: usize,
}

/// One ballot: who voted on which proposal, and how.
#[derive(Clone, Copy, Debug)]
pub struct VoteAccount {
    pub dao_name: DaoName,
    pub proposal_index: u64,
    pub voter: Pubkey,
    pub choice: bool,
}

impl Proposal {
    pub open spec fn wf(&self) -> bool {
        self.dao_name.wf() && self.cid_len <= MAX_CID_LEN
    }

    /// The content reference as bytes.
    pub open spec fn cid_view(&self) -> Seq<u8> {
        self.cid@.subrange(0, self.cid_len as int)
    }

    /// Stores `cid_str` as the content reference; one longer than 64 bytes is
    /// refused and the proposal is left as it was.
    pub fn set_cid(&mut self, cid_str: &[u8]) -> (r: Result<(), ErrorCode>)
        ensures
            cid_str@.len() <= MAX_CID_LEN ==> r is Ok && final(self).cid_view() == cid_str@
                && final(self).cid_len == cid_str@.len() && *final(self) == (Proposal {
                cid: final(self).cid,
                cid_len: final(self).cid_len,
                ..*old(self)
            }),
            cid_str@.len() > MAX_CID_LEN ==> r == Err::<(), ErrorCode>(ErrorCode::ContentTooLong)
                && *final(self) == *old(self),
    {
        let n = cid_str.len();
        if n > MAX_CID_LEN {
            return Err(ErrorCode::ContentTooLong);
        }
        let mut bytes = [0u8; 64];
        let mut i: usize = 0;
        while i < n
            invariant
                n == cid_str@.len(),
                n <= 64,
                i <= n,
                bytes@.len() == 64,
                forall|j: int| 0 <= j < i ==> bytes@[j] == cid_str@[j],
            decreases n - i,
        {
            bytes[i] = cid_str[i];
            i = i + 1;
        }
        self.cid = bytes;
        self.cid_len = n;
        assert(self.cid_view() =~= cid_str@);
        Ok(())
    }

    /// The content reference's bytes.
    pub fn cid_as_slice(&self) -> (r: Vec<u8>)
        requires
            self.wf(),
        ensures
            r@ == self.cid_view(),
    {
        let mut r: Vec<u8> = Vec::new();
        let mut i: usize = 0;
        while i < self.cid_len
            invariant
                self.cid_len <= 64,
                self.cid@.len() == 64,
                i <= self.cid_len,
                r@ == self.cid@.subrange(0, i as int),
            decreases self.cid_len - i,
        {
            r.push(self.cid[i]);
            i = i + 1;
            assert(r@ =~= self.cid@.subrange(0, i as int));
        }
        r
    }

    /// The name of the DAO that owns this proposal.
    pub fn get_dao_name(&self) -> (r: Vec<u8>)
        requires
            self.wf(),
        ensures
            r@ == self.dao_name@,
    {
        self.dao_name.to_vec()
    }

    /// Whether ballots are still taken at time `now`.
    pub fn is_voting_active(&self, now: i64) -> (r: bool)
        ensures
            r == (self.status == ProposalStatus::Active && now <= self.voting_deadline),
    {
        self.status == ProposalStatus::Active && now <= self.voting_deadline
    }

    /// Whether the tally favours the proposal: strictly more votes for than
    /// against, so that a tie does not pass.
    pub fn has_passed(&self) -> (r: bool)
        ensures
            r == (self.votes_for > self.votes_against),
    {
        self.votes_for > self.votes_against
    }

    /// Whether the proposal may be settled.
    pub fn can_execute(&self) -> (r: bool)
        ensures
            r == (self.status == ProposalStatus::Approved),
    {
        self.status == ProposalStatus::Approved
    }
}

} // verus!
