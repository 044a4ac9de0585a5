use crate::errors::ErrorCode;
use crate::keys::{DaoName, Pubkey, MAX_NAME_LEN};
use crate::state::{
    Context, DaoAccount, Proposal, ProposalStatus, TokenAccount, Treasury, VoteAccount,
    MAX_CID_LEN,
};
use vstd::prelude::*;

verus! {

/// Every record of the engine, each store keyed by value: a DAO and its
/// treasury by the DAO's name, a proposal by (DAO name, index), a ballot by
/// (DAO name, index, voter).
pub struct Ledger {
    pub daos: Vec<DaoAccount>,
    pub treasuries: Vec<Treasury>,
    pub proposals: Vec<Proposal>,
    pub votes: Vec<VoteAccount>,
}

pub open spec fn dao_at(daos: Seq<DaoAccount>, name: Seq<u8>, i: int) -> bool {
    0 <= i < daos.len() && daos[i].dao_name@ == name
}

pub open spec fn treasury_at(ts: Seq<Treasury>, name: Seq<u8>, i: int) -> bool {
    0 <= i < ts.len() && ts[i].dao_name@ == name
}

pub open spec fn proposal_at(ps: Seq<Proposal>, name: Seq<u8>, index: u64, i: int) -> bool {
    0 <= i < ps.len() && ps[i].dao_name@ == name && ps[i].proposal_index == index
}

pub open spec fn vote_at(vs: Seq<VoteAccount>, name: Seq<u8>, index: u64, voter: Seq<u8>, i: int) -> bool {
    0 <= i < vs.len() && vs[i].dao_name@ == name && vs[i].proposal_index == index && vs[i].voter@
        == voter
}

/// Names are valid and unique among DAOs.
pub open spec fn daos_ok(daos: Seq<DaoAccount>) -> bool {
    &&& forall|i: int| 0 <= i < daos.len() ==> (#[trigger] daos[i]).dao_name.wf()
    &&& forall|n: Seq<u8>, i: int, j: int|
        #[trigger] dao_at(daos, n, i) && #[trigger] dao_at(daos, n, j) ==> i == j
}

/// Names are valid and there is at most one treasury per name.
pub open spec fn treasuries_ok(ts: Seq<Treasury>) -> bool {
    &&& forall|i: int| 0 <= i < ts.len() ==> (#[trigger] ts[i]).dao_name.wf()
    &&& forall|n: Seq<u8>, i: int, j: int|
        #[trigger] treasury_at(ts, n, i) && #[trigger] treasury_at(ts, n, j) ==> i == j
}

/// Proposals are valid and their (name, index) addresses unique.
pub open spec fn proposals_ok(ps: Seq<Proposal>) -> bool {
    &&& forall|i: int| 0 <= i < ps.len() ==> (#[trigger] ps[i]).wf()
    &&& forall|n: Seq<u8>, k: u64, i: int, j: int|
        #[trigger] proposal_at(ps, n, k, i) && #[trigger] proposal_at(ps, n, k, j) ==> i == j
}

/// Ballots are valid and there is at most one per (name, index, voter).
pub open spec fn votes_ok(vs: Seq<VoteAccount>) -> bool {
    &&& forall|i: int| 0 <= i < vs.len() ==> (#[trigger] vs[i]).dao_name.wf()
    &&& forall|n: Seq<u8>, k: u64, v: Seq<u8>, i: int, j: int|
        #[trigger] vote_at(vs, n, k, v, i) && #[trigger] vote_at(vs, n, k, v, j) ==> i == j
}

/// The proposal after one more ballot for (`choice`) or against it.
pub open spec fn tallied(p: Proposal, choice: bool) -> Proposal {
    if choice {
        Proposal { votes_for: (p.votes_for + 1) as u64, ..p }
    } else {
        Proposal { votes_against: (p.votes_against + 1) as u64, ..p }
    }
}

impl Ledger {
    pub open spec fn has_dao(&self, name: Seq<u8>) -> bool {
        exists|i: int| #[trigger] dao_at(self.daos@, name, i)
    }

    pub open spec fn dao_pos(&self, name: Seq<u8>) -> int {
        choose|i: int| #[trigger] dao_at(self.daos@, name, i)
    }

    /// The DAO of this name (meaningful where `has_dao(name)`).
    pub open spec fn dao(&self, name: Seq<u8>) -> DaoAccount {
        self.daos@[self.dao_pos(name)]
    }

    pub open spec fn has_treasury(&self, name: Seq<u8>) -> bool {
        exists|i: int| #[trigger] treasury_at(self.treasuries@, name, i)
    }

    pub open spec fn treasury_pos(&self, name: Seq<u8>) -> int {
        choose|i: int| #[trigger] treasury_at(self.treasuries@, name, i)
    }

    /// The treasury of the DAO of this name (meaningful where `has_treasury(name)`).
    pub open spec fn treasury(&self, name: Seq<u8>) -> Treasury {
        self.treasuries@[self.treasury_pos(name)]
    }

    pub open spec fn has_proposal(&self, name: Seq<u8>, index: u64) -> bool {
        exists|i: int| #[trigger] proposal_at(self.proposals@, name, index, i)
    }

    pub open spec fn proposal_pos(&self, name: Seq<u8>, index: u64) -> int {
        choose|i: int| #[trigger] proposal_at(self.proposals@, name, index, i)
    }

    /// The proposal at this address (meaningful where `has_proposal(name, index)`).
    pub open spec fn proposal(&self, name: Seq<u8>, index: u64) -> Proposal {
        self.proposals@[self.proposal_pos(name, index)]
    }

    /// Whether `voter` has a ballot on the proposal at (name, index).
    pub open spec fn has_vote(&self, name: Seq<u8>, index: u64, voter: Seq<u8>) -> bool {
        exists|i: int| #[trigger] vote_at(self.votes@, name, index, voter, i)
    }

    /// The invariant of the ledger: keys are unique in every store, proposal
    /// indices of each DAO are exactly 0 .. proposal_count, and each ballot
    /// belongs to an existing proposal.
    pub open spec fn wf(&self) -> bool {
        &&& daos_ok(self.daos@)
        &&& treasuries_ok(self.treasuries@)
        &&& proposals_ok(self.proposals@)
        &&& votes_ok(self.votes@)
        &&& forall|n: Seq<u8>, k: u64, i: int|
            #[trigger] proposal_at(self.proposals@, n, k, i) ==> self.has_dao(n)
        &&& forall|n: Seq<u8>, k: u64, i: int, j: int|
            #[trigger] proposal_at(self.proposals@, n, k, i) && #[trigger] dao_at(self.daos@, n, j)
                ==> k < self.daos@[j].proposal_count
        &&& forall|j: int, k: u64|
            0 <= j < self.daos@.len() && k < (#[trigger] self.daos@[j]).proposal_count
                ==> #[trigger] self.has_proposal(self.daos@[j].dao_name@, k)
        &&& forall|i: int|
            0 <= i < self.votes@.len() ==> self.has_proposal(
                (#[trigger] self.votes@[i]).dao_name@,
                self.votes@[i].proposal_index,
            )
    }

    pub proof fn lemma_dao_pos(&self, name: Seq<u8>, i: int)
        requires
            self.wf(),
            dao_at(self.daos@, name, i),
        ensures
            self.has_dao(name),
            self.dao_pos(name) == i,
    {
        assert(dao_at(self.daos@, name, self.dao_pos(name)));
    }

    pub proof fn lemma_treasury_pos(&self, name: Seq<u8>, i: int)
        requires
            self.wf(),
            treasury_at(self.treasuries@, name, i),
        ensures
            self.has_treasury(name),
            self.treasury_pos(name) == i,
    {
        assert(treasury_at(self.treasuries@, name, self.treasury_pos(name)));
    }

    pub proof fn lemma_proposal_pos(&self, name: Seq<u8>, index: u64, i: int)
        requires
            self.wf(),
            proposal_at(self.proposals@, name, index, i),
        ensures
            self.has_proposal(name, index),
            self.proposal_pos(name, index) == i,
    {
        assert(proposal_at(self.proposals@, name, index, self.proposal_pos(name, index)));
    }

    /// An empty ledger.
    pub fn new() -> (r: Ledger)
        ensures
            r.wf(),
            r.daos@.len() == 0,
            r.treasuries@.len() == 0,
            r.proposals@.len() == 0,
            r.votes@.len() == 0,
    {
        Ledger { daos: Vec::new(), treasuries: Vec::new(), proposals: Vec::new(), votes: Vec::new() }
    }

    fn find_dao(&self, name: &[u8]) -> (r: Option<usize>)
        requires
            self.wf(),
        ensures
            match r {
                Some(i) => dao_at(self.daos@, name@, i as int) && self.dao_pos(name@) == i,
                None => !self.has_dao(name@),
            },
    {
        let mut i: usize = 0;
        while i < self.daos.len()
            invariant
                self.wf(),
                i <= self.daos@.len(),
                forall|j: int| 0 <= j < i ==> !dao_at(self.daos@, name@, j),
            decreases self.daos@.len() - i,
        {
            assert(self.daos@[i as int].dao_name.wf());
            if self.daos[i].dao_name.matches(name) {
                proof {
                    self.lemma_dao_pos(name@, i as int);
                }
                return Some(i);
            }
            i = i + 1;
        }
        None
    }

    fn find_treasury(&self, name: &[u8]) -> (r: Option<usize>)
        requires
            self.wf(),
        ensures
            match r {
                Some(i) => treasury_at(self.treasuries@, name@, i as int) && self.treasury_pos(name@) == i,
                None => !self.has_treasury(name@),
            },
    {
        let mut i: usize = 0;
        while i < self.treasuries.len()
            invariant
                self.wf(),
                i <= self.treasuries@.len(),
                forall|j: int| 0 <= j < i ==> !treasury_at(self.treasuries@, name@, j),
            decreases self.treasuries@.len() - i,
        {
            assert(self.treasuries@[i as int].dao_name.wf());
            if self.treasuries[i].dao_name.matches(name) {
                proof {
                    self.lemma_treasury_pos(name@, i as int);
                }
                return Some(i);
            }
            i = i + 1;
        }
        None
    }

    fn find_proposal(&self, name: &[u8], index: u64) -> (r: Option<usize>)
        requires
            self.wf(),
        ensures
            match r {
                Some(i) => proposal_at(self.proposals@, name@, index, i as int) && self.proposal_pos(
                    name@,
                    index,
                ) == i,
                None => !self.has_proposal(name@, index),
            },
    {
        let mut i: usize = 0;
        while i < self.proposals.len()
            invariant
                self.wf(),
                i <= self.proposals@.len(),
                forall|j: int| 0 <= j < i ==> !proposal_at(self.proposals@, name@, index, j),
            decreases self.proposals@.len() - i,
        {
            assert(self.proposals@[i as int].wf());
            if self.proposals[i].proposal_index == index && self.proposals[i].dao_name.matches(
                name,
            ) {
                proof {
                    self.lemma_proposal_pos(name@, index, i as int);
                }
                return Some(i);
            }
            i = i + 1;
        }
        None
    }

    fn find_vote(&self, name: &[u8], index: u64, voter: &Pubkey) -> (r: bool)
        requires
            self.wf(),
        ensures
            r == self.has_vote(name@, index, voter@),
    {
        let mut i: usize = 0;
        while i < self.votes.len()
            invariant
                self.wf(),
                i <= self.votes@.len(),
                forall|j: int| 0 <= j < i ==> !vote_at(self.votes@, name@, index, voter@, j),
            decreases self.votes@.len() - i,
        {
            assert(self.votes@[i as int].dao_name.wf());
            if self.votes[i].proposal_index == index && self.votes[i].voter.same(voter)
                && self.votes[i].dao_name.matches(name) {
                assert(vote_at(self.votes@, name@, index, voter@, i as int));
                return true;
            }
            i = i + 1;
        }
        false
    }

    /// What `create_dao` returns for `name`.
    pub open spec fn create_dao_result(&self, name: Seq<u8>) -> Result<(), ErrorCode> {
        if name.len() > MAX_NAME_LEN {
            Err(ErrorCode::NameTooLong)
        } else if self.has_dao(name) {
            Err(ErrorCode::AlreadyExists)
        } else {
            Ok(())
        }
    }

    /// Registers a DAO named `dao_name` with the signer as its authority and no
    /// proposals. A name over 32 bytes, or one already taken, is refused and
    /// nothing is created.
    pub fn create_dao(&mut self, ctx: &Context, dao_name: &[u8]) -> (r: Result<(), ErrorCode>)
        requires
            old(self).wf(),
        ensures
            final(self).wf(),
            r == old(self).create_dao_result(dao_name@),
            r is Err ==> *final(self) == *old(self),
            r is Ok ==> {
                &&& final(self).daos@.len() == old(self).daos@.len() + 1
                &&& final(self).daos@.drop_last() == old(self).daos@
                &&& final(self).daos@.last().dao_name@ == dao_name@
                &&& final(self).daos@.last().authority@ == ctx.signer@
                &&& final(self).daos@.last().proposal_count == 0
                &&& final(self).treasuries == old(self).treasuries
                &&& final(self).proposals == old(self).proposals
                &&& final(self).votes == old(self).votes
            },
    {
        if dao_name.len() > MAX_NAME_LEN {
            return Err(ErrorCode::NameTooLong);
        }
        if self.find_dao(dao_name).is_some() {
            return Err(ErrorCode::AlreadyExists);
        }
        let dao = DaoAccount {
            authority: ctx.signer,
            proposal_count: 0,
            dao_name: DaoName::from_slice(dao_name),
        };
        let ghost pre = *self;
        self.daos.push(dao);
        proof {
            let post = *self;
            assert(post.daos@.drop_last() =~= pre.daos@);
            let n = pre.daos@.len() as int;
            assert forall|x: Seq<u8>, i: int, j: int|
                #[trigger] dao_at(post.daos@, x, i) && #[trigger] dao_at(post.daos@, x, j) implies i == j by {
                if i < n {
                    assert(dao_at(pre.daos@, x, i));
                }
                if j < n {
                    assert(dao_at(pre.daos@, x, j));
                }
            }
            assert forall|j: int, k: u64|
                0 <= j < post.daos@.len() && k < (#[trigger] post.daos@[j]).proposal_count implies #[trigger] post.has_proposal(post.daos@[j].dao_name@, k) by {
                if j < n {
                    assert(pre.daos@[j] == post.daos@[j]);
                    assert(pre.has_proposal(pre.daos@[j].dao_name@, k));
                    let i = choose|i: int| proposal_at(pre.proposals@, pre.daos@[j].dao_name@, k, i);
                    assert(proposal_at(post.proposals@, post.daos@[j].dao_name@, k, i));
                }
            }
            Ledger::lemma_daos_kept(&pre, &post);
            assert forall|x: Seq<u8>, k: u64, i: int, j: int|
                #[trigger] proposal_at(post.proposals@, x, k, i) && #[trigger] dao_at(post.daos@, x, j) implies k
                < post.daos@[j].proposal_count by {
                assert(proposal_at(pre.proposals@, x, k, i));
                if j == n {
                    assert(pre.has_dao(x));
                } else {
                    assert(dao_at(pre.daos@, x, j));
                }
            }
        }
        Ok(())
    }

    /// Lookups by DAO name survive a change that keeps every name in place.
    proof fn lemma_daos_kept(pre: &Ledger, post: &Ledger)
        requires
            pre.daos@.len() <= post.daos@.len(),
            forall|i: int|
                0 <= i < pre.daos@.len() ==> (#[trigger] post.daos@[i]).dao_name@
                    == pre.daos@[i].dao_name@,
        ensures
            forall|n: Seq<u8>| #[trigger] pre.has_dao(n) ==> post.has_dao(n),
    {
        assert forall|n: Seq<u8>| #[trigger] pre.has_dao(n) implies post.has_dao(n) by {
            let i = choose|i: int| dao_at(pre.daos@, n, i);
            assert(post.daos@[i].dao_name@ == pre.daos@[i].dao_name@);
            assert(dao_at(post.daos@, n, i));
        }
    }

    /// Lookups by proposal address survive a change that keeps every address in place.
    proof fn lemma_proposals_kept(pre: &Ledger, post: &Ledger)
        requires
            pre.proposals@.len() <= post.proposals@.len(),
            forall|i: int|
                0 <= i < pre.proposals@.len() ==> (#[trigger] post.proposals@[i]).dao_name@
                    == pre.proposals@[i].dao_name@ && post.proposals@[i].proposal_index
                    == pre.proposals@[i].proposal_index,
        ensures
            forall|n: Seq<u8>, k: u64| #[trigger] pre.has_proposal(n, k) ==> post.has_proposal(n, k),
    {
        assert forall|n: Seq<u8>, k: u64| #[trigger] pre.has_proposal(n, k) implies post.has_proposal(
            n,
            k,
        ) by {
            let i = choose|i: int| proposal_at(pre.proposals@, n, k, i);
            assert(post.proposals@[i].dao_name@ == pre.proposals@[i].dao_name@);
            assert(proposal_at(post.proposals@, n, k, i));
        }
    }

    /// What `create_treasury` returns for `name`.
    pub open spec fn create_treasury_result(&self, name: Seq<u8>) -> Result<(), ErrorCode> {
        if name.len() > MAX_NAME_LEN {
            Err(ErrorCode::NameTooLong)
        } else if self.has_treasury(name) {
            Err(ErrorCode::AlreadyExists)
        } else {
            Ok(())
        }
    }

    /// Creates the treasury of the DAO named `dao_name`, bound to the funding
    /// mint `mint`. There is at most one treasury per name: a second one is
    /// refused, as is a name over 32 bytes, and nothing is created.
    pub fn create_treasury(&mut self, dao_name: &[u8], mint: Pubkey) -> (r: Result<(), ErrorCode>)
        requires
            old(self).wf(),
        ensures
            final(self).wf(),
            r == old(self).create_treasury_result(dao_name@),
            r is Err ==> *final(self) == *old(self),
            r is Ok ==> {
                &&& final(self).treasuries@.len() == old(self).treasuries@.len() + 1
                &&& final(self).treasuries@.drop_last() == old(self).treasuries@
                &&& final(self).treasuries@.last().dao_name@ == dao_name@
                &&& final(self).treasuries@.last().treasury_mint == mint
                &&& final(self).daos == old(self).daos
                &&& final(self).proposals == old(self).proposals
                &&& final(self).votes == old(self).votes
            },
    {
        if dao_name.len() > MAX_NAME_LEN {
            return Err(ErrorCode::NameTooLong);
        }
        if self.find_treasury(dao_name).is_some() {
            return Err(ErrorCode::AlreadyExists);
        }
        let ghost pre = *self;
        self.treasuries.push(Treasury { dao_name: DaoName::from_slice(dao_name), treasury_mint: mint });
        proof {
            let post = *self;
            let n = pre.treasuries@.len() as int;
            assert(post.treasuries@.drop_last() =~= pre.treasuries@);
            assert forall|x: Seq<u8>, i: int, j: int|
                #[trigger] treasury_at(post.treasuries@, x, i) && #[trigger] treasury_at(
                    post.treasuries@,
                    x,
                    j,
                ) implies i == j by {
                if i < n {
                    assert(treasury_at(pre.treasuries@, x, i));
                }
                if j < n {
                    assert(treasury_at(pre.treasuries@, x, j));
                }
            }
            Ledger::lemma_proposals_kept(&pre, &post);
            assert forall|j: int, k: u64|
                0 <= j < post.daos@.len() && k < (#[trigger] post.daos@[j]).proposal_count implies #[trigger] post.has_proposal(
                post.daos@[j].dao_name@,
                k,
            ) by {
                assert(pre.has_proposal(pre.daos@[j].dao_name@, k));
            }
            assert forall|i: int| 0 <= i < post.votes@.len() implies post.has_proposal(
                (#[trigger] post.votes@[i]).dao_name@,
                post.votes@[i].proposal_index,
            ) by {
                assert(pre.has_proposal(pre.votes@[i].dao_name@, pre.votes@[i].proposal_index));
            }
        }
        Ok(())
    }

    /// What `create_proposal` returns: the new proposal's index, or why there
    /// is none.
    pub open spec fn create_proposal_result(&self, signer: Seq<u8>, name: Seq<u8>, cid: Seq<u8>) -> Result<u64, ErrorCode> {
        if !self.has_dao(name) || self.dao(name).authority@ != signer {
            Err(ErrorCode::DaoMismatch)
        } else if cid.len() > MAX_CID_LEN {
            Err(ErrorCode::ContentTooLong)
        } else if self.dao(name).proposal_count == u64::MAX {
            Err(ErrorCode::ArithmeticOverflow)
        } else {
            Ok(self.dao(name).proposal_count)
        }
    }

    /// Opens a proposal of the DAO named `dao_name`, which the signer must
    /// govern. It takes the DAO's `proposal_count` as its index, and the count
    /// goes up by one; it starts `Active` with no votes.
    pub fn create_proposal(
        &mut self,
        ctx: &Context,
        dao_name: &[u8],
        cid: &[u8],
        amount: u64,
        recipient: Pubkey,
        voting_deadline: i64,
        mint: Pubkey,
    ) -> (r: Result<u64, ErrorCode>)
        requires
            old(self).wf(),
        ensures
            final(self).wf(),
            r == old(self).create_proposal_result(ctx.signer@, dao_name@, cid@),
            r is Err ==> *final(self) == *old(self),
            r matches Ok(index) ==> {
                let d = old(self).dao(dao_name@);
                let p = final(self).proposals@.last();
                &&& final(self).daos@ == old(self).daos@.update(
                    old(self).dao_pos(dao_name@),
                    DaoAccount { proposal_count: (index + 1) as u64, ..d },
                )
                &&& final(self).proposals@.len() == old(self).proposals@.len() + 1
                &&& final(self).proposals@.drop_last() == old(self).proposals@
                &&& p.dao_name@ == dao_name@
                &&& p.proposal_index == index
                &&& p.recipient == recipient
                &&& p.mint == mint
                &&& p.amount == amount
                &&& p.votes_for == 0
                &&& p.votes_against == 0
                &&& p.voting_deadline == voting_deadline
                &&& p.status == ProposalStatus::Active
                &&& p.cid_view() == cid@
                &&& final(self).treasuries == old(self).treasuries
                &&& final(self).votes == old(self).votes
            },
    {
        let pos = match self.find_dao(dao_name) {
            Some(i) => i,
            None => {
                return Err(ErrorCode::DaoMismatch);
            },
        };
        let dao = self.daos[pos];
        if !dao.authority.same(&ctx.signer) {
            return Err(ErrorCode::DaoMismatch);
        }
        if cid.len() > MAX_CID_LEN {
            return Err(ErrorCode::ContentTooLong);
        }
        if dao.proposal_count == u64::MAX {
            return Err(ErrorCode::ArithmeticOverflow);
        }
        let index = dao.proposal_count;
        let mut proposal = Proposal {
            dao_name: dao.dao_name,
            proposal_index: index,
            recipient,
            mint,
            amount,
            votes_for: 0,
            votes_against: 0,
            voting_deadline,
            status: ProposalStatus::Active,
            cid: [0u8; 64],
            cid_len: 0,
        };
        let _ = proposal.set_cid(cid);
        let ghost pre = *self;
        self.daos.set(pos, DaoAccount { proposal_count: index + 1, ..dao });
        self.proposals.push(proposal);
        proof {
            let post = *self;
            let n = pre.proposals@.len() as int;
            let name = dao_name@;
            assert(pre.daos@[pos as int].dao_name.wf());
            assert(post.proposals@.drop_last() =~= pre.proposals@);
            assert forall|x: Seq<u8>, i: int| dao_at(post.daos@, x, i) == dao_at(pre.daos@, x, i) by {}
            Ledger::lemma_daos_kept(&pre, &post);
            Ledger::lemma_proposals_kept(&pre, &post);
            assert(proposal_at(post.proposals@, name, index, n));
            // the new address is fresh
            assert forall|i: int| 0 <= i < n implies !proposal_at(pre.proposals@, name, index, i) by {
                if proposal_at(pre.proposals@, name, index, i) {
                    assert(index < pre.daos@[pos as int].proposal_count);
                }
            }
            assert forall|x: Seq<u8>, k: u64, i: int, j: int|
                #[trigger] proposal_at(post.proposals@, x, k, i) && #[trigger] proposal_at(
                    post.proposals@,
                    x,
                    k,
                    j,
                ) implies i == j by {
                if i < n {
                    assert(proposal_at(pre.proposals@, x, k, i));
                }
                if j < n {
                    assert(proposal_at(pre.proposals@, x, k, j));
                }
            }
            assert forall|x: Seq<u8>, k: u64, i: int|
                #[trigger] proposal_at(post.proposals@, x, k, i) implies post.has_dao(x) by {
                if i < n {
                    assert(proposal_at(pre.proposals@, x, k, i));
                    assert(pre.has_dao(x));
                } else {
                    assert(dao_at(post.daos@, x, pos as int));
                }
            }
            assert forall|x: Seq<u8>, k: u64, i: int, j: int|
                #[trigger] proposal_at(post.proposals@, x, k, i) && #[trigger] dao_at(
                    post.daos@,
                    x,
                    j,
                ) implies k < post.daos@[j].proposal_count by {
                assert(dao_at(pre.daos@, x, j));
                if i < n {
                    assert(proposal_at(pre.proposals@, x, k, i));
                } else {
                    assert(dao_at(pre.daos@, x, pos as int));
                }
            }
            assert forall|j: int, k: u64|
                0 <= j < post.daos@.len() && k < (#[trigger] post.daos@[j]).proposal_count implies #[trigger] post.has_proposal(
                post.daos@[j].dao_name@,
                k,
            ) by {
                if j != pos || k < index {
                    assert(pre.has_proposal(pre.daos@[j].dao_name@, k));
                }
            }
            assert forall|i: int| 0 <= i < post.votes@.len() implies post.has_proposal(
                (#[trigger] post.votes@[i]).dao_name@,
                post.votes@[i].proposal_index,
            ) by {
                assert(pre.has_proposal(pre.votes@[i].dao_name@, pre.votes@[i].proposal_index));
            }
        }
        Ok(index)
    }

    /// Replacing one proposal by another at the same address keeps the
    /// invariant, given that the ballots still fit it.
    proof fn lemma_proposal_replaced(pre: &Ledger, post: &Ledger, pos: int)
        requires
            pre.wf(),
            0 <= pos < pre.proposals@.len(),
            post.daos@ == pre.daos@,
            post.treasuries@ == pre.treasuries@,
            post.proposals@.len() == pre.proposals@.len(),
            forall|i: int|
                0 <= i < pre.proposals@.len() && i != pos ==> post.proposals@[i]
                    == pre.proposals@[i],
            post.proposals@[pos].dao_name == pre.proposals@[pos].dao_name,
            post.proposals@[pos].proposal_index == pre.proposals@[pos].proposal_index,
            post.proposals@[pos].cid_len <= MAX_CID_LEN,
            votes_ok(post.votes@),
            forall|i: int|
                0 <= i < post.votes@.len() ==> pre.has_proposal(
                    (#[trigger] post.votes@[i]).dao_name@,
                    post.votes@[i].proposal_index,
                ),
        ensures
            post.wf(),
            forall|n: Seq<u8>, k: u64| #[trigger] post.has_proposal(n, k) == pre.has_proposal(n, k),
    {
        assert forall|n: Seq<u8>, k: u64, i: int|
            proposal_at(post.proposals@, n, k, i) == proposal_at(pre.proposals@, n, k, i) by {}
        assert(pre.proposals@[pos].wf());
        Ledger::lemma_proposals_kept(pre, post);
        Ledger::lemma_proposals_kept(post, pre);
        assert forall|j: int, k: u64|
            0 <= j < post.daos@.len() && k < (#[trigger] post.daos@[j]).proposal_count implies #[trigger] post.has_proposal(
            post.daos@[j].dao_name@,
            k,
        ) by {
            assert(pre.has_proposal(pre.daos@[j].dao_name@, k));
        }
        assert forall|i: int| 0 <= i < post.votes@.len() implies post.has_proposal(
            (#[trigger] post.votes@[i]).dao_name@,
            post.votes@[i].proposal_index,
        ) by {
            assert(pre.has_proposal(post.votes@[i].dao_name@, post.votes@[i].proposal_index));
        }
    }

    /// What `vote` returns when `voter` casts `choice` at time `now`.
    pub open spec fn vote_result(
        &self,
        now: i64,
        name: Seq<u8>,
        index: u64,
        voter: Seq<u8>,
        choice: bool,
    ) -> Result<(), ErrorCode> {
        let p = self.proposal(name, index);
        if !self.has_proposal(name, index) {
            Err(ErrorCode::ProposalNotFound)
        } else if self.has_vote(name, index, voter) {
            Err(ErrorCode::AlreadyVoted)
        } else if p.status != ProposalStatus::Active {
            Err(ErrorCode::NotActive)
        } else if now > p.voting_deadline {
            Err(ErrorCode::VotingClosed)
        } else if (choice && p.votes_for == u64::MAX) || (!choice && p.votes_against
            == u64::MAX) {
            Err(ErrorCode::ArithmeticOverflow)
        } else {
            Ok(())
        }
    }

    /// Casts the signer's ballot on the proposal at (`dao_name`,
    /// `proposal_index`): one ballot per voter, of weight one, taken while the
    /// proposal is `Active` and the deadline has not passed.
    pub fn vote(&mut self, ctx: &Context, dao_name: &[u8], proposal_index: u64, choice: bool) -> (r: Result<(), ErrorCode>)
        requires
            old(self).wf(),
        ensures
            final(self).wf(),
            r == old(self).vote_result(ctx.now, dao_name@, proposal_index, ctx.signer@, choice),
            r is Err ==> *final(self) == *old(self),
            r is Ok ==> {
                let p = old(self).proposal(dao_name@, proposal_index);
                &&& final(self).proposals@ == old(self).proposals@.update(
                    old(self).proposal_pos(dao_name@, proposal_index),
                    tallied(p, choice),
                )
                &&& final(self).votes@ == old(self).votes@.push(
                    VoteAccount {
                        dao_name: p.dao_name,
                        proposal_index,
                        voter: ctx.signer,
                        choice,
                    },
                )
                &&& final(self).has_vote(dao_name@, proposal_index, ctx.signer@)
                &&& final(self).daos == old(self).daos
                &&& final(self).treasuries == old(self).treasuries
            },
    {
        let pos = match self.find_proposal(dao_name, proposal_index) {
            Some(i) => i,
            None => {
                return Err(ErrorCode::ProposalNotFound);
            },
        };
        if self.find_vote(dao_name, proposal_index, &ctx.signer) {
            return Err(ErrorCode::AlreadyVoted);
        }
        let mut p = self.proposals[pos];
        if p.status != ProposalStatus::Active {
            return Err(ErrorCode::NotActive);
        }
        if ctx.now > p.voting_deadline {
            return Err(ErrorCode::VotingClosed);
        }
        if choice {
            if p.votes_for == u64::MAX {
                return Err(ErrorCode::ArithmeticOverflow);
            }
            p.votes_for = p.votes_for + 1;
        } else {
            if p.votes_against == u64::MAX {
                return Err(ErrorCode::ArithmeticOverflow);
            }
            p.votes_against = p.votes_against + 1;
        }
        let ghost pre = *self;
        let ballot = VoteAccount {
            dao_name: p.dao_name,
            proposal_index,
            voter: ctx.signer,
            choice,
        };
        self.proposals.set(pos, p);
        self.votes.push(ballot);
        proof {
            let post = *self;
            let n = pre.votes@.len() as int;
            assert(pre.proposals@[pos as int].wf());
            assert(vote_at(post.votes@, dao_name@, proposal_index, ctx.signer@, n));
            assert forall|x: Seq<u8>, k: u64, v: Seq<u8>, i: int, j: int|
                #[trigger] vote_at(post.votes@, x, k, v, i) && #[trigger] vote_at(
                    post.votes@,
                    x,
                    k,
                    v,
                    j,
                ) implies i == j by {
                if i < n {
                    assert(vote_at(pre.votes@, x, k, v, i));
                }
                if j < n {
                    assert(vote_at(pre.votes@, x, k, v, j));
                }
            }
            assert forall|i: int| 0 <= i < post.votes@.len() implies pre.has_proposal(
                (#[trigger] post.votes@[i]).dao_name@,
                post.votes@[i].proposal_index,
            ) by {
                if i == n {
                    assert(proposal_at(pre.proposals@, dao_name@, proposal_index, pos as int));
                } else {
                    assert(pre.votes@[i] == post.votes@[i]);
                }
            }
            Ledger::lemma_proposal_replaced(&pre, &post, pos as int);
        }
        Ok(())
    }

    /// What `finalize` returns at time `now`: the status the tally decides.
    pub open spec fn finalize_result(&self, now: i64, name: Seq<u8>, index: u64) -> Result<
        ProposalStatus,
        ErrorCode,
    > {
        let p = self.proposal(name, index);
        if !self.has_proposal(name, index) {
            Err(ErrorCode::ProposalNotFound)
        } else if p.status != ProposalStatus::Active {
            Err(ErrorCode::NotActive)
        } else if now < p.voting_deadline {
            Err(ErrorCode::VotingStillActive)
        } else if p.votes_for > p.votes_against {
            Ok(ProposalStatus::Approved)
        } else {
            Ok(ProposalStatus::Rejected)
        }
    }

    /// Closes the vote on the proposal at (`dao_name`, `proposal_index`) once
    /// its deadline is reached: `Approved` when strictly more votes are for it
    /// than against, `Rejected` otherwise. Only an `Active` proposal is closed.
    pub fn finalize(&mut self, ctx: &Context, dao_name: &[u8], proposal_index: u64) -> (r: Result<ProposalStatus, ErrorCode>)
        requires
            old(self).wf(),
        ensures
            final(self).wf(),
            r == old(self).finalize_result(ctx.now, dao_name@, proposal_index),
            r is Err ==> *final(self) == *old(self),
            r matches Ok(s) ==> {
                &&& final(self).proposals@ == old(self).proposals@.update(
                    old(self).proposal_pos(dao_name@, proposal_index),
                    Proposal { status: s, ..old(self).proposal(dao_name@, proposal_index) },
                )
                &&& final(self).daos == old(self).daos
                &&& final(self).treasuries == old(self).treasuries
                &&& final(self).votes == old(self).votes
            },
    {
        let pos = match self.find_proposal(dao_name, proposal_index) {
            Some(i) => i,
            None => {
                return Err(ErrorCode::ProposalNotFound);
            },
        };
        let mut p = self.proposals[pos];
        if p.status != ProposalStatus::Active {
            return Err(ErrorCode::NotActive);
        }
        if ctx.now < p.voting_deadline {
            return Err(ErrorCode::VotingStillActive);
        }
        let s = if p.has_passed() {
            ProposalStatus::Approved
        } else {
            ProposalStatus::Rejected
        };
        p.status = s;
        let ghost pre = *self;
        self.proposals.set(pos, p);
        proof {
            let post = *self;
            assert(pre.proposals@[pos as int].wf());
            Ledger::lemma_proposal_replaced(&pre, &post, pos as int);
        }
        Ok(s)
    }

    /// What `execute_proposal` returns for the given token accounts.
    pub open spec fn execute_result(
        &self,
        name: Seq<u8>,
        index: u64,
        treasury_token: TokenAccount,
        recipient_token: TokenAccount,
    ) -> Result<(), ErrorCode> {
        let p = self.proposal(name, index);
        if !self.has_proposal(name, index) {
            Err(ErrorCode::ProposalNotFound)
        } else if p.status == ProposalStatus::Executed {
            Err(ErrorCode::AlreadyExecuted)
        } else if p.status != ProposalStatus::Approved {
            Err(ErrorCode::NotApproved)
        } else if !self.has_treasury(name) {
            Err(ErrorCode::TreasuryNotFound)
        } else if self.treasury(name).treasury_mint@ != p.mint@ || treasury_token.mint@ != p.mint@ {
            Err(ErrorCode::MintMismatch)
        } else if recipient_token.owner@ != p.recipient@ {
            Err(ErrorCode::RecipientMismatch)
        } else if recipient_token.mint@ != p.mint@ {
            Err(ErrorCode::InvalidRecipient)
        } else if treasury_token.amount < p.amount {
            Err(ErrorCode::InsufficientTreasuryBalance)
        } else if recipient_token.amount + p.amount > u64::MAX {
            Err(ErrorCode::ArithmeticOverflow)
        } else {
            Ok(())
        }
    }

    /// Settles the approved proposal at (`dao_name`, `proposal_index`): moves
    /// exactly its amount from the treasury's token account to the recipient's
    /// and marks it `Executed`. Every check comes before any change, and a
    /// failure changes nothing.
    pub fn execute_proposal(
        &mut self,
        dao_name: &[u8],
        proposal_index: u64,
        treasury_token: &mut TokenAccount,
        recipient_token: &mut TokenAccount,
    ) -> (r: Result<(), ErrorCode>)
        requires
            old(self).wf(),
        ensures
            final(self).wf(),
            r == old(self).execute_result(
                dao_name@,
                proposal_index,
                *old(treasury_token),
                *old(recipient_token),
            ),
            r is Err ==> *final(self) == *old(self) && *final(treasury_token) == *old(
                treasury_token,
            ) && *final(recipient_token) == *old(recipient_token),
            r is Ok ==> {
                let p = old(self).proposal(dao_name@, proposal_index);
                &&& final(self).proposals@ == old(self).proposals@.update(
                    old(self).proposal_pos(dao_name@, proposal_index),
                    Proposal { status: ProposalStatus::Executed, ..p },
                )
                &&& *final(treasury_token) == (TokenAccount {
                    amount: (old(treasury_token).amount - p.amount) as u64,
                    ..*old(treasury_token)
                })
                &&& *final(recipient_token) == (TokenAccount {
                    amount: (old(recipient_token).amount + p.amount) as u64,
                    ..*old(recipient_token)
                })
                &&& final(self).daos == old(self).daos
                &&& final(self).treasuries == old(self).treasuries
                &&& final(self).votes == old(self).votes
            },
    {
        let pos = match self.find_proposal(dao_name, proposal_index) {
            Some(i) => i,
            None => {
                return Err(ErrorCode::ProposalNotFound);
            },
        };
        let mut p = self.proposals[pos];
        if p.status == ProposalStatus::Executed {
            return Err(ErrorCode::AlreadyExecuted);
        }
        if !p.can_execute() {
            return Err(ErrorCode::NotApproved);
        }
        let t = match self.find_treasury(dao_name) {
            Some(i) => i,
            None => {
                return Err(ErrorCode::TreasuryNotFound);
            },
        };
        if !self.treasuries[t].treasury_mint.same(&p.mint) || !treasury_token.mint.same(&p.mint) {
            return Err(ErrorCode::MintMismatch);
        }
        if !recipient_token.owner.same(&p.recipient) {
            return Err(ErrorCode::RecipientMismatch);
        }
        if !recipient_token.mint.same(&p.mint) {
            return Err(ErrorCode::InvalidRecipient);
        }
        if treasury_token.amount < p.amount {
            return Err(ErrorCode::InsufficientTreasuryBalance);
        }
        if recipient_token.amount > u64::MAX - p.amount {
            return Err(ErrorCode::ArithmeticOverflow);
        }
        treasury_token.amount = treasury_token.amount - p.amount;
        recipient_token.amount = recipient_token.amount + p.amount;
        p.status = ProposalStatus::Executed;
        let ghost pre = *self;
        self.proposals.set(pos, p);
        proof {
            let post = *self;
            assert(pre.proposals@[pos as int].wf());
            Ledger::lemma_proposal_replaced(&pre, &post, pos as int);
        }
        Ok(())
    }
}

/// What `deposit_funds` returns when `payer` holds `from` and the treasury `to`.
pub open spec fn deposit_result(from: u64, to: u64, amount: u64) -> Result<(), ErrorCode> {
    if from < amount {
        Err(ErrorCode::InsufficientBalance)
    } else if to + amount > u64::MAX {
        Err(ErrorCode::ArithmeticOverflow)
    } else {
        Ok(())
    }
}

/// Moves `amount` from the payer's raw balance to the treasury's: all of it
/// or, when the payer cannot cover it, none.
pub fn deposit_funds(from: &mut u64, treasury: &mut u64, amount: u64) -> (r: Result<(), ErrorCode>)
    ensures
        r == deposit_result(*old(from), *old(treasury), amount),
        r is Ok ==> *final(from) == *old(from) - amount && *final(treasury) == *old(treasury)
            + amount,
        r is Err ==> *final(from) == *old(from) && *final(treasury) == *old(treasury),
{
    if *from < amount {
        return Err(ErrorCode::InsufficientBalance);
    }
    if *treasury > u64::MAX - amount {
        return Err(ErrorCode::ArithmeticOverflow);
    }
    *from = *from - amount;
    *treasury = *treasury + amount;
    Ok(())
}

} // verus!
