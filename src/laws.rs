use crate::errors::{kind_of, ErrorCode, ErrorKind};
use crate::keys::MAX_NAME_LEN;
use crate::ledger::{proposal_at, Ledger};
use crate::state::{status_step, Proposal, ProposalStatus, TokenAccount};
use vstd::prelude::*;

verus! {

/// A DAO name longer than 32 bytes is refused with a validation error (and a
/// refused `create_dao` leaves the ledger as it was).
pub proof fn lemma_long_name_refused(l: Ledger, name: Seq<u8>)
    requires
        name.len() > MAX_NAME_LEN,
    ensures
        l.create_dao_result(name) == Err::<(), ErrorCode>(ErrorCode::NameTooLong),
        kind_of(ErrorCode::NameTooLong) == ErrorKind::Validation,
{
}

/// The proposals of a DAO are indexed exactly 0, 1, ..., proposal_count - 1.
pub proof fn lemma_indices_dense(l: Ledger, name: Seq<u8>)
    requires
        l.wf(),
        l.has_dao(name),
    ensures
        forall|k: u64| #[trigger] l.has_proposal(name, k) <==> k < l.dao(name).proposal_count,
{
    let j = l.dao_pos(name);
    assert forall|k: u64| #[trigger] l.has_proposal(name, k) <==> k < l.dao(name).proposal_count by {
        if l.has_proposal(name, k) {
            let i = choose|i: int| proposal_at(l.proposals@, name, k, i);
            assert(proposal_at(l.proposals@, name, k, i));
        }
        if k < l.dao(name).proposal_count {
            assert(l.has_proposal(l.daos@[j].dao_name@, k));
        }
    }
}

/// Once a voter has a ballot on a proposal, every further attempt by that
/// voter is refused as a duplicate, whatever the choice and the time.
pub proof fn lemma_one_ballot_per_voter(
    l: Ledger,
    now: i64,
    name: Seq<u8>,
    index: u64,
    voter: Seq<u8>,
    choice: bool,
)
    requires
        l.wf(),
        l.has_vote(name, index, voter),
    ensures
        l.vote_result(now, name, index, voter, choice) == Err::<(), ErrorCode>(
            ErrorCode::AlreadyVoted,
        ),
{
    let i = choose|i: int| crate::ledger::vote_at(l.votes@, name, index, voter, i);
    assert(l.votes@[i].dao_name@ == name);
    assert(l.has_proposal(l.votes@[i].dao_name@, l.votes@[i].proposal_index));
}

/// After its deadline no ballot is taken on a proposal; on an `Active`
/// proposal the voter has not voted on, the refusal is `VotingClosed`.
pub proof fn lemma_late_vote_refused(
    l: Ledger,
    now: i64,
    name: Seq<u8>,
    index: u64,
    voter: Seq<u8>,
    choice: bool,
)
    requires
        l.has_proposal(name, index),
        now > l.proposal(name, index).voting_deadline,
    ensures
        l.vote_result(now, name, index, voter, choice) is Err,
        !l.has_vote(name, index, voter) && l.proposal(name, index).status
            == ProposalStatus::Active ==> l.vote_result(now, name, index, voter, choice) == Err::<
            (),
            ErrorCode,
        >(ErrorCode::VotingClosed),
{
}

/// A proposal passes exactly when strictly more votes are for it than against,
/// and closing the vote approves exactly such a proposal.
pub proof fn lemma_pass_iff_majority(l: Ledger, now: i64, name: Seq<u8>, index: u64)
    requires
        l.has_proposal(name, index),
        l.proposal(name, index).status == ProposalStatus::Active,
        now >= l.proposal(name, index).voting_deadline,
    ensures
        l.finalize_result(now, name, index) == Ok::<ProposalStatus, ErrorCode>(
            ProposalStatus::Approved,
        ) <==> l.proposal(name, index).votes_for > l.proposal(name, index).votes_against,
        l.finalize_result(now, name, index) is Ok,
{
}

/// A proposal that was never approved cannot be settled.
pub proof fn lemma_execute_needs_approval(
    l: Ledger,
    name: Seq<u8>,
    index: u64,
    treasury_token: TokenAccount,
    recipient_token: TokenAccount,
)
    requires
        l.has_proposal(name, index),
        l.proposal(name, index).status != ProposalStatus::Approved,
        l.proposal(name, index).status != ProposalStatus::Executed,
    ensures
        l.execute_result(name, index, treasury_token, recipient_token) == Err::<(), ErrorCode>(
            ErrorCode::NotApproved,
        ),
{
}

/// Settlement happens once: in the ledger a successful `execute_proposal`
/// leaves behind, any further settlement of that proposal is refused with
/// `AlreadyExecuted` (and a refused call moves no funds).
pub proof fn lemma_execute_once(
    pre: Ledger,
    post: Ledger,
    name: Seq<u8>,
    index: u64,
    treasury_token: TokenAccount,
    recipient_token: TokenAccount,
)
    requires
        pre.wf(),
        post.wf(),
        pre.has_proposal(name, index),
        post.proposals@ == pre.proposals@.update(
            pre.proposal_pos(name, index),
            Proposal { status: ProposalStatus::Executed, ..pre.proposal(name, index) },
        ),
    ensures
        post.execute_result(name, index, treasury_token, recipient_token) == Err::<
            (),
            ErrorCode,
        >(ErrorCode::AlreadyExecuted),
{
    let pos = pre.proposal_pos(name, index);
    assert(proposal_at(pre.proposals@, name, index, pos));
    assert(proposal_at(post.proposals@, name, index, pos));
    post.lemma_proposal_pos(name, index, pos);
}

/// Status only moves forward: closing the vote takes an `Active` proposal to
/// `Approved` or `Rejected`, and settlement takes an `Approved` one to
/// `Executed`; a ballot leaves the status as it is.
pub proof fn lemma_status_forward(
    l: Ledger,
    now: i64,
    name: Seq<u8>,
    index: u64,
    voter: Seq<u8>,
    choice: bool,
    treasury_token: TokenAccount,
    recipient_token: TokenAccount,
)
    requires
        l.has_proposal(name, index),
    ensures
        l.finalize_result(now, name, index) matches Ok(s) ==> status_step(
            l.proposal(name, index).status,
            s,
        ),
        l.execute_result(name, index, treasury_token, recipient_token) is Ok ==> status_step(
            l.proposal(name, index).status,
            ProposalStatus::Executed,
        ),
        crate::ledger::tallied(l.proposal(name, index), choice).status == l.proposal(
            name,
            index,
        ).status,
{
}

} // verus!
