use micro_grants::errors::{ErrorCode, ErrorKind};
use micro_grants::keys::{DaoName, Pubkey};
use micro_grants::ledger::{deposit_funds, Ledger};
use micro_grants::state::{Context, ProposalStatus, TokenAccount};

const T: i64 = 1_700_000_000;

fn key(b: u8) -> Pubkey {
    Pubkey::new_from_array([b; 32])
}

fn ctx(signer: u8, now: i64) -> Context {
    Context { signer: key(signer), now }
}

const AUTHORITY: u8 = 1;
const RECIPIENT: u8 = 2;
const MINT: u8 = 3;

/// A ledger with DAO "Grants", its treasury, and one proposal of `amount`
/// whose deadline is T + 1000.
fn grants_with_proposal(amount: u64) -> Ledger {
    let mut l = Ledger::new();
    l.create_dao(&ctx(AUTHORITY, T), b"Grants").unwrap();
    l.create_treasury(b"Grants", key(MINT)).unwrap();
    let index = l
        .create_proposal(&ctx(AUTHORITY, T), b"Grants", b"bafy-cid", amount, key(RECIPIENT), T + 1000, key(MINT))
        .unwrap();
    assert_eq!(index, 0);
    l
}

fn treasury_account(amount: u64) -> TokenAccount {
    TokenAccount { owner: key(9), mint: key(MINT), amount }
}

fn recipient_account(amount: u64) -> TokenAccount {
    TokenAccount { owner: key(RECIPIENT), mint: key(MINT), amount }
}

fn approved(amount: u64) -> Ledger {
    let mut l = grants_with_proposal(amount);
    l.vote(&ctx(10, T + 1), b"Grants", 0, true).unwrap();
    assert_eq!(l.finalize(&ctx(0, T + 1000), b"Grants", 0), Ok(ProposalStatus::Approved));
    l
}

#[test]
fn grants_scenario() {
    let mut l = grants_with_proposal(1000);
    for voter in 10..13u8 {
        assert_eq!(l.vote(&ctx(voter, T + 10), b"Grants", 0, true), Ok(()));
    }
    assert_eq!(l.vote(&ctx(20, T + 999), b"Grants", 0, false), Ok(()));
    assert!(l.proposals[0].has_passed());
    assert_eq!(l.proposals[0].votes_for, 3);
    assert_eq!(l.proposals[0].votes_against, 1);
    assert_eq!(l.finalize(&ctx(0, T + 1001), b"Grants", 0), Ok(ProposalStatus::Approved));
    assert_eq!(l.proposals[0].status, ProposalStatus::Approved);

    let mut treasury = treasury_account(5000);
    let mut recipient = recipient_account(7);
    assert_eq!(l.execute_proposal(b"Grants", 0, &mut treasury, &mut recipient), Ok(()));
    assert_eq!(treasury.amount, 4000);
    assert_eq!(recipient.amount, 1007);
    assert_eq!(l.proposals[0].status, ProposalStatus::Executed);

    assert_eq!(
        l.execute_proposal(b"Grants", 0, &mut treasury, &mut recipient),
        Err(ErrorCode::AlreadyExecuted)
    );
    assert_eq!(treasury.amount, 4000);
    assert_eq!(recipient.amount, 1007);
}

#[test]
fn long_name_is_refused() {
    let mut l = Ledger::new();
    let name = [b'a'; 33];
    let r = l.create_dao(&ctx(AUTHORITY, T), &name);
    assert_eq!(r, Err(ErrorCode::NameTooLong));
    assert_eq!(r.unwrap_err().kind(), ErrorKind::Validation);
    assert!(l.daos.is_empty());
    assert_eq!(l.create_treasury(&name, key(MINT)), Err(ErrorCode::NameTooLong));
    assert!(l.treasuries.is_empty());
}

#[test]
fn name_of_exactly_32_bytes_is_accepted() {
    let mut l = Ledger::new();
    let name = [b'z'; 32];
    assert_eq!(l.create_dao(&ctx(AUTHORITY, T), &name), Ok(()));
    assert_eq!(l.daos.len(), 1);
    assert_eq!(l.daos[0].proposal_count, 0);
    assert_eq!(l.daos[0].dao_name.to_vec(), name.to_vec());
}

#[test]
fn duplicate_dao_and_treasury_are_refused() {
    let mut l = Ledger::new();
    assert_eq!(l.create_dao(&ctx(AUTHORITY, T), b"Grants"), Ok(()));
    assert_eq!(l.create_dao(&ctx(5, T), b"Grants"), Err(ErrorCode::AlreadyExists));
    assert_eq!(l.daos.len(), 1);
    assert_eq!(l.create_dao(&ctx(5, T), b"Grant"), Ok(()));
    assert_eq!(l.create_treasury(b"Grants", key(MINT)), Ok(()));
    assert_eq!(l.create_treasury(b"Grants", key(4)), Err(ErrorCode::AlreadyExists));
    assert_eq!(l.treasuries.len(), 1);
    assert_eq!(l.daos.len(), 2);
}

#[test]
fn proposal_indices_are_dense() {
    let mut l = Ledger::new();
    l.create_dao(&ctx(AUTHORITY, T), b"Grants").unwrap();
    l.create_dao(&ctx(AUTHORITY, T), b"Other").unwrap();
    for n in 0..5u64 {
        let r = l.create_proposal(&ctx(AUTHORITY, T), b"Grants", b"c", 1, key(RECIPIENT), T, key(MINT));
        assert_eq!(r, Ok(n));
    }
    assert_eq!(l.create_proposal(&ctx(AUTHORITY, T), b"Other", b"c", 1, key(RECIPIENT), T, key(MINT)), Ok(0));
    assert_eq!(l.daos[0].proposal_count, 5);
    assert_eq!(l.daos[1].proposal_count, 1);
    let indices: Vec<u64> = l.proposals.iter().take(5).map(|p| p.proposal_index).collect();
    assert_eq!(indices, vec![0, 1, 2, 3, 4]);
    let p = &l.proposals[2];
    assert_eq!(p.get_dao_name(), b"Grants".to_vec());
    assert_eq!(p.status, ProposalStatus::Active);
    assert_eq!((p.votes_for, p.votes_against), (0, 0));
}

#[test]
fn proposal_creation_errors() {
    let mut l = Ledger::new();
    l.create_dao(&ctx(AUTHORITY, T), b"Grants").unwrap();
    assert_eq!(
        l.create_proposal(&ctx(7, T), b"Grants", b"c", 1, key(RECIPIENT), T, key(MINT)),
        Err(ErrorCode::DaoMismatch)
    );
    assert_eq!(
        l.create_proposal(&ctx(AUTHORITY, T), b"Nope", b"c", 1, key(RECIPIENT), T, key(MINT)),
        Err(ErrorCode::DaoMismatch)
    );
    assert_eq!(ErrorCode::DaoMismatch.kind(), ErrorKind::Authorization);
    let long = [b'q'; 65];
    assert_eq!(
        l.create_proposal(&ctx(AUTHORITY, T), b"Grants", &long, 1, key(RECIPIENT), T, key(MINT)),
        Err(ErrorCode::ContentTooLong)
    );
    assert_eq!(l.daos[0].proposal_count, 0);
    assert!(l.proposals.is_empty());
    let exact = [b'q'; 64];
    assert_eq!(
        l.create_proposal(&ctx(AUTHORITY, T), b"Grants", &exact, 1, key(RECIPIENT), T, key(MINT)),
        Ok(0)
    );
    assert_eq!(l.proposals[0].cid_as_slice(), exact.to_vec());
}

#[test]
fn second_vote_is_refused() {
    let mut l = grants_with_proposal(10);
    assert_eq!(l.vote(&ctx(10, T), b"Grants", 0, true), Ok(()));
    assert_eq!(l.vote(&ctx(10, T), b"Grants", 0, true), Err(ErrorCode::AlreadyVoted));
    assert_eq!(l.vote(&ctx(10, T), b"Grants", 0, false), Err(ErrorCode::AlreadyVoted));
    assert_eq!(l.proposals[0].votes_for, 1);
    assert_eq!(l.proposals[0].votes_against, 0);
    assert_eq!(l.votes.len(), 1);
    assert!(l.votes[0].choice);
    assert!(l.votes[0].voter.same(&key(10)));
}

#[test]
fn vote_after_deadline_is_closed() {
    let mut l = grants_with_proposal(10);
    assert_eq!(l.vote(&ctx(10, T + 1001), b"Grants", 0, true), Err(ErrorCode::VotingClosed));
    assert_eq!(l.proposals[0].status, ProposalStatus::Active);
    assert_eq!(l.vote(&ctx(10, T + 1000), b"Grants", 0, true), Ok(()));
    assert!(!l.proposals[0].is_voting_active(T + 1001));
    assert!(l.proposals[0].is_voting_active(T + 1000));
    assert!(l.votes.len() == 1);
}

#[test]
fn vote_errors() {
    let mut l = grants_with_proposal(10);
    assert_eq!(l.vote(&ctx(10, T), b"Grants", 1, true), Err(ErrorCode::ProposalNotFound));
    assert_eq!(l.vote(&ctx(10, T), b"Other", 0, true), Err(ErrorCode::ProposalNotFound));
    l.finalize(&ctx(0, T + 1000), b"Grants", 0).unwrap();
    assert_eq!(l.vote(&ctx(11, T), b"Grants", 0, true), Err(ErrorCode::NotActive));
}

#[test]
fn tie_does_not_pass() {
    let mut l = grants_with_proposal(10);
    for (voter, choice) in [(10u8, true), (11, false), (12, true), (13, false)] {
        l.vote(&ctx(voter, T), b"Grants", 0, choice).unwrap();
    }
    assert!(!l.proposals[0].has_passed());
    assert_eq!(l.finalize(&ctx(0, T + 1000), b"Grants", 0), Ok(ProposalStatus::Rejected));
    assert_eq!(l.proposals[0].status, ProposalStatus::Rejected);
}

#[test]
fn finalize_errors() {
    let mut l = grants_with_proposal(10);
    assert_eq!(l.finalize(&ctx(0, T + 999), b"Grants", 0), Err(ErrorCode::VotingStillActive));
    assert_eq!(l.finalize(&ctx(0, T + 999), b"Grants", 3), Err(ErrorCode::ProposalNotFound));
    assert_eq!(l.finalize(&ctx(0, T + 1000), b"Grants", 0), Ok(ProposalStatus::Rejected));
    assert_eq!(l.finalize(&ctx(0, T + 2000), b"Grants", 0), Err(ErrorCode::NotActive));
    assert_eq!(ErrorCode::VotingStillActive.kind(), ErrorKind::State);
}

#[test]
fn execute_needs_approval() {
    let mut l = grants_with_proposal(10);
    let mut treasury = treasury_account(100);
    let mut recipient = recipient_account(0);
    assert_eq!(l.execute_proposal(b"Grants", 0, &mut treasury, &mut recipient), Err(ErrorCode::NotApproved));
    l.finalize(&ctx(0, T + 1000), b"Grants", 0).unwrap();
    assert!(!l.proposals[0].can_execute());
    assert_eq!(l.execute_proposal(b"Grants", 0, &mut treasury, &mut recipient), Err(ErrorCode::NotApproved));
    assert_eq!(treasury.amount, 100);
    assert_eq!(recipient.amount, 0);
    assert_eq!(l.execute_proposal(b"Grants", 5, &mut treasury, &mut recipient), Err(ErrorCode::ProposalNotFound));
}

#[test]
fn execute_checks_accounts() {
    let mut l = approved(50);
    assert!(l.proposals[0].can_execute());
    let mut recipient = recipient_account(0);

    let mut wrong_mint = TokenAccount { owner: key(9), mint: key(4), amount: 100 };
    assert_eq!(l.execute_proposal(b"Grants", 0, &mut wrong_mint, &mut recipient), Err(ErrorCode::MintMismatch));

    let mut treasury = treasury_account(100);
    let mut stranger = TokenAccount { owner: key(8), mint: key(MINT), amount: 0 };
    assert_eq!(l.execute_proposal(b"Grants", 0, &mut treasury, &mut stranger), Err(ErrorCode::RecipientMismatch));

    let mut other_mint = TokenAccount { owner: key(RECIPIENT), mint: key(4), amount: 0 };
    assert_eq!(l.execute_proposal(b"Grants", 0, &mut treasury, &mut other_mint), Err(ErrorCode::InvalidRecipient));

    let mut poor = treasury_account(49);
    assert_eq!(
        l.execute_proposal(b"Grants", 0, &mut poor, &mut recipient),
        Err(ErrorCode::InsufficientTreasuryBalance)
    );
    assert_eq!(poor.amount, 49);

    let mut full = recipient_account(u64::MAX - 10);
    assert_eq!(l.execute_proposal(b"Grants", 0, &mut treasury, &mut full), Err(ErrorCode::ArithmeticOverflow));
    assert_eq!(treasury.amount, 100);
    assert_eq!(l.proposals[0].status, ProposalStatus::Approved);
    assert_eq!(ErrorCode::InsufficientTreasuryBalance.kind(), ErrorKind::Transfer);

    assert_eq!(l.execute_proposal(b"Grants", 0, &mut treasury, &mut recipient), Ok(()));
    assert_eq!(treasury.amount, 50);
    assert_eq!(recipient.amount, 50);
}

#[test]
fn execute_needs_treasury_with_same_mint() {
    let mut l = Ledger::new();
    l.create_dao(&ctx(AUTHORITY, T), b"Grants").unwrap();
    l.create_proposal(&ctx(AUTHORITY, T), b"Grants", b"c", 5, key(RECIPIENT), T, key(MINT)).unwrap();
    l.vote(&ctx(10, T), b"Grants", 0, true).unwrap();
    l.finalize(&ctx(0, T), b"Grants", 0).unwrap();
    let mut treasury = treasury_account(100);
    let mut recipient = recipient_account(0);
    assert_eq!(l.execute_proposal(b"Grants", 0, &mut treasury, &mut recipient), Err(ErrorCode::TreasuryNotFound));
    l.create_treasury(b"Grants", key(4)).unwrap();
    assert_eq!(l.execute_proposal(b"Grants", 0, &mut treasury, &mut recipient), Err(ErrorCode::MintMismatch));
    assert_eq!(l.proposals[0].status, ProposalStatus::Approved);
}

#[test]
fn deposit_moves_all_or_nothing() {
    let mut from = 100u64;
    let mut treasury = 5u64;
    assert_eq!(deposit_funds(&mut from, &mut treasury, 40), Ok(()));
    assert_eq!((from, treasury), (60, 45));
    assert_eq!(deposit_funds(&mut from, &mut treasury, 61), Err(ErrorCode::InsufficientBalance));
    assert_eq!((from, treasury), (60, 45));
    assert_eq!(deposit_funds(&mut from, &mut treasury, 60), Ok(()));
    assert_eq!((from, treasury), (0, 105));
    let mut rich = u64::MAX;
    let mut full = u64::MAX;
    assert_eq!(deposit_funds(&mut rich, &mut full, 1), Err(ErrorCode::ArithmeticOverflow));
    assert_eq!((rich, full), (u64::MAX, u64::MAX));
}

#[test]
fn status_byte_decoding() {
    for s in [ProposalStatus::Active, ProposalStatus::Rejected, ProposalStatus::Approved, ProposalStatus::Executed] {
        assert_eq!(ProposalStatus::from_u8(s.to_u8()), Ok(s));
    }
    assert_eq!(ProposalStatus::Approved.to_u8(), 3);
    assert_eq!(ProposalStatus::from_u8(1), Err(ErrorCode::DecodeError));
    assert_eq!(ProposalStatus::from_u8(200), Err(ErrorCode::DecodeError));
}

#[test]
fn names_and_keys() {
    let n = DaoName::from_slice(b"Grants");
    assert!(n.matches(b"Grants"));
    assert!(!n.matches(b"Grant"));
    assert!(!n.matches(b"Grantz"));
    assert_eq!(n.to_vec(), b"Grants".to_vec());
    assert!(key(1).same(&key(1)));
    assert!(!key(1).same(&key(2)));
    assert_eq!(key(7).to_bytes(), [7u8; 32]);
    assert_eq!(ErrorCode::VotingClosed.message(), "Voting period is over.");
}
