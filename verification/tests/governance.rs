use nexus::governance::{GovernanceError, Proposal, ProposalStatus, Vote};

const THRESHOLD: f32 = 0.66;

fn make_proposal() -> Proposal {
    Proposal {
        proposal_id: 1,
        district_council_id: 2,
        author_node_id: 3,
        summary: "Test".into(),
        total_eligible_voters: 3,
        votes: vec![],
        status: ProposalStatus::Active,
        created_at: 0,
    }
}

/// The share of eligible voters who voted yea, as the proposal's threshold
/// is expressed.
fn approval_pct(p: &Proposal) -> f32 {
    if p.total_eligible_voters == 0 {
        return 0.0;
    }
    p.yea_count() as f32 / p.total_eligible_voters as f32
}

fn vote(p: &mut Proposal, voter: u128, admission: Result<(), GovernanceError>, v: Vote, ts: u64)
    -> Result<(), GovernanceError> {
    let r = p.register_vote(voter, admission, v, "s".into(), ts);
    if r.is_ok() {
        let met = approval_pct(p) >= THRESHOLD;
        p.settle(met);
    }
    r
}

#[test]
fn labor_can_vote() {
    let mut p = make_proposal();
    assert!(vote(&mut p, 10, Ok(()), Vote::Yea, 1).is_ok());
}

#[test]
fn child_cannot_vote() {
    let mut p = make_proposal();
    let refused = Err(GovernanceError::PermissionDenied("childhood phase cannot vote".into()));
    assert!(vote(&mut p, 11, refused, Vote::Yea, 1).is_err());
    assert!(p.votes.is_empty());
}

#[test]
fn duplicate_rejected() {
    let mut p = make_proposal();
    vote(&mut p, 12, Ok(()), Vote::Yea, 1).unwrap();
    let second = vote(&mut p, 12, Ok(()), Vote::Nay, 2);
    assert!(second.is_err());
    match second {
        Err(GovernanceError::Governance(m)) => assert_eq!(m, "Already voted"),
        _ => panic!("expected a governance error"),
    }
    assert_eq!(p.votes.len(), 1);
}

#[test]
fn threshold_triggers_approval() {
    let mut p = make_proposal();
    vote(&mut p, 13, Ok(()), Vote::Yea, 1).unwrap();
    assert_eq!(p.status, ProposalStatus::Active);
    vote(&mut p, 14, Ok(()), Vote::Yea, 2).unwrap();
    assert_eq!(p.status, ProposalStatus::Approved);
}

#[test]
fn yea_count_ignores_other_ballots() {
    let mut p = make_proposal();
    p.register_vote(1, Ok(()), Vote::Nay, "a".into(), 1).unwrap();
    p.register_vote(2, Ok(()), Vote::Abstain, "b".into(), 2).unwrap();
    p.register_vote(3, Ok(()), Vote::Yea, "c".into(), 3).unwrap();
    assert_eq!(p.yea_count(), 1);
    assert!(p.yea_count() as usize <= p.votes.len());
    assert_eq!(p.votes[2].voter_id, 3);
    assert_eq!(p.votes[2].signature, "c");
    assert_eq!(p.votes[2].timestamp, 3);
}

#[test]
fn settle_leaves_status_without_threshold() {
    let mut p = make_proposal();
    p.settle(false);
    assert_eq!(p.status, ProposalStatus::Active);
    p.settle(true);
    assert_eq!(p.status, ProposalStatus::Approved);
}
