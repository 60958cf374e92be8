//! Council governance: proposals and the votes cast on them.
//!
//! Identifiers are 128-bit integers (the value of a UUID). Whether a voter is
//! admitted at all is decided by the identity funnel before a vote reaches the
//! proposal; whether the yea share has reached the proposal's threshold is a
//! ratio the caller computes. The proposal records votes, refuses a second
//! vote from the same voter, and turns approved when told the threshold is met.

use vstd::prelude::*;

verus! {

/// Lifecycle of a proposal.
#[derive(Debug, Clone, Copy, PartialEq, Eq, Structural)]
pub enum ProposalStatus {
    Active,
    Approved,
    Rejected,
    Executed,
}

/// A ballot.
#[derive(Debug, Clone, Copy, PartialEq, Eq, Structural)]
pub enum Vote {
    Yea,
    Nay,
    Abstain,
}

/// One recorded vote.
#[derive(Debug)]
pub struct VoteRecord {
    pub voter_id: u128,
    pub vote: Vote,
    pub signature: String,
    pub timestamp: u64,
}

/// Why a vote was refused.
#[derive(Debug)]
pub enum GovernanceError {
    /// The identity funnel refused the voter; the message is the funnel's.
    PermissionDenied(String),
    /// A governance rule refused the vote.
    Governance(String),
}

/// A council proposal and the votes cast on it.
#[derive(Debug)]
pub struct Proposal {
    pub proposal_id: u128,
    pub district_council_id: u128,
    pub author_node_id: u128,
    pub summary: String,
    pub total_eligible_voters: u32,
    pub votes: Vec<VoteRecord>,
    pub status: ProposalStatus,
    pub created_at: u64,
}

/// Whether `voter` has a vote among `votes`.
pub open spec fn has_voted(votes: Seq<VoteRecord>, voter: u128) -> bool {
    exists|i: int| 0 <= i < votes.len() && (#[trigger] votes[i]).voter_id == voter
}

/// No voter appears twice among `votes`.
pub open spec fn one_vote_each(votes: Seq<VoteRecord>) -> bool {
    forall|i: int, j: int|
        0 <= i < j < votes.len() ==> (#[trigger] votes[i]).voter_id != (#[trigger] votes[j]).voter_id
}

/// The number of yea votes among `votes`.
pub open spec fn yeas(votes: Seq<VoteRecord>) -> nat
    decreases votes.len(),
{
    if votes.len() == 0 {
        0
    } else {
        yeas(votes.drop_last()) + if votes.last().vote is Yea {
            1nat
        } else {
            0nat
        }
    }
}

/// The proposal apart from its votes and status.
pub open spec fn same_header(a: Proposal, b: Proposal) -> bool {
    &&& a.proposal_id == b.proposal_id
    &&& a.district_council_id == b.district_council_id
    &&& a.author_node_id == b.author_node_id
    &&& a.summary == b.summary
    &&& a.total_eligible_voters == b.total_eligible_voters
    &&& a.created_at == b.created_at
}

/// The yea count never exceeds the number of votes.
pub proof fn law_yeas_bounded(votes: Seq<VoteRecord>)
    ensures
        yeas(votes) <= votes.len(),
    decreases votes.len(),
{
    if votes.len() > 0 {
        law_yeas_bounded(votes.drop_last());
    }
}

impl Proposal {
    /// Record `voter_id`'s vote. A refusal from the identity funnel
    /// (`admission`) is passed through; a voter who already voted is refused
    /// with `Already voted`; otherwise the vote is appended. The status is not
    /// touched here (see [`Proposal::settle`]).
    pub fn register_vote(
        &mut self,
        voter_id: u128,
        admission: Result<(), GovernanceError>,
        vote: Vote,
        signature: String,
        timestamp: u64,
    ) -> (r: Result<(), GovernanceError>)
        ensures
            same_header(*final(self), *old(self)),
            final(self).status == old(self).status,
            admission matches Err(e) ==> (r matches Err(f) && f == e
                && final(self).votes@ == old(self).votes@),
            admission is Ok && has_voted(old(self).votes@, voter_id) ==> (r matches Err(
                GovernanceError::Governance(m),
            ) && m@ == "Already voted"@ && final(self).votes@ == old(self).votes@),
            admission is Ok && !has_voted(old(self).votes@, voter_id) ==> (r is Ok
                && final(self).votes@ == old(self).votes@.push(
                VoteRecord { voter_id, vote, signature, timestamp },
            )),
            one_vote_each(old(self).votes@) ==> one_vote_each(final(self).votes@),
    {
        match admission {
            Err(e) => {
                return Err(e);
            },
            Ok(()) => {},
        }
        let mut i: usize = 0;
        while i < self.votes.len()
            invariant
                i <= self.votes@.len(),
                admission is Ok,
                *self == *old(self),
                forall|j: int| 0 <= j < i ==> (#[trigger] self.votes@[j]).voter_id != voter_id,
            decreases self.votes@.len() - i,
        {
            if self.votes[i].voter_id == voter_id {
                return Err(GovernanceError::Governance(String::from_str("Already voted")));
            }
            i = i + 1;
        }
        let ghost before = self.votes@;
        self.votes.push(VoteRecord { voter_id, vote, signature, timestamp });
        assert forall|a: int, b: int| 0 <= a < b < self.votes@.len() && one_vote_each(before) implies (
        #[trigger] self.votes@[a]).voter_id != (#[trigger] self.votes@[b]).voter_id by {
            if b == before.len() {
                assert(before[a].voter_id != voter_id);
            } else {
                assert(self.votes@[a] == before[a] && self.votes@[b] == before[b]);
            }
        }
        Ok(())
    }

    /// The number of yea votes cast.
    pub fn yea_count(&self) -> (r: u64)
        ensures
            r as nat == yeas(self.votes@),
    {
        let mut count: u64 = 0;
        let mut i: usize = 0;
        while i < self.votes.len()
            invariant
                i <= self.votes@.len(),
                count as nat == yeas(self.votes@.subrange(0, i as int)),
                count <= i,
            decreases self.votes@.len() - i,
        {
            assert(self.votes@.subrange(0, i + 1).drop_last() =~= self.votes@.subrange(0, i as int));
            if matches!(self.votes[i].vote, Vote::Yea) {
                count = count + 1;
            }
            i = i + 1;
        }
        assert(self.votes@.subrange(0, self.votes@.len() as int) =~= self.votes@);
        count
    }

    /// Mark the proposal approved when the yea share has reached its
    /// threshold; otherwise leave it as it is.
    pub fn settle(&mut self, threshold_met: bool)
        ensures
            same_header(*final(self), *old(self)),
            final(self).votes@ == old(self).votes@,
            threshold_met ==> final(self).status == ProposalStatus::Approved,
            !threshold_met ==> final(self).status == old(self).status,
    {
        if threshold_met {
            self.status = ProposalStatus::Approved;
        }
    }
}

/// The yea count counts exactly the yea ballots: a list of only yea votes
/// counts its length, a list without any counts zero, and one more vote adds
/// one exactly when it is a yea.
pub proof fn law_yeas_count_yea_ballots(votes: Seq<VoteRecord>, extra: VoteRecord)
    ensures
        (forall|i: int| 0 <= i < votes.len() ==> (#[trigger] votes[i]).vote == Vote::Yea) ==> yeas(
            votes,
        ) == votes.len(),
        (forall|i: int| 0 <= i < votes.len() ==> (#[trigger] votes[i]).vote != Vote::Yea) ==> yeas(
            votes,
        ) == 0,
        yeas(votes.push(extra)) == yeas(votes) + if extra.vote == Vote::Yea {
            1int
        } else {
            0int
        },
    decreases votes.len(),
{
    assert(votes.push(extra).drop_last() =~= votes);
    if votes.len() > 0 {
        let rest = votes.drop_last();
        law_yeas_count_yea_ballots(rest, votes.last());
        assert forall|i: int| 0 <= i < rest.len() implies rest[i] == votes[i] by {}
        if forall|i: int| 0 <= i < votes.len() ==> (#[trigger] votes[i]).vote == Vote::Yea {
            assert(forall|i: int| 0 <= i < rest.len() ==> (#[trigger] rest[i]).vote == Vote::Yea);
            assert(votes[votes.len() - 1].vote == Vote::Yea);
        }
        if forall|i: int| 0 <= i < votes.len() ==> (#[trigger] votes[i]).vote != Vote::Yea {
            assert(forall|i: int| 0 <= i < rest.len() ==> (#[trigger] rest[i]).vote != Vote::Yea);
            assert(votes[votes.len() - 1].vote != Vote::Yea);
        }
    }
}

} // verus!
