//! Housing council rules carried by the housing surface: the default review
//! quorum and the contribution the decisive activation vote mints.

use vstd::prelude::*;

use crate::access::AccessError;
use crate::demiurge::ContributionKind;

verus! {

/// Seconds in a week.
pub const SECONDS_PER_WEEK: i64 = 604_800;

/// Council approvals a housing node needs: the requested number, or two.
pub fn default_quorum(requested: Option<i32>) -> (r: i32)
    ensures
        requested matches Some(q) ==> r == q,
        requested is None ==> r == 2,
{
    match requested {
        Some(q) => q,
        None => 2,
    }
}

/// The contribution minted for the vote that activates a housing node.
#[derive(Debug)]
pub struct CouncilContribution {
    pub kind: ContributionKind,
    pub minutes: i64,
    pub essential: bool,
    pub coverage: bool,
    pub week_index: i64,
    pub note: String,
    pub at_unix: i64,
}

/// The decisive vote is a civic act of governance: it mints thirty minutes of
/// labor, neither essential nor coverage, in the week containing `at_unix`
/// (weeks counted from the epoch, rounding toward zero), noted with the
/// housing node's name.
pub fn decisive_vote_contribution(at_unix: i64, housing_name: &str) -> (r: CouncilContribution)
    ensures
        r.kind == ContributionKind::Labor,
        r.minutes == 30,
        !r.essential,
        !r.coverage,
        r.week_index == crate::demiurge::div_toward_zero(at_unix as int, SECONDS_PER_WEEK as int),
        r.note@ == "housing council · decisive vote · "@ + housing_name@,
        r.at_unix == at_unix,
{
    let mut note = String::from_str("housing council · decisive vote · ");
    note.append(housing_name);
    CouncilContribution {
        kind: ContributionKind::Labor,
        minutes: 30,
        essential: false,
        coverage: false,
        week_index: at_unix / SECONDS_PER_WEEK,
        note,
        at_unix,
    }
}

/// The node that casts a council vote: the caller's own node, or a bad
/// request when the caller has none.
pub fn council_reviewer<T>(owned_node: Option<T>) -> (r: Result<T, AccessError>)
    ensures
        owned_node matches Some(n) ==> r == Ok::<T, AccessError>(n),
        owned_node is None ==> (r matches Err(AccessError::BadRequest(m)) && m@
            == "User has no associated node"@),
{
    match owned_node {
        Some(n) => Ok(n),
        None => Err(AccessError::BadRequest(String::from_str("User has no associated node"))),
    }
}

/// The contribution a counted council vote mints: one when the vote activated
/// the housing node (named `activated`), none otherwise.
pub fn activation_contribution(activated: Option<&str>, at_unix: i64) -> (r: Option<
    CouncilContribution,
>)
    ensures
        activated is None ==> r is None,
        activated matches Some(name) ==> (r matches Some(c) && c.kind == ContributionKind::Labor
            && c.minutes == 30 && !c.essential && !c.coverage && c.week_index
            == crate::demiurge::div_toward_zero(at_unix as int, SECONDS_PER_WEEK as int) && c.note@
            == "housing council · decisive vote · "@ + name@ && c.at_unix == at_unix),
{
    match activated {
        Some(name) => Some(decisive_vote_contribution(at_unix, name)),
        None => None,
    }
}

/// What a housing node's backing node is commissioned with.
#[derive(Debug)]
pub struct BackingNode {
    pub class: String,
    pub label: String,
    pub lifecycle_phase: Option<String>,
    pub capabilities: Option<String>,
    pub public_key: Option<String>,
    pub owner_user_id: Option<i32>,
    pub source: Option<String>,
    pub external_ref: Option<String>,
}

/// A housing node is backed by a node of class `housing`, labelled with the
/// housing node's name, in phase `active`, sourced from `housing_manager`,
/// with the given external reference; it has no capabilities, key or owner.
pub fn backing_node(name: &str, node_ref: String) -> (r: BackingNode)
    ensures
        r.class@ == "housing"@,
        r.label@ == name@,
        r.lifecycle_phase matches Some(p) && p@ == "active"@,
        r.capabilities is None && r.public_key is None && r.owner_user_id is None,
        r.source matches Some(src) && src@ == "housing_manager"@,
        r.external_ref == Some(node_ref),
{
    BackingNode {
        class: String::from_str("housing"),
        label: String::from_str(name),
        lifecycle_phase: Some(String::from_str("active")),
        capabilities: None,
        public_key: None,
        owner_user_id: None,
        source: Some(String::from_str("housing_manager")),
        external_ref: Some(node_ref),
    }
}

} // verus!
