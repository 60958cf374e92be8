//! The permission funnel: tiered authorization of an operation.
//!
//! Tier 1 (global deny list) and tier 3 (resource policy) admit every request;
//! tier 2 is the permission check and tier 4 demands step-up authentication
//! for destructive operations.

use vstd::prelude::*;

use crate::access::{any_grants, check_permission, join3, AccessError};
use crate::order::texts;
use crate::text;

verus! {

/// The result of evaluating the permission funnel.
#[derive(Debug)]
pub struct FunnelResult {
    pub allowed: bool,
    pub denied_at_tier: Option<u8>,
    pub reason: Option<String>,
}

/// The intent of an operation, as the funnel sees it.
#[derive(Debug)]
pub struct OperationIntent {
    /// The permission required (e.g. `tasks:create`).
    pub permission: String,
    /// Whether the operation is destructive.
    pub is_destructive: bool,
    /// Optional resource identifier for resource-level checks.
    pub resource_id: Option<String>,
}

/// What `str::to_lowercase` gives for a text (full Unicode lower-casing).
pub uninterp spec fn lowercase_of(s: Seq<char>) -> Seq<char>;

/// Calls `str::to_lowercase`. Claims only that the result is a function of
/// the text's characters.
#[verifier::external_body]
fn to_lowercase(s: &str) -> (r: String)
    ensures
        r@ == lowercase_of(s@),
{
    s.to_lowercase()
}

/// The action words that mark an operation as destructive.
pub open spec fn destructive_actions() -> Seq<Seq<char>> {
    seq![
        "delete"@,
        "remove"@,
        "destroy"@,
        "format"@,
        "partition"@,
        "wipe"@,
        "cancel"@,
    ]
}

/// Whether the (already lower-cased) text mentions a destructive action.
pub open spec fn names_destructive_action(lowered: Seq<char>) -> bool {
    exists|i: int| 0 <= i < destructive_actions().len() && text::occurs_in(
        #[trigger] destructive_actions()[i],
        lowered,
    )
}

/// Whether a lower-cased permission mentions one of the destructive action
/// words anywhere in it.
pub fn mentions_destructive_action(lowered: &str) -> (r: bool)
    ensures
        r == names_destructive_action(lowered@),
{
    let hay = text::chars_of(lowered);
    let words = ["delete", "remove", "destroy", "format", "partition", "wipe", "cancel"];
    assert(words@.map_values(|w: &str| w@) =~= destructive_actions());
    let mut i: usize = 0;
    while i < 7
        invariant
            hay@ == lowered@,
            i <= 7,
            words@.map_values(|w: &str| w@) == destructive_actions(),
            forall|k: int| 0 <= k < i ==> !text::occurs_in(#[trigger] destructive_actions()[k], lowered@),
        decreases 7 - i,
    {
        let w = text::chars_of(words[i]);
        assert(w@ == destructive_actions()[i as int]);
        if text::contains_text(hay.as_slice(), w.as_slice()) {
            return true;
        }
        i = i + 1;
    }
    false
}

impl OperationIntent {
    /// The intent to exercise `permission`; it is destructive when its
    /// lower-cased form mentions a destructive action word.
    pub fn new(permission: &str) -> (r: Self)
        ensures
            r.permission@ == permission@,
            r.is_destructive == names_destructive_action(lowercase_of(permission@)),
            r.resource_id is None,
    {
        let is_destructive = Self::detect_destructive(permission);
        OperationIntent { permission: String::from_str(permission), is_destructive, resource_id: None }
    }

    /// The same intent, aimed at the resource `resource_id`.
    pub fn with_resource(self, resource_id: &str) -> (r: Self)
        ensures
            r.permission == self.permission,
            r.is_destructive == self.is_destructive,
            r.resource_id matches Some(id) && id@ == resource_id@,
    {
        let mut s = self;
        s.resource_id = Some(String::from_str(resource_id));
        s
    }

    /// Whether the permission names a destructive action, after lower-casing.
    pub fn detect_destructive(permission: &str) -> (r: bool)
        ensures
            r == names_destructive_action(lowercase_of(permission@)),
    {
        let lowered = to_lowercase(permission);
        mentions_destructive_action(lowered.as_str())
    }
}

/// Evaluate the funnel for `intent`, given the caller's effective permission
/// patterns and any step-up token: tier 2 denies when no pattern grants the
/// permission, tier 4 denies a destructive operation without a step-up token,
/// and otherwise the operation is allowed.
pub fn evaluate(effective: &[String], intent: &OperationIntent, step_up_token: Option<&str>) -> (r:
    FunnelResult)
    ensures
        !any_grants(texts(effective@), intent.permission@) ==> (r.reason matches Some(m) && m@
            == "RBAC: user lacks permission '"@ + intent.permission@ + "'"@ && !r.allowed
            && r.denied_at_tier == Some(2u8)),
        any_grants(texts(effective@), intent.permission@) && intent.is_destructive
            && step_up_token is None ==> (r.reason matches Some(m) && m@
            == "Step-up authentication required for destructive operations"@ && !r.allowed
            && r.denied_at_tier == Some(4u8)),
        any_grants(texts(effective@), intent.permission@) && !(intent.is_destructive
            && step_up_token is None) ==> (r.allowed && r.denied_at_tier is None && r.reason is None),
{
    if !check_permission(effective, intent.permission.as_str()) {
        return FunnelResult {
            allowed: false,
            denied_at_tier: Some(2),
            reason: Some(
                join3("RBAC: user lacks permission '", intent.permission.as_str(), "'"),
            ),
        };
    }
    if intent.is_destructive && step_up_token.is_none() {
        return FunnelResult {
            allowed: false,
            denied_at_tier: Some(4),
            reason: Some(
                String::from_str("Step-up authentication required for destructive operations"),
            ),
        };
    }
    FunnelResult { allowed: true, denied_at_tier: None, reason: None }
}

/// What a funnel result means for the request: allowed requests proceed, and
/// a refused one fails as unauthorized with the funnel's reason (or
/// `Permission denied` when it gave none).
pub fn refusal(result: FunnelResult) -> (r: Result<(), AccessError>)
    ensures
        result.allowed ==> r is Ok,
        !result.allowed ==> (r matches Err(AccessError::Unauthorized(m)) && m@ == match result.reason {
            Some(reason) => reason@,
            None => "Permission denied"@,
        }),
{
    if result.allowed {
        Ok(())
    } else {
        match result.reason {
            Some(reason) => Err(AccessError::Unauthorized(reason)),
            None => Err(AccessError::Unauthorized(String::from_str("Permission denied"))),
        }
    }
}

/// Exactly the seven action words make an operation destructive: delete,
/// remove, destroy, format, partition, wipe and cancel. Any one of them
/// occurring in the lower-cased permission suffices, and nothing else does.
pub proof fn law_destructive_words(lowered: Seq<char>)
    ensures
        text::occurs_in("delete"@, lowered) ==> names_destructive_action(lowered),
        text::occurs_in("remove"@, lowered) ==> names_destructive_action(lowered),
        text::occurs_in("destroy"@, lowered) ==> names_destructive_action(lowered),
        text::occurs_in("format"@, lowered) ==> names_destructive_action(lowered),
        text::occurs_in("partition"@, lowered) ==> names_destructive_action(lowered),
        text::occurs_in("wipe"@, lowered) ==> names_destructive_action(lowered),
        text::occurs_in("cancel"@, lowered) ==> names_destructive_action(lowered),
        names_destructive_action(lowered) ==> (text::occurs_in("delete"@, lowered)
            || text::occurs_in("remove"@, lowered) || text::occurs_in("destroy"@, lowered)
            || text::occurs_in("format"@, lowered) || text::occurs_in("partition"@, lowered)
            || text::occurs_in("wipe"@, lowered) || text::occurs_in("cancel"@, lowered)),
{
    let w = destructive_actions();
    assert(w[0] == "delete"@);
    assert(w[1] == "remove"@);
    assert(w[2] == "destroy"@);
    assert(w[3] == "format"@);
    assert(w[4] == "partition"@);
    assert(w[5] == "wipe"@);
    assert(w[6] == "cancel"@);
}

} // verus!
