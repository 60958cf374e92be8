//! Authorization decisions: permission patterns, effective permissions, the
//! permission funnel, and system-token screening.
//!
//! Patterns support `"*"` (everything) and a trailing `*` (any name that starts
//! with the pattern's text before its trailing stars). The stores that hold
//! roles, plans and issued tokens are read by the caller; the decisions over
//! what was read are made here.

use vstd::prelude::*;

use crate::order::{insert_sorted, strictly_sorted, texts};
use crate::text;

verus! {

/// Errors an authorization decision can produce.
#[derive(Debug)]
pub enum AccessError {
    /// The caller is not allowed; the message says why.
    Unauthorized(String),
    /// The request itself is malformed; the message says how.
    BadRequest(String),
    /// A named record does not exist.
    NotFound,
    /// Processing failed inside the service; the message is the cause.
    Internal(String),
}

/// Whether `pattern` grants `wanted`.
pub open spec fn grants(pattern: Seq<char>, wanted: Seq<char>) -> bool {
    ||| pattern == "*"@
    ||| pattern == wanted
    ||| pattern.len() > 0 && pattern.last() == '*' && text::trim_end_char(pattern, '*').is_prefix_of(
        wanted,
    )
}

/// Whether some pattern in `granted` grants `wanted`.
pub open spec fn any_grants(granted: Seq<Seq<char>>, wanted: Seq<char>) -> bool {
    exists|i: int| 0 <= i < granted.len() && grants(#[trigger] granted[i], wanted)
}

proof fn lemma_trim_end_char_step(s: Seq<char>, j: int, c: char)
    requires
        0 < j <= s.len(),
        s[j - 1] == c,
    ensures
        text::trim_end_char(s.subrange(0, j), c) == text::trim_end_char(s.subrange(0, j - 1), c),
{
    assert(s.subrange(0, j).drop_last() =~= s.subrange(0, j - 1));
}

/// `s` without any trailing occurrences of `c`.
pub fn trim_end_matches_char(s: &str, c: char) -> (r: &str)
    ensures
        r@ == text::trim_end_char(s@, c),
{
    let n = s.unicode_len();
    let mut end: usize = n;
    assert(s@.subrange(0, n as int) =~= s@);
    while end > 0 && s.get_char(end - 1) == c
        invariant
            n == s@.len(),
            end <= n,
            text::trim_end_char(s@, c) == text::trim_end_char(s@.subrange(0, end as int), c),
        decreases end,
    {
        proof {
            lemma_trim_end_char_step(s@, end as int, c);
        }
        end = end - 1;
    }
    s.substring_char(0, end)
}

/// Whether `prefix` is a prefix of `s`.
pub fn starts_with_text(s: &str, prefix: &str) -> (r: bool)
    ensures
        r == prefix@.is_prefix_of(s@),
{
    let x = text::chars_of(s);
    let p = text::chars_of(prefix);
    if p.len() > x.len() {
        return false;
    }
    let mut i: usize = 0;
    while i < p.len()
        invariant
            x@ == s@,
            p@ == prefix@,
            p.len() <= x.len(),
            i <= p.len(),
            forall|j: int| 0 <= j < i ==> x@[j] == p@[j],
        decreases p.len() - i,
    {
        if x[i] != p[i] {
            assert(s@.subrange(0, prefix@.len() as int)[i as int] != prefix@[i as int]);
            return false;
        }
        i = i + 1;
    }
    assert(prefix@ =~= s@.subrange(0, prefix@.len() as int));
    true
}

/// Whether `pattern` grants `wanted`.
pub fn pattern_grants(pattern: &str, wanted: &str) -> (r: bool)
    ensures
        r == grants(pattern@, wanted@),
{
    if text::same_text(pattern, "*") || text::same_text(pattern, wanted) {
        return true;
    }
    if text::ends_with_char(pattern, '*') {
        let stem = trim_end_matches_char(pattern, '*');
        starts_with_text(wanted, stem)
    } else {
        false
    }
}

/// Whether any pattern in `granted` grants `permission`.
pub fn matches_any(granted: &[String], permission: &str) -> (r: bool)
    ensures
        r == any_grants(texts(granted@), permission@),
{
    let mut i: usize = 0;
    while i < granted.len()
        invariant
            i <= granted@.len(),
            forall|j: int| 0 <= j < i ==> !grants(#[trigger] texts(granted@)[j], permission@),
        decreases granted@.len() - i,
    {
        if pattern_grants(granted[i].as_str(), permission) {
            assert(grants(texts(granted@)[i as int], permission@));
            return true;
        }
        i = i + 1;
    }
    false
}

/// Whether a user holding the effective permission patterns `effective` has
/// `permission`.
pub fn check_permission(effective: &[String], permission: &str) -> (r: bool)
    ensures
        r == any_grants(texts(effective@), permission@),
{
    matches_any(effective, permission)
}

/// `first` followed by `middle` followed by `last`.
pub fn join3(first: &str, middle: &str, last: &str) -> (r: String)
    ensures
        r@ == first@ + middle@ + last@,
{
    let mut out = String::from_str(first);
    out.append(middle);
    out.append(last);
    out
}

/// Require `permission`, or fail with an `Unauthorized` error naming it.
pub fn require_permission(effective: &[String], permission: &str) -> (r: Result<(), AccessError>)
    ensures
        r is Ok <==> any_grants(texts(effective@), permission@),
        r matches Err(AccessError::Unauthorized(m)) ==> m@ == "Permission denied: requires '"@
            + permission@ + "'"@,
        r matches Err(e) ==> e is Unauthorized,
{
    if check_permission(effective, permission) {
        Ok(())
    } else {
        Err(AccessError::Unauthorized(join3("Permission denied: requires '", permission, "'")))
    }
}

/// What parsing a text as a JSON array of strings gives, if it is one.
pub uninterp spec fn json_string_array(doc: Seq<char>) -> Option<Seq<Seq<char>>>;

/// An optional list of strings taken as characters.
pub open spec fn strings_view(r: Option<Vec<String>>) -> Option<Seq<Seq<char>>> {
    match r {
        Some(v) => Some(texts(v@)),
        None => None,
    }
}

/// Parses `doc` with `serde_json::from_str::<Vec<String>>`. The contract
/// claims only that the outcome is a function of the text: `None` exactly
/// when the parse fails, otherwise the strings it produced.
#[verifier::external_body]
pub(crate) fn parse_string_array(doc: &str) -> (r: Option<Vec<String>>)
    ensures
        json_string_array(doc@) == strings_view(r),
{
    serde_json::from_str::<Vec<String>>(doc).ok()
}

/// The permissions a stored role document grants: its JSON string array, or
/// none when the document does not parse as one.
pub open spec fn role_grants(doc: Seq<char>) -> Seq<Seq<char>> {
    match json_string_array(doc) {
        Some(v) => v,
        None => Seq::empty(),
    }
}

/// Every permission named by the role documents or by the plan.
pub open spec fn granted_set(role_docs: Seq<Seq<char>>, plan: Seq<Seq<char>>) -> Set<Seq<char>> {
    Set::new(
        |p: Seq<char>|
            (exists|i: int| 0 <= i < role_docs.len() && role_grants(role_docs[i]).contains(p))
                || plan.contains(p),
    )
}

/// The permission patterns a user effectively holds: the union of what each
/// assigned role's permission document grants and what the user's plan
/// grants, sorted and free of duplicates.
pub fn get_effective_permissions(role_permission_docs: &[String], plan_permissions: &[String]) -> (r:
    Vec<String>)
    ensures
        strictly_sorted(texts(r@)),
        texts(r@).to_set() == granted_set(texts(role_permission_docs@), texts(plan_permissions@)),
        forall|i: int, p: Seq<char>|
            #![trigger texts(role_permission_docs@)[i], texts(r@).contains(p)]
            0 <= i < role_permission_docs@.len() && json_string_array(
                texts(role_permission_docs@)[i],
            ) is Some && json_string_array(texts(role_permission_docs@)[i])->Some_0.contains(p)
                ==> texts(r@).contains(p),
        forall|p: Seq<char>| #[trigger]
            texts(plan_permissions@).contains(p) ==> texts(r@).contains(p),
{
    let ghost docs = texts(role_permission_docs@);
    let ghost plan = texts(plan_permissions@);
    let mut out: Vec<String> = Vec::new();
    assert(texts(out@).to_set() =~= Set::<Seq<char>>::empty());
    let mut i: usize = 0;
    while i < role_permission_docs.len()
        invariant
            i <= role_permission_docs@.len(),
            docs == texts(role_permission_docs@),
            strictly_sorted(texts(out@)),
            texts(out@).to_set() == Set::new(
                |p: Seq<char>|
                    exists|k: int| 0 <= k < i && role_grants(docs[k]).contains(p),
            ),
        decreases role_permission_docs@.len() - i,
    {
        let ghost before = texts(out@).to_set();
        let parsed = parse_string_array(role_permission_docs[i].as_str());
        assert(docs[i as int] == role_permission_docs@[i as int]@);
        if let Some(perms) = parsed {
            let ghost g = texts(perms@);
            assert(role_grants(docs[i as int]) == g);
            let mut j: usize = 0;
            while j < perms.len()
                invariant
                    j <= perms@.len(),
                    g == texts(perms@),
                    strictly_sorted(texts(out@)),
                    texts(out@).to_set() == before.union(g.subrange(0, j as int).to_set()),
                decreases perms@.len() - j,
            {
                insert_sorted(&mut out, perms[j].clone());
                assert(g.subrange(0, j + 1) =~= g.subrange(0, j as int).push(g[j as int]));
                proof {
                    g.subrange(0, j as int).lemma_push_to_set_commute(g[j as int]);
                }
                assert(texts(out@).to_set() =~= before.union(g.subrange(0, j + 1).to_set()));
                j = j + 1;
            }
            assert(g.subrange(0, perms@.len() as int) =~= g);
            assert forall|p: Seq<char>| g.contains(p) <==> g.to_set().contains(p) by {}
        } else {
            assert(role_grants(docs[i as int]) =~= Seq::<Seq<char>>::empty());
        }
        assert(texts(out@).to_set() =~= Set::new(
            |p: Seq<char>| exists|k: int| 0 <= k < i + 1 && role_grants(docs[k]).contains(p),
        )) by {
            assert forall|p: Seq<char>|
                (exists|k: int| 0 <= k < i + 1 && role_grants(docs[k]).contains(p)) implies (
            #[trigger] texts(out@).to_set().contains(p)) by {
                let k = choose|k: int| 0 <= k < i + 1 && role_grants(docs[k]).contains(p);
                if k < i {
                    assert(before.contains(p));
                }
            }
        }
        i = i + 1;
    }
    let ghost from_roles = texts(out@).to_set();
    let mut j: usize = 0;
    while j < plan_permissions.len()
        invariant
            j <= plan_permissions@.len(),
            plan == texts(plan_permissions@),
            strictly_sorted(texts(out@)),
            texts(out@).to_set() == from_roles.union(plan.subrange(0, j as int).to_set()),
        decreases plan_permissions@.len() - j,
    {
        insert_sorted(&mut out, plan_permissions[j].clone());
        assert(plan.subrange(0, j + 1) =~= plan.subrange(0, j as int).push(plan[j as int]));
        proof {
            plan.subrange(0, j as int).lemma_push_to_set_commute(plan[j as int]);
        }
        assert(texts(out@).to_set() =~= from_roles.union(plan.subrange(0, j + 1).to_set()));
        j = j + 1;
    }
    assert(plan.subrange(0, plan_permissions@.len() as int) =~= plan);
    assert(texts(out@).to_set() =~= granted_set(docs, plan)) by {
        assert forall|p: Seq<char>| plan.contains(p) <==> plan.to_set().contains(p) by {}
    }
    assert forall|i: int, p: Seq<char>|
        #![trigger docs[i], texts(out@).contains(p)]
        0 <= i < docs.len() && json_string_array(docs[i]) is Some && json_string_array(
            docs[i],
        )->Some_0.contains(p) implies texts(out@).contains(p) by {
        law_effective_is_union_of_all_roles(docs, plan, p);
        assert(granted_set(docs, plan).contains(p));
        assert(texts(out@).to_set().contains(p));
    }
    assert forall|p: Seq<char>| #[trigger] plan.contains(p) implies texts(out@).contains(p) by {
        law_effective_is_union_of_all_roles(docs, plan, p);
        assert(texts(out@).to_set().contains(p));
    }
    out
}

/// The validated identity of a calling service.
#[derive(Debug, Clone)]
pub struct SystemContext {
    pub service: String,
    pub scopes: Vec<String>,
}

/// The identity of the holder of the root token: service `root`, scope `*`.
pub open spec fn is_root_context(c: SystemContext) -> bool {
    c.service@ == "root"@ && texts(c.scopes@) == seq!["*"@]
}

impl SystemContext {
    /// Whether this service may perform `scope`: `"*"` grants all, an equal
    /// scope grants it, and a stored `prefix*` grants any scope under the
    /// prefix.
    pub fn has_scope(&self, scope: &str) -> (r: bool)
        ensures
            r == any_grants(texts(self.scopes@), scope@),
    {
        matches_any(self.scopes.as_slice(), scope)
    }
}

/// The context granted to the holder of the root token.
pub fn root_context() -> (c: SystemContext)
    ensures
        is_root_context(c),
{
    let mut scopes: Vec<String> = Vec::new();
    scopes.push(String::from_str("*"));
    assert(texts(scopes@) =~= seq!["*"@]);
    SystemContext { service: String::from_str("root"), scopes }
}

/// Compares two strings byte by byte, taking time that depends only on
/// their lengths; true exactly when they are equal.
pub fn constant_time_eq(a: &str, b: &str) -> (r: bool)
    ensures
        r == (a@ == b@),
{
    let x = a.as_bytes();
    let y = b.as_bytes();
    proof {
        vstd::utf8::encode_utf8_decode_utf8(a@);
        vstd::utf8::encode_utf8_decode_utf8(b@);
    }
    if x.len() != y.len() {
        return false;
    }
    let mut diff: u8 = 0;
    let mut i: usize = 0;
    while i < x.len()
        invariant
            x@ == vstd::utf8::encode_utf8(a@),
            y@ == vstd::utf8::encode_utf8(b@),
            x@.len() == y@.len(),
            i <= x@.len(),
            (diff == 0) == (forall|j: int| 0 <= j < i ==> x@[j] == y@[j]),
        decreases x@.len() - i,
    {
        let p = x[i];
        let q = y[i];
        let d = p ^ q;
        assert((d == 0) == (p == q)) by (bit_vector)
            requires
                d == p ^ q,
        ;
        assert(((diff | d) == 0) == (diff == 0 && d == 0)) by (bit_vector);
        diff = diff | d;
        i = i + 1;
    }
    if diff == 0 {
        assert(x@ =~= y@);
        true
    } else {
        false
    }
}

/// The token carried by a header value, if any: the value with surrounding
/// white space removed, when that leaves something.
pub open spec fn presented(value: Option<Seq<char>>) -> Option<Seq<char>> {
    match value {
        Some(v) => if text::trimmed(v).len() > 0 {
            Some(text::trimmed(v))
        } else {
            None
        },
        None => None,
    }
}

/// The view of an optional string.
pub open spec fn opt_view(value: Option<&str>) -> Option<Seq<char>> {
    match value {
        Some(v) => Some(v@),
        None => None,
    }
}

/// The token carried by a header value: trimmed, and absent when empty.
pub fn presented_token<'a>(value: Option<&'a str>) -> (r: Option<&'a str>)
    ensures
        opt_view(r) == presented(opt_view(value)),
{
    match value {
        Some(v) => {
            let t = text::trim(v);
            if t.unicode_len() > 0 {
                Some(t)
            } else {
                None
            }
        },
        None => None,
    }
}

/// What follows the `Bearer ` (or `bearer `) scheme in an authorization
/// header value.
pub open spec fn bearer_payload(v: Seq<char>) -> Option<Seq<char>> {
    if "Bearer "@.is_prefix_of(v) {
        Some(v.skip("Bearer "@.len() as int))
    } else if "bearer "@.is_prefix_of(v) {
        Some(v.skip("bearer "@.len() as int))
    } else {
        None
    }
}

/// The bearer token carried by an authorization header value: the payload
/// after the scheme, trimmed, and absent when empty.
pub fn bearer_token<'a>(value: Option<&'a str>) -> (r: Option<&'a str>)
    ensures
        opt_view(r) == bearer_of(opt_view(value)),
{
    match value {
        Some(v) => {
            let n = v.unicode_len();
            let payload = if starts_with_text(v, "Bearer ") {
                let k = "Bearer ".unicode_len();
                assert(v@.subrange(k as int, n as int) =~= v@.skip("Bearer "@.len() as int));
                v.substring_char(k, n)
            } else if starts_with_text(v, "bearer ") {
                let k = "bearer ".unicode_len();
                assert(v@.subrange(k as int, n as int) =~= v@.skip("bearer "@.len() as int));
                v.substring_char(k, n)
            } else {
                return None;
            };
            presented_token(Some(payload))
        },
        None => None,
    }
}

/// The outcome of screening a presented system token.
pub enum TokenScreen<'a> {
    /// Refused outright.
    Rejected(AccessError),
    /// The root token: the caller is the root service.
    Root(SystemContext),
    /// Not the root token: look up this (trimmed) token among issued ones.
    Lookup(&'a str),
}

/// `r` is the screening outcome for the presented token `tok`: refusal with
/// `missing` when there is none, the root context for the root token, and a
/// lookup of the token otherwise.
pub open spec fn screens_as<'a>(
    tok: Option<Seq<char>>,
    root: Seq<char>,
    missing: Seq<char>,
    r: TokenScreen<'a>,
) -> bool {
    match tok {
        None => r matches TokenScreen::Rejected(AccessError::Unauthorized(m)) && m@ == missing,
        Some(t) => if t == root {
            r matches TokenScreen::Root(c) && is_root_context(c)
        } else {
            r matches TokenScreen::Lookup(x) && x@ == t
        },
    }
}

/// The bearer token an optional authorization header value carries.
pub open spec fn bearer_of(value: Option<Seq<char>>) -> Option<Seq<char>> {
    match value {
        Some(v) => presented(bearer_payload(v)),
        None => None,
    }
}

/// Screen a token already stripped of white space: the root token yields
/// the root context, anything else must be looked up.
fn screen_presented<'a>(token: &'a str, root: &str) -> (r: TokenScreen<'a>)
    ensures
        token@ == root@ ==> (r matches TokenScreen::Root(c) && is_root_context(c)),
        token@ != root@ ==> (r matches TokenScreen::Lookup(t) && t@ == token@),
{
    if constant_time_eq(token, root) {
        TokenScreen::Root(root_context())
    } else {
        TokenScreen::Lookup(token)
    }
}

/// Screen a raw token: with surrounding white space removed it must be
/// non-empty; the root token yields the root context, and any other token is
/// to be looked up.
pub fn validate_token<'a>(token: &'a str, root: &str) -> (r: TokenScreen<'a>)
    ensures
        screens_as(presented(Some(token@)), root@, "empty token"@, r),
{
    let t = text::trim(token);
    if t.unicode_len() == 0 {
        return TokenScreen::Rejected(AccessError::Unauthorized(String::from_str("empty token")));
    }
    screen_presented(t, root)
}

/// Screen the value of the system-token header: a missing or blank value is
/// refused; otherwise the trimmed token is screened against the root token.
pub fn authenticate<'a>(header_value: Option<&'a str>, root: &str) -> (r: TokenScreen<'a>)
    ensures
        screens_as(presented(opt_view(header_value)), root@, "missing system token"@, r),
{
    match presented_token(header_value) {
        Some(t) => screen_presented(t, root),
        None => TokenScreen::Rejected(
            AccessError::Unauthorized(String::from_str("missing system token")),
        ),
    }
}

/// Screen the value of the authorization header: it must carry a non-blank
/// bearer token, which is then screened as [`validate_token`] does.
pub fn authenticate_bearer<'a>(header_value: Option<&'a str>, root: &str) -> (r: TokenScreen<'a>)
    ensures
        screens_as(bearer_of(opt_view(header_value)), root@, "missing bearer token"@, r),
{
    match bearer_token(header_value) {
        Some(t) => {
            proof {
                let p = bearer_payload(opt_view(header_value).unwrap()).unwrap();
                lemma_trimmed_of_trimmed(p);
                assert(t@ == text::trimmed(p));
                assert(presented(Some(t@)) == Some(t@));
            }
            validate_token(t, root)
        },
        None => TokenScreen::Rejected(
            AccessError::Unauthorized(String::from_str("missing bearer token")),
        ),
    }
}

proof fn lemma_trim_start_fixed(s: Seq<char>)
    requires
        s.len() == 0 || !text::is_white_space(s[0]),
    ensures
        text::trim_start(s) == s,
{
}

proof fn lemma_trim_end_fixed(s: Seq<char>)
    requires
        s.len() == 0 || !text::is_white_space(s.last()),
    ensures
        text::trim_end(s) == s,
{
}

proof fn lemma_trim_start_ends(s: Seq<char>)
    ensures
        text::trim_start(s).len() == 0 || !text::is_white_space(text::trim_start(s)[0]),
        text::trim_start(s).len() > 0 ==> text::trim_start(s).last() == s.last(),
    decreases s.len(),
{
    if s.len() > 0 && text::is_white_space(s[0]) {
        lemma_trim_start_ends(s.drop_first());
    }
}

proof fn lemma_trim_end_ends(s: Seq<char>)
    ensures
        text::trim_end(s).len() == 0 || !text::is_white_space(text::trim_end(s).last()),
        text::trim_end(s).len() > 0 ==> text::trim_end(s)[0] == s[0],
        text::trim_end(s).len() <= s.len(),
    decreases s.len(),
{
    if s.len() > 0 && text::is_white_space(s.last()) {
        lemma_trim_end_ends(s.drop_last());
    }
}

/// Trimming is idempotent.
pub proof fn lemma_trimmed_of_trimmed(s: Seq<char>)
    ensures
        text::trimmed(text::trimmed(s)) == text::trimmed(s),
{
    let a = text::trim_start(s);
    let t = text::trim_end(a);
    lemma_trim_start_ends(s);
    lemma_trim_end_ends(a);
    lemma_trim_start_fixed(t);
    lemma_trim_end_fixed(t);
}

/// The outcome of looking a screened token up among issued tokens: the
/// stored context when one was found, otherwise `invalid system token`.
pub fn conclude_lookup(found: Option<SystemContext>) -> (r: Result<SystemContext, AccessError>)
    ensures
        found matches Some(c) ==> (r matches Ok(d) && d == c),
        found is None ==> (r matches Err(AccessError::Unauthorized(m)) && m@
            == "invalid system token"@),
{
    match found {
        Some(c) => Ok(c),
        None => Err(AccessError::Unauthorized(String::from_str("invalid system token"))),
    }
}

/// Require `scope` of an authenticated service.
pub fn require(svc: SystemContext, scope: &str) -> (r: Result<SystemContext, AccessError>)
    ensures
        any_grants(texts(svc.scopes@), scope@) ==> (r matches Ok(c) && c == svc),
        !any_grants(texts(svc.scopes@), scope@) ==> (r matches Err(AccessError::Unauthorized(m))
            && m@ == "system token for '"@ + svc.service@ + "' lacks scope '"@ + scope@ + "'"@),
{
    if svc.has_scope(scope) {
        Ok(svc)
    } else {
        let mut m = join3("system token for '", svc.service.as_str(), "' lacks scope '");
        m.append(scope);
        m.append("'");
        Err(AccessError::Unauthorized(m))
    }
}

/// The `*` pattern grants every permission, and every permission grants
/// itself.
pub proof fn law_wildcard_and_exact(granted: Seq<Seq<char>>, wanted: Seq<char>)
    ensures
        granted.contains("*"@) ==> any_grants(granted, wanted),
        granted.contains(wanted) ==> any_grants(granted, wanted),
{
    if granted.contains("*"@) {
        let i = choose|i: int| 0 <= i < granted.len() && granted[i] == "*"@;
        assert(grants(granted[i], wanted));
    }
    if granted.contains(wanted) {
        let i = choose|i: int| 0 <= i < granted.len() && granted[i] == wanted;
        assert(grants(granted[i], wanted));
    }
}

/// A pattern ending in `*` grants every permission that starts with the
/// pattern's text before its trailing stars.
pub proof fn law_prefix_pattern(stem: Seq<char>, rest: Seq<char>, stars: nat)
    requires
        stars > 0,
        stem.len() == 0 || stem.last() != '*',
    ensures
        grants(stem + Seq::new(stars, |i: int| '*'), stem + rest),
{
    let p = stem + Seq::new(stars, |i: int| '*');
    lemma_trim_stars(stem, stars);
    assert(p.last() == '*');
    assert(stem.is_prefix_of(stem + rest)) by {
        assert((stem + rest).subrange(0, stem.len() as int) =~= stem);
    }
}

proof fn lemma_trim_stars(stem: Seq<char>, stars: nat)
    requires
        stem.len() == 0 || stem.last() != '*',
    ensures
        text::trim_end_char(stem + Seq::new(stars, |i: int| '*'), '*') == stem,
    decreases stars,
{
    let p = stem + Seq::new(stars, |i: int| '*');
    if stars == 0 {
        assert(p =~= stem);
    } else {
        assert(p.drop_last() =~= stem + Seq::new((stars - 1) as nat, |i: int| '*'));
        lemma_trim_stars(stem, (stars - 1) as nat);
    }
}

/// Granting more patterns never revokes a permission.
pub proof fn law_grants_monotone(granted: Seq<Seq<char>>, extra: Seq<char>, wanted: Seq<char>)
    ensures
        any_grants(granted, wanted) ==> any_grants(granted.push(extra), wanted),
{
    if any_grants(granted, wanted) {
        let i = choose|i: int| 0 <= i < granted.len() && grants(granted[i], wanted);
        assert(granted.push(extra)[i] == granted[i]);
    }
}

/// A user holds a permission exactly when some pattern granted by one of the
/// user's roles or by the user's plan grants it.
pub proof fn law_role_or_plan_grants(
    effective: Seq<Seq<char>>,
    role_docs: Seq<Seq<char>>,
    plan: Seq<Seq<char>>,
    wanted: Seq<char>,
)
    requires
        effective.to_set() == granted_set(role_docs, plan),
    ensures
        any_grants(effective, wanted) <==> exists|p: Seq<char>|
            #[trigger] granted_set(role_docs, plan).contains(p) && grants(p, wanted),
{
    if any_grants(effective, wanted) {
        let i = choose|i: int| 0 <= i < effective.len() && grants(effective[i], wanted);
        assert(effective.to_set().contains(effective[i]));
    }
    if exists|p: Seq<char>| #[trigger] granted_set(role_docs, plan).contains(p) && grants(p, wanted) {
        let p = choose|p: Seq<char>| #[trigger] granted_set(role_docs, plan).contains(p) && grants(
            p,
            wanted,
        );
        assert(effective.to_set().contains(p));
        let i = choose|i: int| 0 <= i < effective.len() && effective[i] == p;
        assert(grants(effective[i], wanted));
    }
}

/// The root token's context holds every scope.
pub proof fn law_root_holds_every_scope(c: SystemContext, scope: Seq<char>)
    requires
        is_root_context(c),
    ensures
        any_grants(texts(c.scopes@), scope),
{
    assert(grants(texts(c.scopes@)[0], scope));
}

/// Header carrying a service's system token.
pub const HEADER: &'static str = "x-nexus-system-token";

/// Environment variable holding the root system token.
pub const ENV_ROOT_TOKEN: &'static str = "NEXUS_SYSTEM_TOKEN";

/// Development fallback root token.
pub const DEV_ROOT_TOKEN: &'static str = "dev-nexus-system-token";

/// The root token: the configured one, or the development fallback.
pub fn root_token(configured: Option<String>) -> (r: String)
    ensures
        configured matches Some(t) ==> r == t,
        configured is None ==> r@ == DEV_ROOT_TOKEN@,
{
    match configured {
        Some(t) => t,
        None => String::from_str(DEV_ROOT_TOKEN),
    }
}

/// The header and bearer entry points resolve a token the same way: the
/// authorization value `Bearer <t>` carries exactly the token that the value
/// `<t>` carries in the system-token header.
pub proof fn law_bearer_and_header_agree(t: Seq<char>)
    ensures
        bearer_of(Some("Bearer "@ + t)) == presented(Some(t)),
{
    let v = "Bearer "@ + t;
    assert("Bearer "@.is_prefix_of(v)) by {
        assert(v.subrange(0, "Bearer "@.len() as int) =~= "Bearer "@);
    }
    assert(v.skip("Bearer "@.len() as int) =~= t);
}

/// Patterns grant only in the three documented ways: `*` grants everything,
/// a pattern grants the identical name, and a pattern ending in `*` grants
/// the names starting with its text before the stars. In particular a pattern
/// without any `*` grants exactly itself.
pub proof fn law_patterns_grant_only_documented_forms(pattern: Seq<char>, wanted: Seq<char>)
    ensures
        grants(pattern, wanted) ==> (pattern == seq!['*'] || pattern == wanted || (pattern.len()
            > 0 && pattern.last() == '*' && text::trim_end_char(pattern, '*').is_prefix_of(
            wanted,
        ))),
        !pattern.contains('*') ==> (grants(pattern, wanted) <==> pattern == wanted),
{
    reveal_strlit("*");
    assert("*"@ =~= seq!['*']);
    if !pattern.contains('*') {
        if pattern == seq!['*'] {
            assert(pattern[0] == '*');
        }
        if pattern.len() > 0 {
            assert(pattern[pattern.len() - 1] == pattern.last());
        }
    }
}

/// Every permission granted by any one of the user's roles, and every
/// permission of the plan, is held; and nothing else is.
pub proof fn law_effective_is_union_of_all_roles(
    role_docs: Seq<Seq<char>>,
    plan: Seq<Seq<char>>,
    p: Seq<char>,
)
    ensures
        (exists|i: int|
            0 <= i < role_docs.len() && (#[trigger] json_string_array(role_docs[i])) is Some && json_string_array(role_docs[i])->Some_0.contains(p)) ==> granted_set(role_docs, plan).contains(p),
        plan.contains(p) ==> granted_set(role_docs, plan).contains(p),
        granted_set(role_docs, plan).contains(p) ==> (plan.contains(p) || exists|i: int|
            0 <= i < role_docs.len() && (#[trigger] json_string_array(role_docs[i])) is Some && json_string_array(role_docs[i])->Some_0.contains(p)),
{
    if exists|i: int|
        0 <= i < role_docs.len() && (#[trigger] json_string_array(role_docs[i])) is Some
            && json_string_array(role_docs[i])->Some_0.contains(p) {
        let i = choose|i: int|
            0 <= i < role_docs.len() && (#[trigger] json_string_array(role_docs[i])) is Some && json_string_array(role_docs[i])->Some_0.contains(p);
        assert(role_grants(role_docs[i]).contains(p));
    }
    if granted_set(role_docs, plan).contains(p) && !plan.contains(p) {
        let i = choose|i: int| 0 <= i < role_docs.len() && role_grants(role_docs[i]).contains(p);
        assert(json_string_array(role_docs[i]) is Some);
    }
}

} // verus!
