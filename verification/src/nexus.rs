//! Projections of the Demiurge control surface: node capabilities, live wallet
//! lots, the floor, node identifiers, and request defaults.

use vstd::prelude::*;

use crate::access::{json_string_array, parse_string_array, AccessError};
use crate::order::texts;
use crate::text;

verus! {

/// The pieces of `s` between occurrences of `sep`, as `str::split` yields
/// them (an empty text is one empty piece).
pub open spec fn split_on(s: Seq<char>, sep: char) -> Seq<Seq<char>>
    decreases s.len(),
{
    if s.len() == 0 {
        seq![Seq::empty()]
    } else {
        let rest = split_on(s.drop_last(), sep);
        if s.last() == sep {
            rest.push(Seq::empty())
        } else {
            rest.update(rest.len() - 1, rest.last().push(s.last()))
        }
    }
}

/// The pieces, each trimmed, keeping only those left non-empty.
pub open spec fn kept_fields(pieces: Seq<Seq<char>>) -> Seq<Seq<char>>
    decreases pieces.len(),
{
    if pieces.len() == 0 {
        Seq::empty()
    } else {
        let rest = kept_fields(pieces.drop_last());
        let t = text::trimmed(pieces.last());
        if t.len() > 0 {
            rest.push(t)
        } else {
            rest
        }
    }
}

/// The capabilities a stored capability text lists: a JSON array of strings,
/// or failing that a comma-separated list (entries trimmed, empty ones
/// dropped).
pub open spec fn capability_list(raw: Option<Seq<char>>) -> Seq<Seq<char>> {
    match raw {
        None => Seq::empty(),
        Some(s) => match json_string_array(s) {
            Some(v) => v,
            None => kept_fields(split_on(s, ',')),
        },
    }
}

proof fn lemma_split_non_empty(s: Seq<char>, sep: char)
    ensures
        split_on(s, sep).len() > 0,
    decreases s.len(),
{
    if s.len() > 0 {
        lemma_split_non_empty(s.drop_last(), sep);
    }
}

/// The comma-separated entries of `s`, trimmed, without empty ones.
fn comma_fields(s: &str) -> (r: Vec<String>)
    ensures
        texts(r@) == kept_fields(split_on(s@, ',')),
{
    let n = s.unicode_len();
    let mut out: Vec<String> = Vec::new();
    let mut start: usize = 0;
    let mut i: usize = 0;
    let ghost mut done: Seq<Seq<char>> = Seq::empty();
    assert(s@.take(0) =~= Seq::<char>::empty());
    assert(s@.subrange(0, 0) =~= Seq::<char>::empty());
    while i < n
        invariant
            n == s@.len(),
            start <= i <= n,
            split_on(s@.take(i as int), ',') == done.push(s@.subrange(start as int, i as int)),
            texts(out@) == kept_fields(done),
        decreases n - i,
    {
        let c = s.get_char(i);
        let ghost pre = s@.take(i as int);
        assert(s@.take(i + 1).drop_last() =~= pre);
        assert(s@.take(i + 1).last() == c);
        if c == ',' {
            let piece = s.substring_char(start, i);
            let t = text::trim(piece);
            let ghost old_done = done;
            let ghost old_out = texts(out@);
            proof {
                done = done.push(s@.subrange(start as int, i as int));
            }
            assert(done.drop_last() =~= old_done);
            if t.unicode_len() > 0 {
                out.push(String::from_str(t));
                assert(texts(out@) =~= old_out.push(t@));
            }
            start = i + 1;
            assert(s@.subrange(start as int, i + 1) =~= Seq::<char>::empty());
        } else {
            assert(s@.subrange(start as int, i + 1) =~= s@.subrange(start as int, i as int).push(
                c,
            ));
        }
        i = i + 1;
    }
    assert(s@.take(n as int) =~= s@);
    let piece = s.substring_char(start, n);
    let t = text::trim(piece);
    let ghost pieces = done.push(s@.subrange(start as int, n as int));
    let ghost old_out = texts(out@);
    assert(pieces.drop_last() =~= done);
    if t.unicode_len() > 0 {
        out.push(String::from_str(t));
        assert(texts(out@) =~= old_out.push(t@));
    }
    out
}

/// The capabilities a stored capability text lists: a JSON array of strings
/// when it parses as one, otherwise its comma-separated entries, trimmed,
/// without empty ones; nothing when there is no text.
pub fn parse_capabilities(raw: &Option<String>) -> (r: Vec<String>)
    ensures
        texts(r@) == capability_list(
            match raw {
                Some(s) => Some(s@),
                None => None,
            },
        ),
{
    match raw {
        None => Vec::new(),
        Some(s) => match parse_string_array(s.as_str()) {
            Some(v) => v,
            None => comma_fields(s.as_str()),
        },
    }
}

/// One live lot of a wallet, as reported.
#[derive(Debug)]
pub struct LotResponse {
    pub amount: i64,
    pub original_amount: i64,
    pub minted_at_unix: i64,
    pub expires_at_unix: i64,
    pub origin: String,
    pub origin_ref: Option<String>,
}

/// Whether a lot still holds Demiurge and has not expired at `now`.
pub open spec fn lot_is_live(lot: LotResponse, now: int) -> bool {
    lot.amount > 0 && now < lot.expires_at_unix
}

/// The live lots among `lots`, in order.
pub open spec fn live_among(lots: Seq<LotResponse>, now: int) -> Seq<LotResponse>
    decreases lots.len(),
{
    if lots.len() == 0 {
        Seq::empty()
    } else {
        let rest = live_among(lots.drop_last(), now);
        if lot_is_live(lots.last(), now) {
            rest.push(lots.last())
        } else {
            rest
        }
    }
}

/// The lots a wallet shows at `now_unix`: those still holding Demiurge and
/// not yet expired, in the order given.
pub fn live_lots(lots: Vec<LotResponse>, now_unix: i64) -> (r: Vec<LotResponse>)
    ensures
        r@ == live_among(lots@, now_unix as int),
        forall|x: LotResponse|
            #[trigger] r@.contains(x) <==> (lots@.contains(x) && x.amount > 0 && now_unix
                < x.expires_at_unix),
{
    proof {
        law_live_lots_are_exactly_the_unexpired(lots@, now_unix as int);
    }
    let ghost all = lots@;
    assert(all.len() == lots.len());
    let mut rest = lots;
    let mut out: Vec<LotResponse> = Vec::new();
    let mut i: usize = 0;
    assert(all.take(0) =~= Seq::<LotResponse>::empty());
    assert(all.skip(0) =~= all);
    while rest.len() > 0
        invariant
            i <= all.len(),
            all.len() <= usize::MAX,
            rest@ == all.skip(i as int),
            out@ == live_among(all.take(i as int), now_unix as int),
        decreases rest@.len(),
    {
        let lot = rest.remove(0);
        assert(all.take(i + 1).drop_last() =~= all.take(i as int));
        assert(all.take(i + 1).last() == lot);
        assert(all.skip(i + 1) =~= all.skip(i as int).subrange(1, all.len() - i));
        if lot.amount > 0 && now_unix < lot.expires_at_unix {
            out.push(lot);
        }
        i = i + 1;
    }
    assert(all.take(i as int) =~= all);
    out
}

/// The floor: guaranteed to everyone alive, never read from a wallet.
#[derive(Debug)]
pub struct FloorResponse {
    pub housing: bool,
    pub power: bool,
    pub food: bool,
    pub water: bool,
    pub healthcare: bool,
    pub education: bool,
}

impl Default for FloorResponse {
    /// Every floor guarantee holds.
    fn default() -> (r: Self)
        ensures
            r.housing && r.power && r.food && r.water && r.healthcare && r.education,
    {
        FloorResponse {
            housing: true,
            power: true,
            food: true,
            water: true,
            healthcare: true,
            education: true,
        }
    }
}

/// The node class used when a commissioning request names none.
pub fn default_human() -> (r: String)
    ensures
        r@ == "human"@,
{
    String::from_str("human")
}

/// The lifecycle phase a commissioned node gets: the requested one, or
/// `labor` when none was requested.
pub fn commission_phase(requested: Option<String>) -> (r: Option<String>)
    ensures
        requested is Some ==> r == requested,
        requested is None ==> (r matches Some(p) && p@ == "labor"@),
{
    match requested {
        Some(p) => Some(p),
        None => Some(String::from_str("labor")),
    }
}

/// The scopes a system token is issued with: the requested comma-separated
/// list, or the publisher bundle when none was requested.
pub fn issued_scopes(requested: Option<String>) -> (r: String)
    ensures
        requested matches Some(s) ==> r == s,
        requested is None ==> r@
            == "nodes:create,nodes:read,wallet:read,wallet:write,demiurge:mint,demiurge:redeem,payments:process,payments:read"@,
{
    match requested {
        Some(s) => s,
        None => String::from_str(
            "nodes:create,nodes:read,wallet:read,wallet:write,demiurge:mint,demiurge:redeem,payments:process,payments:read",
        ),
    }
}

/// What `uuid::Uuid::parse_str` gives for a text: the UUID's 128-bit value,
/// or the text of its parse error.
pub uninterp spec fn uuid_parse(raw: Seq<char>) -> Result<u128, Seq<char>>;

/// A parse outcome with its error text taken as characters.
pub open spec fn parsed_view(r: Result<u128, String>) -> Result<u128, Seq<char>> {
    match r {
        Ok(v) => Ok(v),
        Err(m) => Err(m@),
    }
}

/// Calls `uuid::Uuid::parse_str`, giving the parsed UUID as its 128-bit value
/// or the parse error rendered as text. Claims only that the outcome is a
/// function of the text.
#[verifier::external_body]
pub(crate) fn parse_uuid_text(raw: &str) -> (r: Result<u128, String>)
    ensures
        uuid_parse(raw@) == parsed_view(r),
{
    match uuid::Uuid::parse_str(raw) {
        Ok(u) => Ok(u.as_u128()),
        Err(e) => Err(e.to_string()),
    }
}

/// Parse a UUID, refusing a malformed one as a bad request whose message is
/// `prefix` followed by the parse error.
pub(crate) fn parse_id(raw: &str, prefix: &str) -> (r: Result<u128, AccessError>)
    ensures
        uuid_parse(raw@) matches Ok(v) ==> r == Ok::<u128, AccessError>(v),
        uuid_parse(raw@) matches Err(e) ==> (r matches Err(AccessError::BadRequest(m)) && m@
            == prefix@ + e),
{
    match parse_uuid_text(raw) {
        Ok(v) => Ok(v),
        Err(e) => {
            let mut m = String::from_str(prefix);
            m.append(e.as_str());
            Err(AccessError::BadRequest(m))
        },
    }
}

/// Parse a node identifier, refusing a malformed one with
/// `invalid node id: <error>`.
pub fn parse_node_uuid(raw: &str) -> (r: Result<u128, AccessError>)
    ensures
        uuid_parse(raw@) matches Ok(v) ==> r == Ok::<u128, AccessError>(v),
        uuid_parse(raw@) matches Err(e) ==> (r matches Err(AccessError::BadRequest(m)) && m@
            == "invalid node id: "@ + e),
{
    parse_id(raw, "invalid node id: ")
}

/// A lower-case hexadecimal digit.
pub open spec fn hex_digit(d: int) -> char {
    if d < 10 {
        crate::gateway_client::digit_char(d)
    } else if d == 10 {
        'a'
    } else if d == 11 {
        'b'
    } else if d == 12 {
        'c'
    } else if d == 13 {
        'd'
    } else if d == 14 {
        'e'
    } else {
        'f'
    }
}

/// How one character is written inside a JSON string: quote and backslash
/// escaped, the named control escapes, other control characters below 0x20
/// as `\u00XX`, everything else as itself.
pub open spec fn json_escaped(c: char) -> Seq<char> {
    let u = c as u32;
    if c == '"' {
        seq!['\\', '"']
    } else if c == '\\' {
        seq!['\\', '\\']
    } else if u == 0x08 {
        seq!['\\', 'b']
    } else if u == 0x09 {
        seq!['\\', 't']
    } else if u == 0x0a {
        seq!['\\', 'n']
    } else if u == 0x0c {
        seq!['\\', 'f']
    } else if u == 0x0d {
        seq!['\\', 'r']
    } else if u < 0x20 {
        seq!['\\', 'u', '0', '0', hex_digit((u / 16) as int), hex_digit((u % 16) as int)]
    } else {
        seq![c]
    }
}

/// A text as a JSON string literal.
pub open spec fn json_quoted(s: Seq<char>) -> Seq<char> {
    seq!['"'] + s.map_values(|c: char| json_escaped(c)).flatten() + seq!['"']
}

/// The JSON string literals of a list, separated by commas.
pub open spec fn json_items(v: Seq<Seq<char>>) -> Seq<char>
    decreases v.len(),
{
    if v.len() == 0 {
        Seq::empty()
    } else if v.len() == 1 {
        json_quoted(v[0])
    } else {
        json_items(v.drop_last()) + seq![','] + json_quoted(v.last())
    }
}

/// A list of texts as a compact JSON array of strings.
pub open spec fn json_array_text(v: Seq<Seq<char>>) -> Seq<char> {
    seq!['['] + json_items(v) + seq![']']
}

/// Encodes a list of strings with `serde_json::to_string`, which writes a
/// compact array of string literals and cannot fail for strings.
#[verifier::external_body]
fn encode_string_array(v: &Vec<String>) -> (r: String)
    ensures
        r@ == json_array_text(texts(v@)),
{
    serde_json::to_string(v).unwrap_or_default()
}

/// The stored form of requested capabilities: their compact JSON array of
/// strings, or nothing when none were requested.
pub fn stored_capabilities(requested: &Option<Vec<String>>) -> (r: Option<String>)
    ensures
        requested is None ==> r is None,
        requested matches Some(c) ==> (r matches Some(s) && s@ == json_array_text(texts(c@))),
{
    match requested {
        None => None,
        Some(c) => Some(encode_string_array(c)),
    }
}

/// A lot is shown exactly when it still holds Demiurge and has not expired,
/// whatever its origin: every such lot of the input is in the result, and
/// every lot of the result is such a lot of the input.
pub proof fn law_live_lots_are_exactly_the_unexpired(lots: Seq<LotResponse>, now: int)
    ensures
        forall|x: LotResponse|
            #[trigger] live_among(lots, now).contains(x) <==> (lots.contains(x) && x.amount > 0
                && now < x.expires_at_unix),
    decreases lots.len(),
{
    if lots.len() > 0 {
        let rest = lots.drop_last();
        law_live_lots_are_exactly_the_unexpired(rest, now);
        assert forall|x: LotResponse| lots.contains(x) <==> (rest.contains(x) || x == lots.last()) by {
            if lots.contains(x) {
                let k = choose|k: int| 0 <= k < lots.len() && lots[k] == x;
                if k < lots.len() - 1 {
                    assert(rest[k] == x);
                }
            }
            if rest.contains(x) {
                let k = choose|k: int| 0 <= k < rest.len() && rest[k] == x;
                assert(lots[k] == x);
            }
            if x == lots.last() {
                assert(lots[lots.len() - 1] == x);
            }
        }
        let l = live_among(rest, now);
        if lot_is_live(lots.last(), now) {
            assert forall|x: LotResponse| l.push(lots.last()).contains(x) <==> (l.contains(x) || x
                == lots.last()) by {
                if l.push(lots.last()).contains(x) {
                    let k = choose|k: int| 0 <= k < l.len() + 1 && l.push(lots.last())[k] == x;
                    if k < l.len() {
                        assert(l[k] == x);
                    }
                }
                if l.contains(x) {
                    let k = choose|k: int| 0 <= k < l.len() && l[k] == x;
                    assert(l.push(lots.last())[k] == x);
                }
                if x == lots.last() {
                    assert(l.push(lots.last())[l.len() as int] == x);
                }
            }
        }
        assert forall|x: LotResponse| #[trigger] live_among(lots, now).contains(x) <==> (
        lots.contains(x) && x.amount > 0 && now < x.expires_at_unix) by {
            assert(l.contains(x) <==> (rest.contains(x) && x.amount > 0 && now
                < x.expires_at_unix));
        }
    } else {
        assert forall|x: LotResponse| #[trigger] live_among(lots, now).contains(x) <==> (
        lots.contains(x) && x.amount > 0 && now < x.expires_at_unix) by {
            assert(!lots.contains(x));
        }
    }
}

/// Comma-separated capabilities come out without surrounding white space and
/// never empty.
pub proof fn law_capability_fields_are_trimmed(pieces: Seq<Seq<char>>)
    ensures
        forall|i: int|
            0 <= i < kept_fields(pieces).len() ==> (#[trigger] kept_fields(pieces)[i]).len() > 0
                && text::trimmed(kept_fields(pieces)[i]) == kept_fields(pieces)[i],
    decreases pieces.len(),
{
    if pieces.len() > 0 {
        law_capability_fields_are_trimmed(pieces.drop_last());
        crate::access::lemma_trimmed_of_trimmed(pieces.last());
        let rest = kept_fields(pieces.drop_last());
        let t = text::trimmed(pieces.last());
        if t.len() > 0 {
            assert forall|i: int| 0 <= i < rest.len() implies rest.push(t)[i] == rest[i] by {}
        }
    }
}

} // verus!
