//! Demiurge: the contribution-accounting arithmetic.
//!
//! Minting, decay and fee conversion for the Demiurge unit. Amounts are whole
//! integers; multipliers are basis points (10,000 bps == 1.0x).
//!
//! Three structural rules hold here:
//! 1. only contribution minutes mint (see [`mint_amount`] and [`mint_span`]);
//! 2. no function reads or prices the floor guarantee;
//! 3. every lot expires [`DEMIURGE_EXPIRY_SECS`] after it was minted.

use vstd::prelude::*;

use crate::text;

verus! {

/// Basis-point base. 10,000 bps == 1.0x.
pub const ONE_BPS: i64 = 10_000;

/// Seconds in a Gregorian year (365.2425 days).
pub const SECONDS_PER_YEAR: i64 = 31_556_952;

/// A minted lot expires exactly twenty Gregorian years after its mint instant.
pub const DEMIURGE_EXPIRY_SECS: i64 = 20 * SECONDS_PER_YEAR;

/// Default weekly contribution expectation, in hours.
pub const WEEKLY_EXPECTATION_HOURS: i64 = 20;

/// Overtime multiplier, in basis points (2.0x).
pub const OVERTIME_BPS: i64 = 20_000;

/// Essential-work multiplier, in basis points (1.5x).
pub const ESSENTIAL_BPS: i64 = 15_000;

/// Coverage multiplier, in basis points (1.25x).
pub const COVERAGE_BPS: i64 = 12_500;

/// Kinds of contribution the ledger recognizes. Each mints at a base rate in
/// Demiurge per hour; `ContentCreation` never mints per hour.
#[derive(Clone, Copy, Debug, PartialEq, Eq, Structural)]
pub enum ContributionKind {
    Labor,
    Education,
    Mentorship,
    Care,
    EmergencyResponse,
    Rehabilitation,
    ContentCreation,
}

/// The kind a normalized (trimmed, ASCII-lowercased) wire word names; anything
/// unrecognized is `Labor`.
pub open spec fn kind_named(w: Seq<char>) -> ContributionKind {
    if w == "education"@ {
        ContributionKind::Education
    } else if w == "mentorship"@ {
        ContributionKind::Mentorship
    } else if w == "care"@ {
        ContributionKind::Care
    } else if w == "emergency_response"@ || w == "emergency"@ {
        ContributionKind::EmergencyResponse
    } else if w == "rehabilitation"@ || w == "rehab"@ {
        ContributionKind::Rehabilitation
    } else if w == "content_creation"@ || w == "content"@ {
        ContributionKind::ContentCreation
    } else {
        ContributionKind::Labor
    }
}

impl ContributionKind {
    /// Base rate in Demiurge per hour.
    pub open spec fn rate(self) -> int {
        match self {
            ContributionKind::Mentorship => 10,
            ContributionKind::Care => 8,
            ContributionKind::EmergencyResponse => 8,
            ContributionKind::Labor => 5,
            ContributionKind::Education => 4,
            ContributionKind::Rehabilitation => 4,
            ContributionKind::ContentCreation => 0,
        }
    }

    /// Whether hours past the weekly expectation earn the overtime multiplier.
    pub open spec fn earns_overtime(self) -> bool {
        match self {
            ContributionKind::Labor => true,
            ContributionKind::Care => true,
            ContributionKind::Mentorship => true,
            ContributionKind::EmergencyResponse => true,
            _ => false,
        }
    }

    /// Parse a wire string into a kind: surrounding whitespace is ignored and
    /// ASCII letters are matched without regard to case. Unknown values fall
    /// back to `Labor`.
    pub fn from_str_lenient(s: &str) -> (k: Self)
        ensures
            k == kind_named(text::ascii_lower(text::trimmed(s@))),
    {
        let t = text::trim(s);
        if text::ascii_lower_eq(t, "education") {
            ContributionKind::Education
        } else if text::ascii_lower_eq(t, "mentorship") {
            ContributionKind::Mentorship
        } else if text::ascii_lower_eq(t, "care") {
            ContributionKind::Care
        } else if text::ascii_lower_eq(t, "emergency_response") || text::ascii_lower_eq(
            t,
            "emergency",
        ) {
            ContributionKind::EmergencyResponse
        } else if text::ascii_lower_eq(t, "rehabilitation") || text::ascii_lower_eq(t, "rehab") {
            ContributionKind::Rehabilitation
        } else if text::ascii_lower_eq(t, "content_creation") || text::ascii_lower_eq(
            t,
            "content",
        ) {
            ContributionKind::ContentCreation
        } else {
            ContributionKind::Labor
        }
    }

    /// Default base rate in Demiurge per hour.
    pub fn base_rate_per_hour(self) -> (r: i64)
        ensures
            r == self.rate(),
    {
        match self {
            ContributionKind::Mentorship => 10,
            ContributionKind::Care | ContributionKind::EmergencyResponse => 8,
            ContributionKind::Labor => 5,
            ContributionKind::Education | ContributionKind::Rehabilitation => 4,
            ContributionKind::ContentCreation => 0,
        }
    }

    /// Hours of this kind count toward the weekly expectation unless it is
    /// content creation.
    pub fn counts_toward_expectation(self) -> (r: bool)
        ensures
            r == !(self is ContentCreation),
    {
        !matches!(self, ContributionKind::ContentCreation)
    }

    /// Labor, care, mentorship and emergency response earn overtime past the
    /// weekly expectation; education, rehabilitation and content do not.
    pub fn overtime_eligible(self) -> (r: bool)
        ensures
            r == self.earns_overtime(),
    {
        matches!(
            self,
            ContributionKind::Labor | ContributionKind::Care | ContributionKind::Mentorship
                | ContributionKind::EmergencyResponse
        )
    }
}

/// Integer division that rounds toward zero, as machine division does.
pub open spec fn div_toward_zero(x: int, d: int) -> int {
    if x >= 0 {
        x / d
    } else {
        -((-x) / d)
    }
}

/// Two multipliers combined over the base, before narrowing to 64 bits.
pub open spec fn combined_bps(a: int, b: int) -> int {
    div_toward_zero(a * b, ONE_BPS as int)
}

/// The minting formula: rate x minutes x multiplier / (60 x 10,000), and zero
/// unless all three are positive.
pub open spec fn minted(rate: int, minutes: int, multiplier: int) -> int {
    if rate <= 0 || minutes <= 0 || multiplier <= 0 {
        0
    } else {
        rate * minutes * multiplier / (60 * ONE_BPS as int)
    }
}

/// The expectation threshold, in minutes.
pub open spec fn week_threshold() -> int {
    WEEKLY_EXPECTATION_HOURS * 60
}

/// Multiplier of a span from its essential and coverage flags.
pub open spec fn span_multiplier(essential: bool, coverage: bool) -> int {
    if essential && coverage {
        18_750
    } else if essential {
        ESSENTIAL_BPS as int
    } else if coverage {
        COVERAGE_BPS as int
    } else {
        ONE_BPS as int
    }
}

/// Minutes of a span paid at the regular tier: for overtime-eligible kinds
/// those that still fall under the weekly expectation, otherwise all of them.
pub open spec fn regular_minutes(kind: ContributionKind, minutes: int, prior: int) -> int {
    if kind.earns_overtime() {
        let room = week_threshold() - prior;
        if room < 0 {
            0
        } else if room > minutes {
            minutes
        } else {
            room
        }
    } else {
        minutes
    }
}

/// Demiurge minted for one contribution span.
pub open spec fn span_minted(
    kind: ContributionKind,
    minutes: int,
    essential: bool,
    coverage: bool,
    prior: int,
) -> int {
    if kind.rate() <= 0 || minutes <= 0 {
        0
    } else {
        let m = span_multiplier(essential, coverage);
        let reg = regular_minutes(kind, minutes, prior);
        let ot = minutes - reg;
        minted(kind.rate(), reg, m) + if ot > 0 {
            minted(kind.rate(), ot, 2 * m)
        } else {
            0
        }
    }
}

/// Instant at which a lot minted at `minted_at` expires.
pub open spec fn expiry_of(minted_at: int) -> int {
    minted_at + DEMIURGE_EXPIRY_SECS as int
}

/// Demiurge from a fiat amount at a conversion rate in basis points; zero
/// unless both are positive.
pub open spec fn converted(fiat_minor: int, rate_bps: int) -> int {
    if fiat_minor <= 0 || rate_bps <= 0 {
        0
    } else {
        fiat_minor * rate_bps / (ONE_BPS as int)
    }
}

proof fn lemma_i64_product_fits(a: i64, b: i64)
    ensures
        i128::MIN <= (a as int) * (b as int) <= i128::MAX,
{
    assert(-0x8000_0000_0000_0000int <= a as int <= 0x7fff_ffff_ffff_ffffint);
    assert(-0x8000_0000_0000_0000int <= b as int <= 0x7fff_ffff_ffff_ffffint);
    assert(-0x4000_0000_0000_0000_0000_0000_0000_0000int <= (a as int) * (b as int)
        <= 0x4000_0000_0000_0000_0000_0000_0000_0000int) by (nonlinear_arith)
        requires
            -0x8000_0000_0000_0000int <= a as int <= 0x7fff_ffff_ffff_ffffint,
            -0x8000_0000_0000_0000int <= b as int <= 0x7fff_ffff_ffff_ffffint,
    ;
}

/// Combine two multipliers multiplicatively over the base: 1.5x with 1.25x
/// yields 1.875x (18,750 bps), carried exactly. The quotient rounds toward
/// zero and must fit in 64 bits.
pub fn combine(a_bps: i64, b_bps: i64) -> (r: i64)
    requires
        i64::MIN <= combined_bps(a_bps as int, b_bps as int) <= i64::MAX,
    ensures
        r as int == combined_bps(a_bps as int, b_bps as int),
{
    proof {
        lemma_i64_product_fits(a_bps, b_bps);
    }
    let p = (a_bps as i128) * (b_bps as i128);
    let q = p / (ONE_BPS as i128);
    q as i64
}

/// The minting formula: rate x minutes x multiplier / (60 x 10,000), rounded
/// down; zero unless rate, minutes and multiplier are all positive. The
/// result is a whole, non-negative count of Demiurge; the product is formed in
/// 128 bits, so only the amount itself must fit in 64 bits.
pub fn mint_amount(rate_per_hour: i64, minutes: i64, multiplier_bps: i64) -> (r: i64)
    requires
        minted(rate_per_hour as int, minutes as int, multiplier_bps as int) <= i64::MAX,
    ensures
        r as int == minted(rate_per_hour as int, minutes as int, multiplier_bps as int),
        r >= 0,
        (rate_per_hour <= 0 || minutes <= 0 || multiplier_bps <= 0) ==> r == 0,
{
    if rate_per_hour <= 0 || minutes <= 0 || multiplier_bps <= 0 {
        return 0;
    }
    proof {
        lemma_i64_product_fits(rate_per_hour, minutes);
        let p = (rate_per_hour as int) * (minutes as int) * (multiplier_bps as int);
        assert(p >= 0) by (nonlinear_arith)
            requires
                rate_per_hour > 0,
                minutes > 0,
                multiplier_bps > 0,
                p == (rate_per_hour as int) * (minutes as int) * (multiplier_bps as int),
        ;
        assert(p <= i128::MAX) by (nonlinear_arith)
            requires
                p >= 0,
                p / 600_000 <= 0x7fff_ffff_ffff_ffffint,
        ;
    }
    let v = (rate_per_hour as i128) * (minutes as i128) * (multiplier_bps as i128) / (60i128
        * ONE_BPS as i128);
    v as i64
}

proof fn lemma_minted_at_most_minutes(rate: int, minutes: int, m: int)
    requires
        0 <= rate <= 10,
        0 <= m <= 37_500,
        minutes >= 0,
    ensures
        0 <= minted(rate, minutes, m) <= minutes,
        rate * minutes * m <= 375_000 * minutes,
{
    assert(rate * minutes * m <= 375_000 * minutes) by (nonlinear_arith)
        requires
            0 <= rate <= 10,
            0 <= m <= 37_500,
            minutes >= 0,
    ;
    assert(rate * minutes * m >= 0) by (nonlinear_arith)
        requires
            0 <= rate,
            0 <= m,
            minutes >= 0,
    ;
    if rate > 0 && minutes > 0 && m > 0 {
        let p = rate * minutes * m;
        assert(p / 600_000 <= minutes) by (nonlinear_arith)
            requires
                0 <= p <= 375_000 * minutes,
                minutes >= 0,
        ;
    }
}

/// Demiurge minted for a single contribution span: the essential and coverage
/// multipliers apply, and for overtime-eligible kinds the minutes past the
/// weekly expectation (counting `prior_work_minutes` already logged this week)
/// are paid at the overtime multiplier on top.
pub fn mint_span(
    kind: ContributionKind,
    minutes: i64,
    essential: bool,
    coverage: bool,
    prior_work_minutes: i64,
) -> (r: i64)
    requires
        kind.rate() > 0 && minutes > 0 && kind.earns_overtime() ==> week_threshold()
            - prior_work_minutes <= i64::MAX,
    ensures
        r as int == span_minted(kind, minutes as int, essential, coverage, prior_work_minutes as int),
        0 <= r,
        minutes > 0 ==> r <= minutes,
{
    let rate = kind.base_rate_per_hour();
    if rate <= 0 || minutes <= 0 {
        return 0;
    }
    let mut mult = ONE_BPS;
    if essential {
        mult = combine(mult, ESSENTIAL_BPS);
    }
    if coverage {
        mult = combine(mult, COVERAGE_BPS);
    }
    assert(mult as int == span_multiplier(essential, coverage));

    let threshold = WEEKLY_EXPECTATION_HOURS * 60;
    let (regular, overtime) = if kind.overtime_eligible() {
        let room = threshold - prior_work_minutes;
        let reg = if room < 0 {
            0
        } else if room > minutes {
            minutes
        } else {
            room
        };
        (reg, minutes - reg)
    } else {
        (minutes, 0)
    };
    assert(regular as int == regular_minutes(kind, minutes as int, prior_work_minutes as int));
    proof {
        lemma_minted_at_most_minutes(rate as int, regular as int, mult as int);
        lemma_minted_at_most_minutes(rate as int, overtime as int, 2 * mult as int);
        lemma_minted_at_most_minutes(rate as int, minutes as int, mult as int);
    }
    let mut earned = mint_amount(rate, regular, mult);
    if overtime > 0 {
        let ot_mult = combine(mult, OVERTIME_BPS);
        assert(ot_mult as int == 2 * mult as int);
        earned = earned + mint_amount(rate, overtime, ot_mult);
    }
    earned
}

/// A lot expires twenty years after it was minted.
pub fn expires_at(minted_at_unix: i64) -> (r: i64)
    requires
        minted_at_unix <= i64::MAX - DEMIURGE_EXPIRY_SECS,
    ensures
        r as int == expiry_of(minted_at_unix as int),
{
    minted_at_unix + DEMIURGE_EXPIRY_SECS
}

/// Whether a lot minted at `minted_at_unix` has decayed as of `now_unix`.
pub fn is_expired(minted_at_unix: i64, now_unix: i64) -> (r: bool)
    requires
        minted_at_unix <= i64::MAX - DEMIURGE_EXPIRY_SECS,
    ensures
        r == (now_unix as int >= expiry_of(minted_at_unix as int)),
{
    now_unix >= expires_at(minted_at_unix)
}

/// Convert a fiat amount (in minor units) into Demiurge at a rate in basis
/// points of Demiurge per fiat minor unit; zero unless both are positive. The
/// result is a whole, non-negative amount; the product is formed in 128 bits,
/// so only the amount itself must fit in 64 bits.
pub fn fiat_minor_to_demiurge(fiat_minor: i64, rate_bps: i64) -> (r: i64)
    requires
        converted(fiat_minor as int, rate_bps as int) <= i64::MAX,
    ensures
        r as int == converted(fiat_minor as int, rate_bps as int),
        r >= 0,
        (fiat_minor <= 0 || rate_bps <= 0) ==> r == 0,
{
    if fiat_minor <= 0 || rate_bps <= 0 {
        return 0;
    }
    proof {
        lemma_i64_product_fits(fiat_minor, rate_bps);
        assert((fiat_minor as int) * (rate_bps as int) > 0) by (nonlinear_arith)
            requires
                fiat_minor > 0,
                rate_bps > 0,
        ;
    }
    let v = (fiat_minor as i128) * (rate_bps as i128) / (ONE_BPS as i128);
    v as i64
}

/// Only contribution mints: the formula yields a positive amount only when
/// rate, minutes and multiplier are all positive, and it is never negative.
pub proof fn law_only_contribution_mints(rate: int, minutes: int, multiplier: int)
    ensures
        minted(rate, minutes, multiplier) >= 0,
        minted(rate, minutes, multiplier) > 0 ==> rate > 0 && minutes > 0 && multiplier > 0,
{
    if rate > 0 && minutes > 0 && multiplier > 0 {
        assert(rate * minutes * multiplier >= 0) by (nonlinear_arith)
            requires
                rate > 0,
                minutes > 0,
                multiplier > 0,
        ;
    }
}

/// Content creation never mints per hour, whatever the span.
pub proof fn law_content_never_mints(minutes: int, essential: bool, coverage: bool, prior: int)
    ensures
        span_minted(ContributionKind::ContentCreation, minutes, essential, coverage, prior) == 0,
{
}

/// Kinds without overtime are paid at the plain multiplier for every minute,
/// however many minutes were logged earlier in the week.
pub proof fn law_no_overtime_without_eligibility(
    kind: ContributionKind,
    minutes: int,
    essential: bool,
    coverage: bool,
    prior_a: int,
    prior_b: int,
)
    requires
        !kind.earns_overtime(),
    ensures
        span_minted(kind, minutes, essential, coverage, prior_a) == span_minted(
            kind,
            minutes,
            essential,
            coverage,
            prior_b,
        ),
        span_minted(kind, minutes, essential, coverage, prior_a) == minted(
            kind.rate(),
            minutes,
            span_multiplier(essential, coverage),
        ),
{
}

/// The weekly expectation splits the tiers: a span that ends within the
/// expectation is all regular, and one that starts past it is all overtime at
/// twice the span's multiplier.
pub proof fn law_expectation_splits_tiers(
    kind: ContributionKind,
    minutes: int,
    essential: bool,
    coverage: bool,
    prior: int,
)
    requires
        kind.earns_overtime(),
        minutes > 0,
    ensures
        prior + minutes <= week_threshold() ==> span_minted(kind, minutes, essential, coverage, prior)
            == minted(kind.rate(), minutes, span_multiplier(essential, coverage)),
        prior >= week_threshold() ==> span_minted(kind, minutes, essential, coverage, prior)
            == minted(kind.rate(), minutes, 2 * span_multiplier(essential, coverage)),
{
}

proof fn lemma_minted_split(rate: int, x: int, y: int, m: int)
    requires
        rate > 0,
        m > 0,
        x >= 0,
        y >= 0,
    ensures
        minted(rate, x, m) + minted(rate, y, m) <= minted(rate, x + y, m),
        minted(rate, x + y, m) <= minted(rate, x, m) + minted(rate, y, m) + 1,
{
    let a = rate * x * m;
    let b = rate * y * m;
    assert(rate * (x + y) * m == a + b && a >= 0 && b >= 0) by (nonlinear_arith)
        requires
            rate > 0,
            m > 0,
            x >= 0,
            y >= 0,
            a == rate * x * m,
            b == rate * y * m,
    ;
    assert(a / 600_000 + b / 600_000 <= (a + b) / 600_000 <= a / 600_000 + b / 600_000 + 1)
        by (nonlinear_arith)
        requires
            a >= 0,
            b >= 0,
    ;
    assert(x == 0 ==> a == 0) by (nonlinear_arith)
        requires
            a == rate * x * m,
    ;
    assert(y == 0 ==> b == 0) by (nonlinear_arith)
        requires
            b == rate * y * m,
    ;
}

/// The weekly expectation is honored across spans: logging a week in two
/// consecutive spans (the second counting the first's minutes as prior work)
/// never mints more than logging it as one span, and at most two Demiurge less
/// (one per tier, from rounding down).
pub proof fn law_spans_compose(
    kind: ContributionKind,
    first: int,
    second: int,
    essential: bool,
    coverage: bool,
    prior: int,
)
    requires
        first > 0,
        second > 0,
    ensures
        span_minted(kind, first, essential, coverage, prior) + span_minted(
            kind,
            second,
            essential,
            coverage,
            prior + first,
        ) <= span_minted(kind, first + second, essential, coverage, prior),
        span_minted(kind, first + second, essential, coverage, prior) <= span_minted(
            kind,
            first,
            essential,
            coverage,
            prior,
        ) + span_minted(kind, second, essential, coverage, prior + first) + 2,
{
    let rate = kind.rate();
    if rate > 0 {
        let m = span_multiplier(essential, coverage);
        let r1 = regular_minutes(kind, first, prior);
        let r2 = regular_minutes(kind, second, prior + first);
        let rw = regular_minutes(kind, first + second, prior);
        assert(rw == r1 + r2);
        lemma_minted_split(rate, r1, r2, m);
        lemma_minted_split(rate, first - r1, second - r2, 2 * m);
    }
}

/// Every lot decays: it expires exactly twenty Gregorian years after minting,
/// is live the second before, and stays expired from then on.
pub proof fn law_lots_decay(minted_at: int, now: int, later: int)
    requires
        now <= later,
    ensures
        expiry_of(minted_at) == minted_at + 20 * SECONDS_PER_YEAR,
        !(expiry_of(minted_at) - 1 >= expiry_of(minted_at)),
        now >= expiry_of(minted_at) ==> later >= expiry_of(minted_at),
{
}

/// Combining multipliers is order-independent, and the base 1.0x is neutral
/// on either side. (Over all integers; `combine` itself admits the pairs whose
/// combination fits in 64 bits, and 1.0x with any 64-bit value does.)
pub proof fn law_combine_commutes(a: int, b: int)
    ensures
        combined_bps(a, b) == combined_bps(b, a),
        combined_bps(ONE_BPS as int, a) == a,
        combined_bps(a, ONE_BPS as int) == a,
{
    assert(a * b == b * a) by (nonlinear_arith);
    assert((ONE_BPS as int) * a == a * 10_000) by (nonlinear_arith);
    if a < 0 {
        assert((-(a * 10_000)) / 10_000 == -a) by (nonlinear_arith)
            requires
                a < 0,
        ;
    } else {
        assert((a * 10_000) / 10_000 == a) by (nonlinear_arith)
            requires
                a >= 0,
        ;
    }
}

/// Fees convert one-for-one at the par rate of 10,000 bps, and a higher rate
/// never converts the same fees into less Demiurge.
pub proof fn law_fee_conversion(fiat_minor: int, rate_a: int, rate_b: int)
    requires
        rate_a <= rate_b,
    ensures
        fiat_minor > 0 ==> converted(fiat_minor, ONE_BPS as int) == fiat_minor,
        converted(fiat_minor, rate_a) <= converted(fiat_minor, rate_b),
{
    if fiat_minor > 0 {
        assert(fiat_minor * 10_000 / 10_000 == fiat_minor) by (nonlinear_arith)
            requires
                fiat_minor > 0,
        ;
        if rate_a > 0 {
            assert(fiat_minor * rate_a / 10_000 <= fiat_minor * rate_b / 10_000) by (nonlinear_arith)
                requires
                    fiat_minor > 0,
                    0 < rate_a <= rate_b,
            ;
        } else if rate_b > 0 {
            assert(fiat_minor * rate_b / 10_000 >= 0) by (nonlinear_arith)
                requires
                    fiat_minor > 0,
                    rate_b > 0,
            ;
        }
    }
}

/// The name a kind has on the wire (snake case).
pub open spec fn wire_name(kind: ContributionKind) -> Seq<char> {
    match kind {
        ContributionKind::Labor => "labor"@,
        ContributionKind::Education => "education"@,
        ContributionKind::Mentorship => "mentorship"@,
        ContributionKind::Care => "care"@,
        ContributionKind::EmergencyResponse => "emergency_response"@,
        ContributionKind::Rehabilitation => "rehabilitation"@,
        ContributionKind::ContentCreation => "content_creation"@,
    }
}

/// Every kind's wire name parses back to that kind.
pub proof fn law_wire_names_round_trip(kind: ContributionKind)
    ensures
        kind_named(text::ascii_lower(text::trimmed(wire_name(kind)))) == kind,
{
    reveal_strlit("labor");
    reveal_strlit("education");
    reveal_strlit("mentorship");
    reveal_strlit("care");
    reveal_strlit("emergency_response");
    reveal_strlit("emergency");
    reveal_strlit("rehabilitation");
    reveal_strlit("rehab");
    reveal_strlit("content_creation");
    reveal_strlit("content");
    let w = wire_name(kind);
    assert(w.len() > 0 && !text::is_white_space(w[0]) && !text::is_white_space(w.last()));
    assert(text::trim_start(w) == w);
    assert(text::trim_end(w) == w);
    assert(text::ascii_lower(w) =~= w);
}

/// Minting never pays less for more: the amount grows with the rate, the
/// minutes and the multiplier.
pub proof fn law_mint_monotone(r1: int, r2: int, m1: int, m2: int, x1: int, x2: int)
    requires
        r1 <= r2,
        m1 <= m2,
        x1 <= x2,
    ensures
        minted(r1, m1, x1) <= minted(r2, m2, x2),
{
    law_only_contribution_mints(r2, m2, x2);
    if r1 > 0 && m1 > 0 && x1 > 0 {
        assert(r1 * m1 * x1 <= r2 * m2 * x2) by (nonlinear_arith)
            requires
                0 < r1 <= r2,
                0 < m1 <= m2,
                0 < x1 <= x2,
        ;
        let a = r1 * m1 * x1;
        let b = r2 * m2 * x2;
        assert(a / 600_000 <= b / 600_000) by (nonlinear_arith)
            requires
                0 <= a <= b,
        ;
    }
}

/// Surrounding white space and ASCII letter case never change the parsed
/// kind: parsing the normalized word gives what parsing the raw one gives.
pub proof fn law_parse_ignores_normalization(s: Seq<char>)
    ensures
        kind_named(text::ascii_lower(text::trimmed(text::ascii_lower(text::trimmed(s)))))
            == kind_named(text::ascii_lower(text::trimmed(s))),
{
    text::law_normalization_idempotent(s);
}

/// The essential and coverage multipliers apply independently: a span pays
/// 1.5x when essential and 1.25x when covering, each on its own, multiplied
/// together over the base (18,750 bps for both).
pub proof fn law_multipliers_apply_independently(essential: bool, coverage: bool)
    ensures
        span_multiplier(essential, coverage) == (if essential {
            15_000int
        } else {
            10_000int
        }) * (if coverage {
            12_500int
        } else {
            10_000int
        }) / 10_000,
{
}

/// A span that stays within the regular tier (it does not earn overtime, or
/// it ends within the weekly expectation) mints rate x minutes x multiplier /
/// 600,000, with 1.5x for essential and 1.25x for coverage work, each applied
/// whenever its flag is set.
pub proof fn law_regular_span_amount(
    kind: ContributionKind,
    minutes: int,
    essential: bool,
    coverage: bool,
    prior: int,
)
    requires
        minutes > 0,
        !kind.earns_overtime() || prior + minutes <= 20 * 60,
    ensures
        span_minted(kind, minutes, essential, coverage, prior) == if kind.rate() <= 0 {
            0
        } else {
            kind.rate() * minutes * ((if essential {
                15_000int
            } else {
                10_000int
            }) * (if coverage {
                12_500int
            } else {
                10_000int
            }) / 10_000) / 600_000
        },
{
    law_multipliers_apply_independently(essential, coverage);
}

/// The default base rates per hour: mentorship 10; care and emergency
/// response 8; labor 5; education and rehabilitation 4; content creation 0.
/// Only kinds with a positive rate can mint.
pub proof fn law_base_rates(kind: ContributionKind, minutes: int, essential: bool, coverage: bool, prior: int)
    ensures
        kind is Mentorship ==> kind.rate() == 10,
        kind is Care || kind is EmergencyResponse ==> kind.rate() == 8,
        kind is Labor ==> kind.rate() == 5,
        kind is Education || kind is Rehabilitation ==> kind.rate() == 4,
        kind is ContentCreation ==> kind.rate() == 0,
        span_minted(kind, minutes, essential, coverage, prior) > 0 ==> kind.rate() > 0,
{
}

} // verus!
