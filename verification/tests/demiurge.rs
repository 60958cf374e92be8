use nexus::demiurge::{
    combine, expires_at, fiat_minor_to_demiurge, is_expired, mint_amount, mint_span,
    ContributionKind, COVERAGE_BPS, DEMIURGE_EXPIRY_SECS, ESSENTIAL_BPS, ONE_BPS, OVERTIME_BPS,
    SECONDS_PER_YEAR, WEEKLY_EXPECTATION_HOURS,
};

#[test]
fn nurse_heavy_week_matches_white_paper() {
    // 20h essential care, then 10h essential + coverage + overtime.
    let regular = mint_span(ContributionKind::Care, 20 * 60, true, false, 0);
    let overnight = mint_span(ContributionKind::Care, 10 * 60, true, true, 20 * 60);
    assert_eq!(regular, 240);
    assert_eq!(overnight, 300);
    assert_eq!(regular + overnight, 540);
}

#[test]
fn education_never_earns_overtime() {
    // 30h of education: rate 4, no overtime even past the 20h line.
    let earned = mint_span(ContributionKind::Education, 30 * 60, false, false, 0);
    assert_eq!(earned, 30 * 4);
}

#[test]
fn lots_decay_after_twenty_years() {
    let minted = 1_000_000_000;
    assert!(!is_expired(minted, minted + DEMIURGE_EXPIRY_SECS - 1));
    assert!(is_expired(minted, minted + DEMIURGE_EXPIRY_SECS));
}

#[test]
fn fees_convert_to_demiurge() {
    // $5.00 of fees (500 cents) at 1.0x (10,000 bps) -> 500 Demiurge.
    assert_eq!(fiat_minor_to_demiurge(500, ONE_BPS), 500);
    // at 0.5x -> 250.
    assert_eq!(fiat_minor_to_demiurge(500, 5_000), 250);
}

#[test]
fn constants_match_the_white_paper() {
    assert_eq!(ONE_BPS, 10_000);
    assert_eq!(SECONDS_PER_YEAR, 31_556_952);
    assert_eq!(DEMIURGE_EXPIRY_SECS, 631_139_040);
    assert_eq!(WEEKLY_EXPECTATION_HOURS, 20);
    assert_eq!(OVERTIME_BPS, 20_000);
    assert_eq!(ESSENTIAL_BPS, 15_000);
    assert_eq!(COVERAGE_BPS, 12_500);
}

#[test]
fn combine_carries_the_product_exactly() {
    assert_eq!(combine(ESSENTIAL_BPS, COVERAGE_BPS), 18_750);
    assert_eq!(combine(COVERAGE_BPS, ESSENTIAL_BPS), 18_750);
    assert_eq!(combine(ONE_BPS, 12_345), 12_345);
    assert_eq!(combine(18_750, OVERTIME_BPS), 37_500);
    // Rounds toward zero, also for negative products.
    assert_eq!(combine(3, 3), 0);
    assert_eq!(combine(-15_000, 3), -4);
}

#[test]
fn mint_amount_formula_and_zero_cases() {
    // 5/h for 90 minutes at 1.0x: 7.5 -> 7.
    assert_eq!(mint_amount(5, 90, ONE_BPS), 7);
    assert_eq!(mint_amount(8, 60, 15_000), 12);
    assert_eq!(mint_amount(0, 60, ONE_BPS), 0);
    assert_eq!(mint_amount(5, 0, ONE_BPS), 0);
    assert_eq!(mint_amount(5, 60, 0), 0);
    assert_eq!(mint_amount(-5, 60, ONE_BPS), 0);
    assert_eq!(mint_amount(5, -60, ONE_BPS), 0);
}

#[test]
fn content_creation_never_mints() {
    assert_eq!(mint_span(ContributionKind::ContentCreation, 600, true, true, 0), 0);
    assert_eq!(mint_span(ContributionKind::Labor, 0, true, true, 0), 0);
    assert_eq!(mint_span(ContributionKind::Labor, -30, false, false, 0), 0);
}

#[test]
fn overtime_split_at_the_expectation() {
    // Labor 5/h, 10h starting at 15h logged: 5h regular (25) + 5h overtime at 2x (50).
    assert_eq!(mint_span(ContributionKind::Labor, 600, false, false, 900), 75);
    // Entirely past the line: all overtime.
    assert_eq!(mint_span(ContributionKind::Labor, 60, false, false, 2_000), 10);
    // Entirely within the line: all regular.
    assert_eq!(mint_span(ContributionKind::Labor, 60, false, false, 0), 5);
    // Rehabilitation does not earn overtime.
    assert_eq!(mint_span(ContributionKind::Rehabilitation, 60, false, false, 5_000), 4);
}

#[test]
fn spans_compose_across_the_week() {
    // One 30h labor span versus the same week logged as 20h + 10h.
    let whole = mint_span(ContributionKind::Labor, 1_800, false, false, 0);
    let first = mint_span(ContributionKind::Labor, 1_200, false, false, 0);
    let second = mint_span(ContributionKind::Labor, 600, false, false, 1_200);
    assert!(first + second <= whole);
    assert!(whole <= first + second + 2);
    assert_eq!(whole, 200);
}

#[test]
fn expiry_is_twenty_years_out() {
    assert_eq!(expires_at(0), 20 * SECONDS_PER_YEAR);
    assert_eq!(expires_at(-100), 20 * SECONDS_PER_YEAR - 100);
    assert!(is_expired(0, 631_139_040 + 1));
    assert!(!is_expired(0, 0));
}

#[test]
fn fee_conversion_edges() {
    assert_eq!(fiat_minor_to_demiurge(0, ONE_BPS), 0);
    assert_eq!(fiat_minor_to_demiurge(-500, ONE_BPS), 0);
    assert_eq!(fiat_minor_to_demiurge(500, 0), 0);
    assert_eq!(fiat_minor_to_demiurge(3, 5_000), 1);
    assert_eq!(fiat_minor_to_demiurge(1_000, 20_000), 2_000);
}

#[test]
fn kinds_rates_and_eligibility() {
    assert_eq!(ContributionKind::Mentorship.base_rate_per_hour(), 10);
    assert_eq!(ContributionKind::Care.base_rate_per_hour(), 8);
    assert_eq!(ContributionKind::EmergencyResponse.base_rate_per_hour(), 8);
    assert_eq!(ContributionKind::Labor.base_rate_per_hour(), 5);
    assert_eq!(ContributionKind::Education.base_rate_per_hour(), 4);
    assert_eq!(ContributionKind::Rehabilitation.base_rate_per_hour(), 4);
    assert_eq!(ContributionKind::ContentCreation.base_rate_per_hour(), 0);
    assert!(ContributionKind::Labor.counts_toward_expectation());
    assert!(!ContributionKind::ContentCreation.counts_toward_expectation());
    assert!(ContributionKind::Labor.overtime_eligible() && ContributionKind::Care.overtime_eligible());
    assert!(ContributionKind::Mentorship.overtime_eligible() && ContributionKind::EmergencyResponse.overtime_eligible());
    assert!(!ContributionKind::Education.overtime_eligible() && !ContributionKind::Rehabilitation.overtime_eligible());
    assert!(!ContributionKind::ContentCreation.overtime_eligible());
}

#[test]
fn kinds_parse_leniently() {
    assert_eq!(ContributionKind::from_str_lenient("education"), ContributionKind::Education);
    assert_eq!(ContributionKind::from_str_lenient("  Mentorship\n"), ContributionKind::Mentorship);
    assert_eq!(ContributionKind::from_str_lenient("CARE"), ContributionKind::Care);
    assert_eq!(ContributionKind::from_str_lenient("emergency"), ContributionKind::EmergencyResponse);
    assert_eq!(ContributionKind::from_str_lenient("Emergency_Response"), ContributionKind::EmergencyResponse);
    assert_eq!(ContributionKind::from_str_lenient("rehab"), ContributionKind::Rehabilitation);
    assert_eq!(ContributionKind::from_str_lenient("\u{3000}rehabilitation"), ContributionKind::Rehabilitation);
    assert_eq!(ContributionKind::from_str_lenient("content"), ContributionKind::ContentCreation);
    assert_eq!(ContributionKind::from_str_lenient("content_creation"), ContributionKind::ContentCreation);
    assert_eq!(ContributionKind::from_str_lenient("gardening"), ContributionKind::Labor);
    assert_eq!(ContributionKind::from_str_lenient(""), ContributionKind::Labor);
    assert_eq!(ContributionKind::from_str_lenient("edu cation"), ContributionKind::Labor);
}

#[test]
fn minting_is_monotone_and_never_negative() {
    let base = mint_amount(5, 600, ONE_BPS);
    assert!(base <= mint_amount(8, 600, ONE_BPS));
    assert!(base <= mint_amount(5, 660, ONE_BPS));
    assert!(base <= mint_amount(5, 600, ESSENTIAL_BPS));
    // The largest amount an i64 holds is still minted exactly.
    assert_eq!(mint_amount(i64::MAX, 600_000, 1), i64::MAX);
    assert!(mint_amount(i64::MAX, 60, ONE_BPS) >= 0);
}

#[test]
fn combine_identity_on_both_sides() {
    for x in [0i64, 1, -7, 12_500, 37_500, i64::MAX, i64::MIN] {
        assert_eq!(combine(ONE_BPS, x), x);
        assert_eq!(combine(x, ONE_BPS), x);
    }
}
