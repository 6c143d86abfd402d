use spool_usage::aggregate::{aggregate, JobRecord};
use spool_usage::ledger::{seed_roster, Ledger};
use spool_usage::mass::{length_to_mass, round_div_u128, UNITS_PER_GRAM, UNITS_PER_UG};

const G: u128 = UNITS_PER_GRAM;
use spool_usage::names::name_less;
use spool_usage::pipeline::{build_report, status_is_success, FetchOutcome, ReportError};
use spool_usage::report::{
    decimal_text, display_name, remaining_grams, render_report, report_rows, signed_text, usage_bar, usage_percent,
    usage_row, used_grams,
};

fn job(name: &str, used_mm: u64) -> JobRecord {
    JobRecord { filament_name: name.to_string(), filament_used_um: used_mm * 1000 }
}

fn entries(l: &Ledger) -> Vec<(String, u128)> {
    (0..l.len()).map(|i| (l.name_at(i).clone(), l.amount_at(i))).collect()
}

#[test]
fn zero_length_has_no_mass() {
    assert_eq!(length_to_mass(0), 0);
}

#[test]
fn one_metre_weighs_about_three_grams() {
    assert_eq!(length_to_mass(1_000_000), 769_690_200_129_499_285_000_000);
    assert_eq!(used_grams(length_to_mass(1_000_000)), 3);
    assert_eq!(UNITS_PER_GRAM, 1_000_000 * UNITS_PER_UG);
}

#[test]
fn mass_is_linear_in_length() {
    assert_eq!(length_to_mass(152), 2 * length_to_mass(76));
    assert_eq!(length_to_mass(1), 3_141_592_653_589_793 * 245);
    assert_eq!(length_to_mass(5_000_000 + 7), length_to_mass(5_000_000) + length_to_mass(7));
}

#[test]
fn converter_matches_cylinder_formula() {
    for len_um in [1u64, 999, 5_000_000, 123_456_789, 330_000_000] {
        let metres = len_um as f64 / 1e6;
        let grams = std::f64::consts::PI * 0.0875f64.powi(2) * (100.0 * metres) * 1.25;
        let got = length_to_mass(len_um) as f64 / UNITS_PER_GRAM as f64;
        assert!((got - grams).abs() <= grams * 1e-12, "{} {} {}", len_um, got, grams);
    }
}

#[test]
fn rounding_goes_half_up() {
    assert_eq!(round_div_u128(5, 2), 3);
    assert_eq!(round_div_u128(4, 2), 2);
    assert_eq!(round_div_u128(7, 3), 2);
    assert_eq!(round_div_u128(u128::MAX, 1), u128::MAX);
}

#[test]
fn row_figures() {
    assert_eq!(used_grams(823 * G), 823);
    assert_eq!(remaining_grams(823 * G), 177);
    assert_eq!(usage_percent(823 * G), 82);
    assert_eq!(usage_percent(825 * G), 83);
    assert_eq!(used_grams(G / 2 - 1), 0);
    assert_eq!(used_grams(G / 2), 1);
}

#[test]
fn remaining_is_not_clamped() {
    assert_eq!(remaining_grams(1000 * G + 4 * G / 10), 0);
    assert_eq!(remaining_grams(1000 * G + G / 2), -1);
    assert_eq!(remaining_grams(1250 * G), -250);
    assert_eq!(usage_percent(1250 * G), 125);
    assert_eq!(remaining_grams(0), 1000);
}

#[test]
fn remaining_and_percent_follow_used_grams() {
    for amount in [0u128, 1, G / 2 - 1, G / 2, 63 * G, 999 * G + G / 2, 1000 * G, 7777 * G + G / 3] {
        let exact = amount as f64 / G as f64;
        assert_eq!(remaining_grams(amount) as f64, (1000.0 - exact).round());
        assert_eq!(usage_percent(amount) as f64, (exact / 1000.0 * 100.0).round());
    }
}

#[test]
fn bar_shapes() {
    assert_eq!(usage_bar(0), "[>.................]");
    assert_eq!(usage_bar(500), "[=========>........]");
    assert_eq!(usage_bar(823), "[==============>...]");
    assert_eq!(usage_bar(1000), "[==================]");
    assert_eq!(usage_bar(4000), "[==================]");
    assert_eq!(usage_bar(123).chars().count(), 20);
}

#[test]
fn signed_text_values() {
    assert_eq!(signed_text(0), "0");
    assert_eq!(signed_text(177), "177");
    assert_eq!(signed_text(-5), "-5");
    assert_eq!(signed_text(i128::MIN), i128::MIN.to_string());
}

#[test]
fn row_cells_for_seed_spool() {
    let row = usage_row(&"White Spool".to_string(), 823 * G);
    assert_eq!(row, vec!["White Spool", "823", "177", "[==============>...] 82%"]);
}

#[test]
fn row_cells_for_overused_spool() {
    let row = usage_row(&"Old".to_string(), 1200 * G);
    assert_eq!(row, vec!["Old", "1200", "-200", "[==================] 120%"]);
}

#[test]
fn names_compare_by_bytes() {
    assert!(name_less("Black Spool", "Blue Spool"));
    assert!(!name_less("Blue Spool", "Black Spool"));
    assert!(name_less("Z", "a"));
    assert!(name_less("ab", "abc"));
    assert!(!name_less("abc", "abc"));
    assert!(name_less("", "a"));
}

#[test]
fn ledger_keeps_names_ascending() {
    let l = seed_roster();
    let names: Vec<String> = entries(&l).into_iter().map(|e| e.0).collect();
    let mut sorted = names.clone();
    sorted.sort();
    assert_eq!(names, sorted);
    assert_eq!(names.len(), 7);
    assert_eq!(l.get("White Spool"), Some(823 * G));
    assert_eq!(l.get("Orange Spool"), Some(63 * G));
    assert_eq!(l.get("Purple Spool"), None);
}

#[test]
fn ledger_set_and_add() {
    let mut l = Ledger::new();
    assert_eq!(l.len(), 0);
    l.set(&"b".to_string(), 5);
    l.set(&"a".to_string(), 7);
    l.set(&"b".to_string(), 9);
    assert_eq!(entries(&l), vec![("a".to_string(), 7), ("b".to_string(), 9)]);
    assert!(l.add_usage(&"a".to_string(), 3));
    assert!(l.add_usage(&"c".to_string(), 4));
    assert_eq!(
        entries(&l),
        vec![("a".to_string(), 10), ("b".to_string(), 9), ("c".to_string(), 4)]
    );
}

#[test]
fn ledger_add_refuses_overflow() {
    let mut l = Ledger::new();
    l.set(&"a".to_string(), u128::MAX - 1);
    assert!(!l.add_usage(&"a".to_string(), 2));
    assert_eq!(l.get("a"), Some(u128::MAX - 1));
    assert!(l.add_usage(&"a".to_string(), 1));
    assert_eq!(l.get("a"), Some(u128::MAX));
}

#[test]
fn empty_history_keeps_seed() {
    let before = entries(&seed_roster());
    let after = aggregate(seed_roster(), &vec![]).unwrap();
    assert_eq!(entries(&after), before);
}

#[test]
fn unknown_label_adds_one_entry() {
    let after = aggregate(seed_roster(), &vec![job("Purple Spool", 1000)]).unwrap();
    assert_eq!(after.len(), 8);
    assert_eq!(after.get("Purple Spool"), Some(length_to_mass(1_000_000)));
    for (name, amount) in entries(&seed_roster()) {
        assert_eq!(after.get(&name), Some(amount));
    }
}

#[test]
fn same_known_label_twice() {
    let jobs = vec![job("White Spool", 5000), job("White Spool", 5000)];
    let after = aggregate(seed_roster(), &jobs).unwrap();
    assert_eq!(
        after.get("White Spool"),
        Some(823 * G + 2 * length_to_mass(5_000_000))
    );
    assert_eq!(used_grams(after.get("White Spool").unwrap()), 853);
    assert_eq!(after.len(), 7);
}

#[test]
fn labels_are_not_normalised() {
    let jobs = vec![job("white spool", 1000), job("White Spool ", 1000)];
    let after = aggregate(seed_roster(), &jobs).unwrap();
    assert_eq!(after.len(), 9);
    assert_eq!(after.get("White Spool"), Some(823 * G));
}

#[test]
fn aggregate_reports_overflow() {
    let mut seed = Ledger::new();
    seed.set(&"a".to_string(), u128::MAX - 10);
    assert!(aggregate(seed, &vec![job("a", 1)]).is_none());
}

#[test]
fn report_rows_start_with_header_and_ascend() {
    let rows = report_rows(&seed_roster());
    assert_eq!(rows[0], vec!["Spool Name", "Usage (g)", "Remaining (g)", "% Used"]);
    assert_eq!(rows.len(), 8);
    for w in rows[1..].windows(2) {
        assert!(w[0][0] < w[1][0]);
    }
    assert_eq!(rows[1][0], "Black Spool");
    assert_eq!(rows[7][0], "White Spool");
}

#[test]
fn empty_ledger_renders_header_only() {
    let rows = report_rows(&Ledger::new());
    assert_eq!(rows.len(), 1);
    let text = render_report(&Ledger::new());
    assert!(text.contains("Spool Name"));
    assert_eq!(text.lines().filter(|l| l.contains('[')).count(), 0);
}

#[test]
fn rendered_table_orders_rows() {
    let text = render_report(&seed_roster());
    let black = text.find("Black Spool").unwrap();
    let blue = text.find("Blue Spool").unwrap();
    let white = text.find("White Spool").unwrap();
    assert!(black < blue && blue < white);
    assert!(text.contains("823"));
    assert!(text.contains("[==============>...] 82%"));
    assert!(text.contains(" | "));
}

#[test]
fn success_status_range() {
    assert!(status_is_success(200));
    assert!(status_is_success(204));
    assert!(!status_is_success(500));
    assert!(!status_is_success(404));
    assert!(!status_is_success(199));
}

#[test]
fn schema_error_renders_seed() {
    let fetched = FetchOutcome::Answered { status: 200, jobs: None };
    let text = build_report(seed_roster(), fetched).unwrap();
    assert_eq!(text, render_report(&seed_roster()));
}

#[test]
fn upstream_500_gives_no_report() {
    let fetched = FetchOutcome::Answered { status: 500, jobs: Some(vec![]) };
    assert_eq!(build_report(seed_roster(), fetched), Err(ReportError::Status(500)));
}

#[test]
fn unreachable_service_gives_no_report() {
    assert_eq!(build_report(seed_roster(), FetchOutcome::Unreachable), Err(ReportError::Transport));
}

#[test]
fn fetched_jobs_are_reported() {
    let jobs = vec![job("White Spool", 5000), job("Purple Spool", 2000)];
    let fetched = FetchOutcome::Answered { status: 200, jobs: Some(jobs) };
    let text = build_report(seed_roster(), fetched).unwrap();
    let expected =
        aggregate(seed_roster(), &vec![job("White Spool", 5000), job("Purple Spool", 2000)])
            .unwrap();
    assert_eq!(text, render_report(&expected));
    assert!(text.contains("Purple Spool"));
    assert!(text.contains("838"));
}

#[test]
fn overflow_gives_no_report() {
    let mut seed = Ledger::new();
    seed.set(&"a".to_string(), u128::MAX);
    let fetched = FetchOutcome::Answered { status: 200, jobs: Some(vec![job("a", 1)]) };
    assert_eq!(build_report(seed, fetched), Err(ReportError::Overflow));
}

#[test]
fn decimal_text_values() {
    assert_eq!(decimal_text(0), "0");
    assert_eq!(decimal_text(7), "7");
    assert_eq!(decimal_text(10), "10");
    assert_eq!(decimal_text(1200), "1200");
    assert_eq!(decimal_text(u128::MAX), u128::MAX.to_string());
}

#[test]
fn display_name_replaces_escapes() {
    assert_eq!(display_name("White Spool"), "White Spool");
    assert_eq!(display_name("\u{1b}[31mRed"), "\u{fffd}[31mRed");
    assert_eq!(display_name("\u{1b}\u{1b}"), "\u{fffd}\u{fffd}");
    assert_eq!(display_name(""), "");
    assert_eq!(display_name("Kevin's Spool"), "Kevin's Spool");
}

#[test]
fn escape_in_label_still_renders() {
    let label = "\u{1b}[\u{5d0}\u{200d}\u{5dc}\u{5d0}\u{200d}\u{5dc}";
    let fetched = FetchOutcome::Answered { status: 200, jobs: Some(vec![job(label, 1000)]) };
    let text = build_report(seed_roster(), fetched).unwrap();
    assert!(!text.contains('\u{1b}'));
    assert!(text.contains("\u{fffd}["));
    let rows = report_rows(&aggregate(seed_roster(), &vec![job(label, 1000)]).unwrap());
    assert_eq!(rows.len(), 9);
    assert_eq!(rows[1][0], display_name(label));
}
