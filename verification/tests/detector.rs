use linux_teasing::adjtime::hwclock_mode_from_adjtime;
use linux_teasing::detector::{judge, judge_with_mode, update_state_after_judgment, Judgment};
use linux_teasing::state::AppState;

fn empty_state() -> AppState {
    AppState::default()
}

fn state_with_tz(tz: &str) -> AppState {
    AppState { last_known_timezone: tz.to_string(), last_judgment_timestamp: 0 }
}

#[test]
fn utc_mode_is_silent() {
    assert!(matches!(
        judge_with_mode(Some("UTC".to_string()), &empty_state()),
        Judgment::Silent
    ));
}

#[test]
fn local_mode_first_time_is_guilty() {
    assert!(matches!(
        judge_with_mode(Some("LOCAL".to_string()), &empty_state()),
        Judgment::Guilty
    ));
}

#[test]
fn local_mode_already_recorded_is_silent() {
    assert!(matches!(
        judge_with_mode(Some("LOCAL".to_string()), &state_with_tz("LOCAL")),
        Judgment::Silent
    ));
}

#[test]
fn missing_adjtime_is_silent() {
    assert!(matches!(judge_with_mode(None, &empty_state()), Judgment::Silent));
}

#[test]
fn unknown_value_is_silent() {
    assert!(matches!(
        judge_with_mode(Some("WEIRD".to_string()), &empty_state()),
        Judgment::Silent
    ));
}

#[test]
fn parse_utc_returns_utc() {
    let content = "0.0 0 0.0\n0\nUTC\n";
    assert_eq!(hwclock_mode_from_adjtime(content), Some("UTC".to_string()));
}

#[test]
fn parse_local_lowercase_and_whitespace() {
    let content = "0.0 0 0.0\n0\n local \n";
    assert_eq!(hwclock_mode_from_adjtime(content), Some("LOCAL".to_string()));
}

#[test]
fn too_few_lines_returns_none() {
    let content = "0.0 0 0.0\n0\n";
    assert_eq!(hwclock_mode_from_adjtime(content), None);
}

#[test]
fn empty_third_line_returns_none() {
    let content = "0.0 0 0.0\n0\n   \n";
    assert_eq!(hwclock_mode_from_adjtime(content), None);
}

#[test]
fn judge_reads_the_third_line() {
    let state = empty_state();
    assert_eq!(judge(Some("0.0 0 0.0\n0\nLOCAL\n"), &state), Judgment::Guilty);
    assert_eq!(judge(Some("0.0 0 0.0\n0\nlocal"), &state), Judgment::Guilty);
    assert_eq!(judge(Some("0.0 0 0.0\n0\nUTC\n"), &state), Judgment::Silent);
    assert_eq!(judge(Some("LOCAL\n0\n0\n"), &state), Judgment::Silent);
    assert_eq!(judge(None, &state), Judgment::Silent);
    assert_eq!(judge(Some(""), &state), Judgment::Silent);
}

#[test]
fn judge_with_recorded_local_is_silent() {
    assert_eq!(judge(Some("0.0 0 0.0\n0\nLOCAL\n"), &state_with_tz("LOCAL")), Judgment::Silent);
}

#[test]
fn judge_with_other_recorded_mode_is_guilty() {
    assert_eq!(judge(Some("0.0 0 0.0\n0\nLOCAL\n"), &state_with_tz("UTC")), Judgment::Guilty);
}

#[test]
fn crlf_line_endings_are_stripped() {
    assert_eq!(hwclock_mode_from_adjtime("0.0 0 0.0\r\n0\r\nlocal\r\n"), Some("LOCAL".to_string()));
}

#[test]
fn third_line_without_final_newline() {
    assert_eq!(hwclock_mode_from_adjtime("a\nb\n\tUtc"), Some("UTC".to_string()));
}

#[test]
fn lone_carriage_return_at_end_is_whitespace() {
    // without a following line feed the `\r` stays in the line, and trimming removes it
    assert_eq!(hwclock_mode_from_adjtime("a\nb\nlocal\r"), Some("LOCAL".to_string()));
}

#[test]
fn blank_lines_count_as_lines() {
    assert_eq!(hwclock_mode_from_adjtime("\n\nx\n"), Some("X".to_string()));
    assert_eq!(hwclock_mode_from_adjtime("\n\n"), None);
    assert_eq!(hwclock_mode_from_adjtime("\n\n\n"), None);
}

#[test]
fn unicode_uppercasing_and_whitespace() {
    // U+00A0 is white space; the sharp s upper-cases to two letters
    assert_eq!(hwclock_mode_from_adjtime("1\n2\n\u{a0}straße\u{2003}\n"), Some("STRASSE".to_string()));
}

#[test]
fn later_lines_are_ignored() {
    assert_eq!(hwclock_mode_from_adjtime("1\n2\nutc\nLOCAL\n"), Some("UTC".to_string()));
}

#[test]
fn state_update_records_mode_and_time() {
    let s = update_state_after_judgment(Some("0.0 0 0.0\n0\n local\n"), Some(1_700_000_000));
    assert_eq!(s.last_known_timezone, "LOCAL");
    assert_eq!(s.last_judgment_timestamp, 1_700_000_000);
}

#[test]
fn state_update_without_mode_records_utc() {
    let s = update_state_after_judgment(None, None);
    assert_eq!(s.last_known_timezone, "UTC");
    assert_eq!(s.last_judgment_timestamp, 0);
    let s = update_state_after_judgment(Some("only one line"), Some(7));
    assert_eq!(s.last_known_timezone, "UTC");
    assert_eq!(s.last_judgment_timestamp, 7);
}

#[test]
fn state_update_timestamp_wraps_as_a_cast() {
    let s = update_state_after_judgment(None, Some(u64::MAX));
    assert_eq!(s.last_judgment_timestamp, -1);
}

#[test]
fn judged_once_then_silent() {
    let adjtime = Some("0.0 0 0.0\n0\nLOCAL\n");
    let first = empty_state();
    assert_eq!(judge(adjtime, &first), Judgment::Guilty);
    let next = update_state_after_judgment(adjtime, Some(100));
    assert_eq!(judge(adjtime, &next), Judgment::Silent);
    let again = update_state_after_judgment(adjtime, Some(200));
    assert_eq!(judge(adjtime, &again), Judgment::Silent);
}

#[test]
fn deleting_the_state_judges_again() {
    let adjtime = Some("0.0 0 0.0\n0\nLOCAL\n");
    let _recorded = update_state_after_judgment(adjtime, Some(100));
    let fresh = AppState::load(None);
    assert_eq!(judge(adjtime, &fresh), Judgment::Guilty);
}

#[test]
fn switching_back_to_local_is_judged_again() {
    let local = Some("0.0 0 0.0\n0\nLOCAL\n");
    let utc = Some("0.0 0 0.0\n0\nUTC\n");
    let after_local = update_state_after_judgment(local, Some(1));
    let after_utc = update_state_after_judgment(utc, Some(2));
    assert_eq!(judge(utc, &after_local), Judgment::Silent);
    assert_eq!(judge(local, &after_utc), Judgment::Guilty);
}

#[test]
fn load_keeps_a_stored_state() {
    let s = AppState::load(Some(state_with_tz("LOCAL")));
    assert_eq!(s.last_known_timezone, "LOCAL");
    let d = AppState::load(None);
    assert_eq!(d.last_known_timezone, "");
    assert_eq!(d.last_judgment_timestamp, 0);
}

#[test]
fn only_the_third_lines_text_counts() {
    let a = hwclock_mode_from_adjtime("0.0 0 0.0\n0\n  Local\t\nfourth\n");
    let b = hwclock_mode_from_adjtime("1 2 3\n4\r\nLOCAL\r\n");
    assert_eq!(a, b);
    assert_eq!(a, Some("LOCAL".to_string()));
}
