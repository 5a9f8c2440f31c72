use claude_usage::analytics::{
    analytics_cutoff, analytics_days, analytics_from_logs, file_is_recent, is_session_log,
    AnalyticsData, TokenStats,
};
use claude_usage::str_map::StrMap;

const CUTOFF: u64 = 1_735_689_600_000; // 2025-01-01T00:00:00Z

fn count(m: &StrMap<i64>, key: &str) -> Option<i64> {
    m.entries().iter().find(|(k, _)| k == key).map(|(_, v)| *v)
}

fn tokens(m: &StrMap<TokenStats>, key: &str) -> Option<(i64, i64)> {
    m.entries().iter().find(|(k, _)| k == key).map(|(_, v)| (v.input, v.output))
}

fn first_log() -> String {
    [
        r#"{"type":"user","uuid":"u1","timestamp":"2025-01-02T10:00:00Z"}"#,
        r#"{"type":"assistant","uuid":"a1","timestamp":"2025-01-02T10:05:00Z","cwd":"/home/me/proj","gitBranch":"main","message":{"usage":{"input_tokens":10,"cache_creation_input_tokens":5,"cache_read_input_tokens":2,"output_tokens":7},"content":[{"type":"tool_use","name":"Bash"},{"type":"text","text":"hi"},{"type":"tool_use","name":"Read"},{"type":"tool_use"}]}}"#,
        "",
        "   ",
        "this is not json",
        r#"{"type":"assistant","timestamp":"2025-01-03T23:30:00+02:00","message":{"usage":{"input_tokens":1,"output_tokens":3}}}"#,
        r#"{"type":"last-prompt","leafUuid":"a1","lastPrompt":"  /review-pr 123"}"#,
        r#"{"type":"last-prompt","leafUuid":"a1","lastPrompt":"/other"}"#,
        r#"{"type":"last-prompt","leafUuid":"zz","lastPrompt":"/"}"#,
        r#"{"type":"assistant","timestamp":"2024-12-31T00:00:00Z","cwd":"/home/me/old","message":{"usage":{"input_tokens":100,"output_tokens":100},"content":[{"type":"tool_use","name":"Old"}]}}"#,
        r#"{"type":"user","uuid":"old1","timestamp":"2024-12-01T00:00:00Z"}"#,
        r#"{"type":"last-prompt","leafUuid":"old1","lastPrompt":"/stale"}"#,
        r#"{"type":"assistant","timestamp":"not a time","message":{"usage":{"output_tokens":9}}}"#,
    ]
    .join("\n")
}

fn second_log() -> String {
    [
        r#"{"type":"last-prompt","leafUuid":"a1","lastPrompt":"/again"}"#,
        r#"{"type":"last-prompt","leafUuid":"b2","lastPrompt":"/review-pr\tfast"}"#,
        r#"{"type":"assistant","timestamp":"2025-01-02T10:59:59Z","cwd":"/home/me/proj","gitBranch":"dev","message":{"usage":{"input_tokens":4,"output_tokens":1}}}"#,
    ]
    .join("\r\n")
}

fn sample() -> AnalyticsData {
    analytics_from_logs(&vec![first_log(), second_log()], CUTOFF, 7)
}

#[test]
fn tokens_by_project_and_branch() {
    let a = sample();
    assert_eq!(tokens(&a.by_project, "proj"), Some((21, 8)));
    assert_eq!(tokens(&a.by_project, "unknown"), Some((1, 3)));
    assert_eq!(tokens(&a.by_project, "old"), None);
    assert_eq!(a.by_project.entries().len(), 2);
    assert_eq!(tokens(&a.by_branch, "main"), Some((17, 7)));
    assert_eq!(tokens(&a.by_branch, "dev"), Some((4, 1)));
    assert_eq!(tokens(&a.by_branch, "unknown"), Some((1, 3)));
    assert_eq!(a.days, 7);
}

#[test]
fn output_by_hour_and_day() {
    let a = sample();
    assert_eq!(a.by_hour.len(), 24);
    assert_eq!(a.by_hour[10], 8);
    assert_eq!(a.by_hour[23], 3);
    assert_eq!(a.by_hour.iter().sum::<i64>(), 11);
    assert_eq!(count(&a.by_day, "2025-01-02"), Some(8));
    assert_eq!(count(&a.by_day, "2025-01-03"), Some(3));
    assert_eq!(a.by_day.entries().len(), 2);
}

#[test]
fn tool_calls_counted() {
    let a = sample();
    assert_eq!(count(&a.by_tool, "Bash"), Some(1));
    assert_eq!(count(&a.by_tool, "Read"), Some(1));
    assert_eq!(count(&a.by_tool, "Old"), None);
    assert_eq!(a.by_tool.entries().len(), 2);
}

#[test]
fn skills_counted_once_per_prompt() {
    let a = sample();
    assert_eq!(count(&a.by_skill, "review-pr"), Some(2));
    assert_eq!(count(&a.by_skill, "other"), None);
    assert_eq!(count(&a.by_skill, "again"), None);
    assert_eq!(count(&a.by_skill, "stale"), None);
    assert_eq!(a.by_skill.entries().len(), 1);
}

#[test]
fn no_logs_no_counts() {
    let a = analytics_from_logs(&vec![], CUTOFF, 30);
    assert_eq!(a.by_hour, vec![0i64; 24]);
    assert!(a.by_project.entries().is_empty());
    assert!(a.by_skill.entries().is_empty());
    assert_eq!(a.days, 30);
}

#[test]
fn wrapping_sums() {
    let log = [
        r#"{"type":"assistant","timestamp":"2025-01-02T00:00:00Z","message":{"usage":{"output_tokens":9223372036854775807}}}"#,
        r#"{"type":"assistant","timestamp":"2025-01-02T00:00:00Z","message":{"usage":{"output_tokens":1}}}"#,
    ]
    .join("\n");
    let a = analytics_from_logs(&vec![log], CUTOFF, 1);
    assert_eq!(a.by_hour[0], i64::MIN);
}

#[test]
fn cutoff_for_days() {
    assert_eq!(analytics_cutoff(1_000_000_000_000, 1), 1_000_000_000_000 - 86_400_000);
    assert_eq!(analytics_cutoff(1_000_000_000_000, 30), 1_000_000_000_000 - 30 * 86_400_000);
    assert_eq!(analytics_cutoff(1_000, 1), 0);
    assert_eq!(analytics_cutoff(1_000, 0), 1_000);
    assert_eq!(analytics_cutoff(1_000_000_000_000, -1), 0);
}

#[test]
fn default_days() {
    assert_eq!(analytics_days(None), 30);
    assert_eq!(analytics_days(Some(7)), 7);
}

#[test]
fn recent_files_and_extensions() {
    assert!(file_is_recent(Some(10), 10));
    assert!(!file_is_recent(Some(9), 10));
    assert!(file_is_recent(None, 10));
    assert!(is_session_log("jsonl"));
    assert!(!is_session_log("json"));
    assert!(!is_session_log(""));
}

#[test]
fn totals_agree_across_maps() {
    let a = sample();
    let hours: i64 = a.by_hour.iter().sum();
    let days: i64 = a.by_day.entries().iter().map(|(_, v)| *v).sum();
    let projects_out: i64 = a.by_project.entries().iter().map(|(_, v)| v.output).sum();
    let branches_out: i64 = a.by_branch.entries().iter().map(|(_, v)| v.output).sum();
    let projects_in: i64 = a.by_project.entries().iter().map(|(_, v)| v.input).sum();
    let branches_in: i64 = a.by_branch.entries().iter().map(|(_, v)| v.input).sum();
    assert_eq!(hours, 11);
    assert_eq!(days, hours);
    assert_eq!(projects_out, hours);
    assert_eq!(branches_out, hours);
    assert_eq!(projects_in, 22);
    assert_eq!(branches_in, projects_in);
}

fn window(files: &[(Option<u64>, String)], now: u64, days: i32) -> AnalyticsData {
    let cutoff = analytics_cutoff(now, days);
    let logs: Vec<String> = files
        .iter()
        .filter(|(m, _)| file_is_recent(*m, cutoff))
        .map(|(_, t)| t.clone())
        .collect();
    analytics_from_logs(&logs, cutoff, days)
}

#[test]
fn wider_window_counts_no_less() {
    let day: u64 = 86_400_000;
    let now = CUTOFF + 10 * day;
    let older = [
        r#"{"type":"assistant","timestamp":"2025-01-03T08:00:00Z","cwd":"/w/a","gitBranch":"main","message":{"usage":{"input_tokens":5,"output_tokens":6},"content":[{"type":"tool_use","name":"Edit"}]}}"#,
        r#"{"type":"assistant","timestamp":"2025-01-10T08:00:00Z","cwd":"/w/b","gitBranch":"main","message":{"usage":{"input_tokens":1,"output_tokens":2}}}"#,
    ]
    .join("\n");
    let newer = r#"{"type":"assistant","timestamp":"2025-01-10T09:00:00Z","cwd":"/w/a","gitBranch":"dev","message":{"usage":{"input_tokens":3,"output_tokens":4},"content":[{"type":"tool_use","name":"Edit"}]}}"#.to_string();
    let files = vec![
        (Some(CUTOFF + 2 * day), first_log()),
        (Some(CUTOFF + 9 * day), older),
        (None, newer),
    ];
    let narrow = window(&files, now, 1);
    let wide = window(&files, now, 10);
    assert_eq!(tokens(&narrow.by_project, "a"), Some((3, 4)));
    assert_eq!(tokens(&wide.by_project, "a"), Some((8, 10)));
    assert_eq!(tokens(&narrow.by_project, "b"), Some((1, 2)));
    assert_eq!(tokens(&wide.by_project, "b"), Some((1, 2)));
    assert_eq!(count(&narrow.by_tool, "Edit"), Some(1));
    assert_eq!(count(&wide.by_tool, "Edit"), Some(2));
    for (k, v) in narrow.by_branch.entries().iter() {
        let w = tokens(&wide.by_branch, k).unwrap();
        assert!(v.input <= w.0 && v.output <= w.1);
    }
    for (k, v) in narrow.by_day.entries().iter() {
        assert!(*v <= count(&wide.by_day, k).unwrap());
    }
    for h in 0..24 {
        assert!(narrow.by_hour[h] <= wide.by_hour[h]);
    }
    assert_eq!(narrow.by_hour[8], 2);
    assert_eq!(wide.by_hour[8], 8);
}
