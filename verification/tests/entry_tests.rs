use claude_usage::analytics::{
    analytics_from_logs, latest_time, skill_of, stamp_of_entry, LogKeys, Tallies,
};
use claude_usage::clock::{millis_from_elapsed, Stamp};
use claude_usage::json::Json;
use claude_usage::token::{json_access_token, text_access_token};

fn s(x: &str) -> Json {
    Json::Str(x.to_string())
}

fn obj(members: Vec<(&str, Json)>) -> Json {
    Json::Object(members.into_iter().map(|(k, v)| (k.to_string(), v)).collect())
}

fn num(n: i64) -> Json {
    Json::Number(Some(n))
}

#[test]
fn document_token_from_built_json() {
    let doc = obj(vec![("accessToken", s("abc"))]);
    assert_eq!(json_access_token(&doc), Some("abc".to_string()));
    let doc = obj(vec![("a", obj(vec![("x", num(1))])), ("b", obj(vec![("accessToken", s("nested"))]))]);
    assert_eq!(json_access_token(&doc), Some("nested".to_string()));
    let doc = obj(vec![("accessToken", num(3))]);
    assert_eq!(json_access_token(&doc), None);
    assert_eq!(json_access_token(&Json::Array(vec![s("accessToken")])), None);
}

#[test]
fn text_token_search() {
    assert_eq!(text_access_token(r#""accessToken":"t1""#), Some("t1".to_string()));
    assert_eq!(text_access_token(r#"x "accessToken" :	 "t2" y"#), Some("t2".to_string()));
    assert_eq!(text_access_token(r#""accessToken" "t3""#), None);
    assert_eq!(text_access_token("nothing"), None);
}

#[test]
fn elapsed_time_in_millis() {
    assert_eq!(millis_from_elapsed(Some((1_735_732_800, 999_999_999))), 1_735_732_800_999);
    assert_eq!(millis_from_elapsed(Some((0, 1_999_999))), 1);
    assert_eq!(millis_from_elapsed(None), 0);
    assert_eq!(millis_from_elapsed(Some((u64::MAX, 0))), u64::MAX.wrapping_mul(1000));
}

#[test]
fn entry_stamps() {
    let w = LogKeys::new();
    let e = obj(vec![("uuid", s("u1")), ("timestamp", s("1970-01-01T00:00:01Z"))]);
    assert_eq!(stamp_of_entry(&e, &w), Some(("u1".to_string(), 1000)));
    let e = obj(vec![("uuid", s("u2")), ("timestamp", s("1969-12-31T23:59:59Z"))]);
    assert_eq!(stamp_of_entry(&e, &w), Some(("u2".to_string(), -1000)));
    let e = obj(vec![("uuid", s("u3"))]);
    assert_eq!(stamp_of_entry(&e, &w), None);
    let times = vec![("a".to_string(), 1), ("b".to_string(), 2), ("a".to_string(), 3)];
    assert_eq!(latest_time(&times, &"a".to_string()), Some(3));
    assert_eq!(latest_time(&times, &"c".to_string()), None);
}

#[test]
fn skill_names() {
    assert_eq!(skill_of("/review-pr 12"), Some("review-pr".to_string()));
    assert_eq!(skill_of("/a/b"), Some("a".to_string()));
    assert_eq!(skill_of("/"), None);
    assert_eq!(skill_of("//x"), None);
    assert_eq!(skill_of("review"), None);
}

fn assistant(ts: &str, output: i64) -> Json {
    obj(vec![
        ("type", s("assistant")),
        ("timestamp", s(ts)),
        ("message", obj(vec![("usage", obj(vec![("output_tokens", num(output))]))])),
    ])
}

#[test]
fn entries_counted_by_tallies() {
    let w = LogKeys::new();
    let mut t = Tallies::new();
    t.step_entry(&assistant("2025-01-02T05:00:00Z", 4), &vec![], 1_000, &w);
    t.step_entry(&assistant("1969-12-31T23:00:00Z", 100), &vec![], 1_000, &w);
    t.step_entry(&obj(vec![("type", s("user")), ("timestamp", s("2025-01-02T05:00:00Z"))]), &vec![], 1_000, &w);
    let prompt = obj(vec![("type", s("last-prompt")), ("leafUuid", s("p")), ("lastPrompt", s("/go"))]);
    t.step_entry(&prompt, &vec![("p".to_string(), -5)], 1_000, &w);
    t.step_entry(&prompt, &vec![("p".to_string(), 2_000)], 1_000, &w);
    t.step_entry(&prompt, &vec![], 1_000, &w);
    let a = t.into_analytics(1);
    assert_eq!(a.by_hour[5], 4);
    assert_eq!(a.by_hour.iter().sum::<i64>(), 4);
    let skills: Vec<(String, i64)> = a.by_skill.entries().clone();
    assert_eq!(skills, vec![("go".to_string(), 1)]);
}

#[test]
fn entries_before_1970_are_old() {
    let log = r#"{"type":"assistant","timestamp":"1969-12-31T23:59:59Z","message":{"usage":{"output_tokens":5}}}"#;
    let a = analytics_from_logs(&vec![log.to_string()], 1_735_689_600_000, 7);
    assert!(a.by_day.entries().is_empty());
    assert_eq!(a.by_hour.iter().sum::<i64>(), 0);
}

#[test]
fn assistant_counted_by_its_stamp() {
    let w = LogKeys::new();
    let mut t = Tallies::new();
    let e = obj(vec![
        ("type", s("assistant")),
        ("cwd", s("/w/site")),
        ("gitBranch", s("main")),
        (
            "message",
            obj(vec![
                ("usage", obj(vec![("input_tokens", num(2)), ("cache_read_input_tokens", num(3)), ("output_tokens", num(7))])),
                ("content", Json::Array(vec![obj(vec![("type", s("tool_use")), ("name", s("Grep"))])])),
            ]),
        ),
    ]);
    let at = |millis: i64, hour: u32| Stamp { millis, hour, day: "2025-02-03".to_string() };
    t.count_assistant(&e, at(5_000, 14), 1_000, &w);
    t.count_assistant(&e, at(999, 15), 1_000, &w);
    t.count_assistant(&e, at(-2_000, 16), 1_000, &w);
    let a = t.into_analytics(1);
    let p: Vec<(String, i64, i64)> = a.by_project.entries().iter().map(|(k, v)| (k.clone(), v.input, v.output)).collect();
    assert_eq!(p, vec![("site".to_string(), 5, 7)]);
    assert_eq!(a.by_hour[14], 7);
    assert_eq!(a.by_hour[15], 0);
    assert_eq!(a.by_day.entries().clone(), vec![("2025-02-03".to_string(), 7)]);
    assert_eq!(a.by_tool.entries().clone(), vec![("Grep".to_string(), 1)]);
}
