use vstd::prelude::*;
use crate::analytics::{
    Tally, TokenStats, empty_tally, add_tokens, add_count, add_usage, count_tools, count_assistant,
    step_entry, step_lines, step_logs, message_part, int_or_zero, usage_input, uuid_times,
    cutoff_spec, window_ms, recent, entry_project, entry_branch,
};
use crate::json::{Json, parsed_json, text_field};
use crate::clock::{Stamp, rfc3339_stamp};
use crate::text::{trim_spec, lines_spec};

verus! {

/// The token counts of a `usage` object are not negative.
pub open spec fn usage_nonneg(u: Json) -> bool {
    &&& int_or_zero(u, "input_tokens"@) >= 0
    &&& int_or_zero(u, "cache_creation_input_tokens"@) >= 0
    &&& int_or_zero(u, "cache_read_input_tokens"@) >= 0
    &&& int_or_zero(u, "output_tokens"@) >= 0
}

/// The token counts of an entry's `message.usage` are not negative.
pub open spec fn entry_nonneg(e: Json) -> bool {
    match message_part(e, "usage"@) {
        Some(u) => usage_nonneg(u),
        None => true,
    }
}

/// The entry that a log line holds.
pub open spec fn line_entry(line: Seq<char>) -> Option<Json> {
    let l = trim_spec(line);
    if l.len() == 0 {
        None
    } else {
        parsed_json(l)
    }
}

/// The token counts of every entry among `lines` are not negative.
pub open spec fn lines_nonneg(lines: Seq<Seq<char>>) -> bool
    decreases lines.len(),
{
    lines.len() == 0 || (lines_nonneg(lines.drop_last()) && match line_entry(lines.last()) {
        Some(e) => entry_nonneg(e),
        None => true,
    })
}

/// The token counts of every entry in the log files are not negative. A file
/// is its modification time, where known, and its text.
pub open spec fn files_nonneg(files: Seq<(Option<u64>, Seq<char>)>) -> bool
    decreases files.len(),
{
    files.len() == 0 || (files_nonneg(files.drop_last()) && lines_nonneg(
        lines_spec(files.last().1),
    ))
}

/// The texts of the files read for `cutoff`, in order.
pub open spec fn recent_texts(files: Seq<(Option<u64>, Seq<char>)>, cutoff: u64) -> Seq<Seq<char>>
    decreases files.len(),
{
    if files.len() == 0 {
        Seq::empty()
    } else {
        let r = recent_texts(files.drop_last(), cutoff);
        if recent(files.last().0, cutoff) {
            r.push(files.last().1)
        } else {
            r
        }
    }
}

/// No counter of `t` is negative, and there are 24 hours.
pub open spec fn counts_nonneg(t: Tally) -> bool {
    &&& forall|k: Seq<char>| #[trigger]
        t.by_project.contains_key(k) ==> 0 <= t.by_project[k].input && 0 <= t.by_project[k].output
    &&& forall|k: Seq<char>| #[trigger]
        t.by_branch.contains_key(k) ==> 0 <= t.by_branch[k].input && 0 <= t.by_branch[k].output
    &&& t.by_hour.len() == 24
    &&& forall|h: int| 0 <= h < 24 ==> 0 <= #[trigger] t.by_hour[h]
    &&& forall|k: Seq<char>| #[trigger] t.by_day.contains_key(k) ==> 0 <= t.by_day[k]
    &&& forall|k: Seq<char>| #[trigger] t.by_tool.contains_key(k) ==> 0 <= t.by_tool[k]
}

/// The tokens of `key` in `m`, none for a key not there.
pub open spec fn stats_at(m: Map<Seq<char>, TokenStats>, key: Seq<char>) -> TokenStats {
    if m.contains_key(key) {
        m[key]
    } else {
        TokenStats { input: 0, output: 0 }
    }
}

/// The count of `key` in `m`, 0 for a key not there.
pub open spec fn count_at(m: Map<Seq<char>, i64>, key: Seq<char>) -> int {
    if m.contains_key(key) {
        m[key] as int
    } else {
        0
    }
}

/// The input tokens of a `usage` object, summed exactly.
pub open spec fn usage_input_sum(u: Json) -> int {
    int_or_zero(u, "input_tokens"@) + int_or_zero(u, "cache_creation_input_tokens"@)
        + int_or_zero(u, "cache_read_input_tokens"@)
}

/// Adding `input` and `output` tokens to `key` takes neither count past `i64::MAX`.
pub open spec fn tokens_fit(m: Map<Seq<char>, TokenStats>, key: Seq<char>, input: int, output: int) -> bool {
    stats_at(m, key).input + input <= i64::MAX && stats_at(m, key).output + output <= i64::MAX
}

/// Counting `usage` for a project, a branch and a stamp takes no counter of
/// `t` past `i64::MAX`.
pub open spec fn usage_fits(t: Tally, u: Json, project: Seq<char>, branch: Seq<char>, st: Stamp) -> bool {
    let o = int_or_zero(u, "output_tokens"@) as int;
    &&& tokens_fit(t.by_project, project, usage_input_sum(u), o)
    &&& tokens_fit(t.by_branch, branch, usage_input_sum(u), o)
    &&& st.hour < 24 ==> t.by_hour[st.hour as int] + o <= i64::MAX
    &&& count_at(t.by_day, st.day@) + o <= i64::MAX
}

/// Counting the tool calls among `blocks` takes no tool's count past `i64::MAX`.
pub open spec fn tools_fit(t: Tally, blocks: Seq<Json>) -> bool
    decreases blocks.len(),
{
    if blocks.len() == 0 {
        true
    } else {
        let d = blocks.drop_last();
        let b = blocks.last();
        &&& tools_fit(t, d)
        &&& text_field(b, "type"@) == Some("tool_use"@) ==> match text_field(b, "name"@) {
            Some(n) => count_at(count_tools(t, d).by_tool, n) + 1 <= i64::MAX,
            None => true,
        }
    }
}

/// Counting an assistant entry stamped `st` takes no counter of `t` past `i64::MAX`.
pub open spec fn count_fits(t: Tally, e: Json, st: Stamp) -> bool {
    let p = entry_project(e);
    let br = entry_branch(e);
    let t1 = match message_part(e, "usage"@) {
        Some(u) => add_usage(t, u, p, br, st),
        None => t,
    };
    &&& match message_part(e, "usage"@) {
        Some(u) => usage_fits(t, u, p, br, st),
        None => true,
    }
    &&& match message_part(e, "content"@) {
        Some(Json::Array(blocks)) => tools_fit(t1, blocks@),
        _ => true,
    }
}

/// Counting a log entry for `cutoff` takes no counter of `t` past `i64::MAX`.
pub open spec fn entry_fits(t: Tally, e: Json, cutoff: u64) -> bool {
    text_field(e, "type"@) == Some("assistant"@) ==> match text_field(e, "timestamp"@) {
        Some(ts) => match rfc3339_stamp(ts) {
            Some(st) => st.millis < cutoff || count_fits(t, e, st),
            None => true,
        },
        None => true,
    }
}

/// Counting `lines` in order takes no counter past `i64::MAX`.
pub open spec fn lines_fit(t: Tally, lines: Seq<Seq<char>>, times: Map<Seq<char>, i64>, cutoff: u64) -> bool
    decreases lines.len(),
{
    lines.len() == 0 || (lines_fit(t, lines.drop_last(), times, cutoff) && match line_entry(
        lines.last(),
    ) {
        Some(e) => entry_fits(step_lines(t, lines.drop_last(), times, cutoff), e, cutoff),
        None => true,
    })
}

/// Counting the session logs `logs` in order takes no counter past
/// `i64::MAX`: no sum that the analytics keep ever overflows.
pub open spec fn logs_fit(t: Tally, logs: Seq<Seq<char>>, cutoff: u64) -> bool
    decreases logs.len(),
{
    logs.len() == 0 || (logs_fit(t, logs.drop_last(), cutoff) && {
        let lines = lines_spec(logs.last());
        lines_fit(step_logs(t, logs.drop_last(), cutoff), lines, uuid_times(lines), cutoff)
    })
}

/// Every key of `m1` is in `m2`, with no more tokens.
pub open spec fn stats_le(m1: Map<Seq<char>, TokenStats>, m2: Map<Seq<char>, TokenStats>) -> bool {
    forall|k: Seq<char>| #[trigger]
        m1.contains_key(k) ==> m2.contains_key(k) && m1[k].input <= m2[k].input && m1[k].output
            <= m2[k].output
}

/// Every key of `m1` is in `m2`, with no larger count.
pub open spec fn counts_le(m1: Map<Seq<char>, i64>, m2: Map<Seq<char>, i64>) -> bool {
    forall|k: Seq<char>| #[trigger] m1.contains_key(k) ==> m2.contains_key(k) && m1[k] <= m2[k]
}

/// Each of the 24 hours counts no more in `s1` than in `s2`.
pub open spec fn hours_le(s1: Seq<i64>, s2: Seq<i64>) -> bool {
    s1.len() == 24 && s2.len() == 24 && forall|h: int| 0 <= h < 24 ==> #[trigger] s1[h] <= s2[h]
}

/// `t1` counts no more than `t2`: every project, branch, day and tool of `t1`
/// is in `t2` with no larger count, and so is every hour.
pub open spec fn counted_no_more(t1: Tally, t2: Tally) -> bool {
    &&& stats_le(t1.by_project, t2.by_project)
    &&& stats_le(t1.by_branch, t2.by_branch)
    &&& hours_le(t1.by_hour, t2.by_hour)
    &&& counts_le(t1.by_day, t2.by_day)
    &&& counts_le(t1.by_tool, t2.by_tool)
}

proof fn lemma_no_more_trans(t1: Tally, t2: Tally, t3: Tally)
    requires
        counted_no_more(t1, t2),
        counted_no_more(t2, t3),
    ensures
        counted_no_more(t1, t3),
{
}

proof fn lemma_add_tokens(
    m1: Map<Seq<char>, TokenStats>,
    m2: Map<Seq<char>, TokenStats>,
    k: Seq<char>,
    i: i64,
    o: i64,
)
    requires
        stats_le(m1, m2),
        forall|x: Seq<char>| #[trigger] m1.contains_key(x) ==> 0 <= m1[x].input && 0 <= m1[x].output,
        forall|x: Seq<char>| #[trigger] m2.contains_key(x) ==> 0 <= m2[x].input && 0 <= m2[x].output,
        0 <= i,
        0 <= o,
        tokens_fit(m2, k, i as int, o as int),
    ensures
        stats_le(add_tokens(m1, k, i, o), add_tokens(m2, k, i, o)),
        stats_le(m2, add_tokens(m2, k, i, o)),
        forall|x: Seq<char>| #[trigger] add_tokens(m1, k, i, o).contains_key(x) ==> 0 <= add_tokens(m1, k, i, o)[x].input && 0 <= add_tokens(m1, k, i, o)[x].output,
        forall|x: Seq<char>| #[trigger] add_tokens(m2, k, i, o).contains_key(x) ==> 0 <= add_tokens(m2, k, i, o)[x].input && 0 <= add_tokens(m2, k, i, o)[x].output,
{
    let n1 = add_tokens(m1, k, i, o);
    let n2 = add_tokens(m2, k, i, o);
    if m1.contains_key(k) {
        assert(m2.contains_key(k));
    }
    assert forall|x: Seq<char>| #[trigger] n1.contains_key(x) implies n2.contains_key(x)
        && n1[x].input <= n2[x].input && n1[x].output <= n2[x].output by {
        if x != k {
            assert(m1.contains_key(x));
        }
    }
    assert forall|x: Seq<char>| #[trigger] m2.contains_key(x) implies n2.contains_key(x)
        && m2[x].input <= n2[x].input && m2[x].output <= n2[x].output by {}
    assert forall|x: Seq<char>| #[trigger] n1.contains_key(x) implies 0 <= n1[x].input && 0 <= n1[x].output by {
        if x != k {
            assert(m1.contains_key(x));
        }
    }
    assert forall|x: Seq<char>| #[trigger] n2.contains_key(x) implies 0 <= n2[x].input && 0 <= n2[x].output by {
        if x != k {
            assert(m2.contains_key(x));
        }
    }
}

proof fn lemma_add_count(m1: Map<Seq<char>, i64>, m2: Map<Seq<char>, i64>, k: Seq<char>, n: i64)
    requires
        counts_le(m1, m2),
        forall|x: Seq<char>| #[trigger] m1.contains_key(x) ==> 0 <= m1[x],
        forall|x: Seq<char>| #[trigger] m2.contains_key(x) ==> 0 <= m2[x],
        0 <= n,
        count_at(m2, k) + n <= i64::MAX,
    ensures
        counts_le(add_count(m1, k, n), add_count(m2, k, n)),
        counts_le(m2, add_count(m2, k, n)),
        forall|x: Seq<char>| #[trigger] add_count(m1, k, n).contains_key(x) ==> 0 <= add_count(m1, k, n)[x],
        forall|x: Seq<char>| #[trigger] add_count(m2, k, n).contains_key(x) ==> 0 <= add_count(m2, k, n)[x],
{
    let n1 = add_count(m1, k, n);
    let n2 = add_count(m2, k, n);
    if m1.contains_key(k) {
        assert(m2.contains_key(k));
    }
    assert forall|x: Seq<char>| #[trigger] n1.contains_key(x) implies n2.contains_key(x)
        && n1[x] <= n2[x] by {
        if x != k {
            assert(m1.contains_key(x));
        }
    }
    assert forall|x: Seq<char>| #[trigger] m2.contains_key(x) implies n2.contains_key(x) && m2[x]
        <= n2[x] by {}
    assert forall|x: Seq<char>| #[trigger] n1.contains_key(x) implies 0 <= n1[x] by {
        if x != k {
            assert(m1.contains_key(x));
        }
    }
    assert forall|x: Seq<char>| #[trigger] n2.contains_key(x) implies 0 <= n2[x] by {
        if x != k {
            assert(m2.contains_key(x));
        }
    }
}

proof fn lemma_usage(
    t1: Tally,
    t2: Tally,
    u: Json,
    project: Seq<char>,
    branch: Seq<char>,
    st: Stamp,
)
    requires
        counted_no_more(t1, t2),
        counts_nonneg(t1),
        counts_nonneg(t2),
        usage_nonneg(u),
        usage_fits(t2, u, project, branch, st),
    ensures
        counted_no_more(add_usage(t1, u, project, branch, st), add_usage(t2, u, project, branch, st)),
        counted_no_more(t2, add_usage(t2, u, project, branch, st)),
        counts_nonneg(add_usage(t1, u, project, branch, st)),
        counts_nonneg(add_usage(t2, u, project, branch, st)),
{
    let o = int_or_zero(u, "output_tokens"@);
    let input = usage_input(u);
    assert(stats_at(t2.by_project, project).input >= 0);
    assert(input == usage_input_sum(u));
    lemma_add_tokens(t1.by_project, t2.by_project, project, input, o);
    lemma_add_tokens(t1.by_branch, t2.by_branch, branch, input, o);
    lemma_add_count(t1.by_day, t2.by_day, st.day@, o);
    let n1 = add_usage(t1, u, project, branch, st);
    let n2 = add_usage(t2, u, project, branch, st);
    assert forall|h: int| 0 <= h < 24 implies #[trigger] n1.by_hour[h] <= n2.by_hour[h] && t2.by_hour[h]
        <= n2.by_hour[h] && 0 <= n1.by_hour[h] && 0 <= n2.by_hour[h] by {
        assert(t1.by_hour[h] <= t2.by_hour[h]);
        assert(0 <= t1.by_hour[h]);
        assert(0 <= t2.by_hour[h]);
    }
}

proof fn lemma_tools(t1: Tally, t2: Tally, blocks: Seq<Json>)
    requires
        counted_no_more(t1, t2),
        counts_nonneg(t1),
        counts_nonneg(t2),
        tools_fit(t2, blocks),
    ensures
        counted_no_more(count_tools(t1, blocks), count_tools(t2, blocks)),
        counted_no_more(t2, count_tools(t2, blocks)),
        counts_nonneg(count_tools(t1, blocks)),
        counts_nonneg(count_tools(t2, blocks)),
    decreases blocks.len(),
{
    if blocks.len() > 0 {
        let d = blocks.drop_last();
        lemma_tools(t1, t2, d);
        let s1 = count_tools(t1, d);
        let s2 = count_tools(t2, d);
        let bl = blocks.last();
        if text_field(bl, "type"@) == Some("tool_use"@) {
            if let Some(n) = text_field(bl, "name"@) {
                lemma_add_count(s1.by_tool, s2.by_tool, n, 1);
            }
        }
        lemma_no_more_trans(t2, s2, count_tools(t2, blocks));
    }
}

proof fn lemma_count_entry(t1: Tally, t2: Tally, e: Json, st: Stamp, c1: u64, c2: u64)
    requires
        counted_no_more(t1, t2),
        counts_nonneg(t1),
        counts_nonneg(t2),
        entry_nonneg(e),
        count_fits(t2, e, st),
        !(st.millis < c1),
        !(st.millis < c2),
    ensures
        counted_no_more(count_assistant(t1, e, st, c1), count_assistant(t2, e, st, c2)),
        counted_no_more(t2, count_assistant(t2, e, st, c2)),
        counts_nonneg(count_assistant(t1, e, st, c1)),
        counts_nonneg(count_assistant(t2, e, st, c2)),
{
    let p = entry_project(e);
    let br = entry_branch(e);
    let a1 = match message_part(e, "usage"@) {
        Some(u) => add_usage(t1, u, p, br, st),
        None => t1,
    };
    let a2 = match message_part(e, "usage"@) {
        Some(u) => add_usage(t2, u, p, br, st),
        None => t2,
    };
    if let Some(u) = message_part(e, "usage"@) {
        lemma_usage(t1, t2, u, p, br, st);
    }
    assert(counts_nonneg(a1) && counts_nonneg(a2) && counted_no_more(a1, a2) && counted_no_more(t2, a2));
    if let Some(Json::Array(blocks)) = message_part(e, "content"@) {
        lemma_tools(a1, a2, blocks@);
        lemma_no_more_trans(t2, a2, count_tools(a2, blocks@));
    }
}

proof fn lemma_entry(
    t1: Tally,
    t2: Tally,
    e: Json,
    times: Map<Seq<char>, i64>,
    c1: u64,
    c2: u64,
)
    requires
        counted_no_more(t1, t2),
        counts_nonneg(t1),
        counts_nonneg(t2),
        entry_nonneg(e),
        entry_fits(t2, e, c2),
        c2 <= c1,
    ensures
        counted_no_more(step_entry(t1, e, times, c1), step_entry(t2, e, times, c2)),
        counted_no_more(t2, step_entry(t2, e, times, c2)),
        counts_nonneg(step_entry(t1, e, times, c1)),
        counts_nonneg(step_entry(t2, e, times, c2)),
{
    let kind = match text_field(e, "type"@) {
        Some(k) => k,
        None => Seq::empty(),
    };
    reveal_strlit("assistant");
    reveal_strlit("last-prompt");
    assert("assistant"@.len() == 9);
    assert("last-prompt"@.len() == 11);
    if kind == "last-prompt"@ {
    } else if kind == "assistant"@ {
        if let Some(ts) = text_field(e, "timestamp"@) {
            if let Some(st) = rfc3339_stamp(ts) {
                if !(st.millis < c1) {
                    lemma_count_entry(t1, t2, e, st, c1, c2);
                } else if !(st.millis < c2) {
                    lemma_count_entry(t2, t2, e, st, c2, c2);
                    lemma_no_more_trans(t1, t2, count_assistant(t2, e, st, c2));
                }
            }
        }
    }
}

proof fn lemma_lines(
    t1: Tally,
    t2: Tally,
    lines: Seq<Seq<char>>,
    times: Map<Seq<char>, i64>,
    c1: u64,
    c2: u64,
)
    requires
        counted_no_more(t1, t2),
        counts_nonneg(t1),
        counts_nonneg(t2),
        lines_nonneg(lines),
        lines_fit(t2, lines, times, c2),
        c2 <= c1,
    ensures
        counted_no_more(step_lines(t1, lines, times, c1), step_lines(t2, lines, times, c2)),
        counted_no_more(t2, step_lines(t2, lines, times, c2)),
        counts_nonneg(step_lines(t1, lines, times, c1)),
        counts_nonneg(step_lines(t2, lines, times, c2)),
    decreases lines.len(),
{
    if lines.len() > 0 {
        let d = lines.drop_last();
        lemma_lines(t1, t2, d, times, c1, c2);
        let s1 = step_lines(t1, d, times, c1);
        let s2 = step_lines(t2, d, times, c2);
        if let Some(e) = line_entry(lines.last()) {
            lemma_entry(s1, s2, e, times, c1, c2);
            lemma_no_more_trans(t2, s2, step_entry(s2, e, times, c2));
        }
    }
}

proof fn lemma_files(
    t1: Tally,
    t2: Tally,
    files: Seq<(Option<u64>, Seq<char>)>,
    c1: u64,
    c2: u64,
)
    requires
        counted_no_more(t1, t2),
        counts_nonneg(t1),
        counts_nonneg(t2),
        files_nonneg(files),
        logs_fit(t2, recent_texts(files, c2), c2),
        c2 <= c1,
    ensures
        counted_no_more(
            step_logs(t1, recent_texts(files, c1), c1),
            step_logs(t2, recent_texts(files, c2), c2),
        ),
        counts_nonneg(step_logs(t1, recent_texts(files, c1), c1)),
        counts_nonneg(step_logs(t2, recent_texts(files, c2), c2)),
    decreases files.len(),
{
    if files.len() > 0 {
        let d = files.drop_last();
        let f = files.last();
        let lines = lines_spec(f.1);
        let times = uuid_times(lines);
        let r1 = recent_texts(d, c1);
        let r2 = recent_texts(d, c2);
        assert(r1.push(f.1).drop_last() =~= r1);
        assert(r2.push(f.1).drop_last() =~= r2);
        lemma_files(t1, t2, d, c1, c2);
        let s1 = step_logs(t1, r1, c1);
        let s2 = step_logs(t2, r2, c2);
        if recent(f.0, c1) {
            lemma_lines(s1, s2, lines, times, c1, c2);
        } else if recent(f.0, c2) {
            lemma_lines(s2, s2, lines, times, c2, c2);
            lemma_no_more_trans(s1, s2, step_lines(s2, lines, times, c2));
        }
    }
}

proof fn lemma_cutoff_narrows(now_ms: u64, d1: i32, d2: i32)
    requires
        0 <= d1 <= d2,
    ensures
        cutoff_spec(now_ms, d2) <= cutoff_spec(now_ms, d1),
{
    let a: int = d1 as int;
    let z: int = d2 as int;
    assert(a * 86_400_000 <= z * 86_400_000) by (nonlinear_arith)
        requires
            0 <= a <= z,
    ;
    assert(z * 86_400_000 < 0x1_0000_0000_0000_0000) by (nonlinear_arith)
        requires
            0 <= z < 0x8000_0000,
    ;
    assert((d1 as u64) as int == a);
    assert((d2 as u64) as int == z);
    assert(window_ms(d1) as int == a * 86_400_000);
    assert(window_ms(d2) as int == z * 86_400_000);
}

/// A wider window counts no less: with the same log files and the same
/// present time, analytics over `d1` days count, for every project, branch,
/// hour, day and tool, no more than analytics over `d2 >= d1` days, provided
/// no token count in the logs is negative and no counter of the analytics
/// over `d2` days passes `i64::MAX` as it is summed.
pub proof fn law_wider_window_counts_no_less(
    files: Seq<(Option<u64>, Seq<char>)>,
    now_ms: u64,
    d1: i32,
    d2: i32,
)
    requires
        0 <= d1 <= d2,
        files_nonneg(files),
        logs_fit(
            empty_tally(),
            recent_texts(files, cutoff_spec(now_ms, d2)),
            cutoff_spec(now_ms, d2),
        ),
    ensures
        counted_no_more(
            step_logs(
                empty_tally(),
                recent_texts(files, cutoff_spec(now_ms, d1)),
                cutoff_spec(now_ms, d1),
            ),
            step_logs(
                empty_tally(),
                recent_texts(files, cutoff_spec(now_ms, d2)),
                cutoff_spec(now_ms, d2),
            ),
        ),
{
    lemma_cutoff_narrows(now_ms, d1, d2);
    let t = empty_tally();
    assert(counts_nonneg(t));
    assert(counted_no_more(t, t));
    lemma_files(t, t, files, cutoff_spec(now_ms, d1), cutoff_spec(now_ms, d2));
}

} // verus!
