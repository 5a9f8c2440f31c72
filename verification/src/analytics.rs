use vstd::prelude::*;
use crate::json::{Json, parsed_json, parse_json, json_get, text_field, int_field};
use crate::text::{
    trim_spec, trim_start_spec, is_space, lines_spec, path_file_name, opt_text, trim, trim_start,
    chars_of, is_white_space, text_lines, file_name_of,
};
use crate::clock::{Stamp, rfc3339_stamp, parse_rfc3339};
use crate::str_map::{StrMap, map_of};
use crate::totals::{
    totals_agree, total, hours_total, congruent, output_of, input_of, count_of,
    lemma_usage_agrees, lemma_tools_keep_totals, lemma_empty_totals_agree,
};

verus! {

/// Tokens counted for a project or a branch.
#[derive(Debug, Clone, Copy)]
pub struct TokenStats {
    pub input: i64,
    pub output: i64,
}

impl Default for TokenStats {
    /// No tokens.
    fn default() -> (r: TokenStats)
        ensures
            r.input == 0,
            r.output == 0,
    {
        TokenStats { input: 0, output: 0 }
    }
}

/// The token usage found in the session logs of the last `days` days: input and
/// output tokens per project and per branch, output tokens per hour of day and
/// per calendar day, tool calls per tool, and skill runs per skill.
#[derive(Debug)]
pub struct AnalyticsData {
    pub by_project: StrMap<TokenStats>,
    pub by_branch: StrMap<TokenStats>,
    pub by_hour: Vec<i64>,
    pub by_day: StrMap<i64>,
    pub by_tool: StrMap<i64>,
    pub by_skill: StrMap<i64>,
    pub days: i32,
}

/// The counts as the logs are read: the analytics, and the prompts already
/// counted as skill runs.
#[verifier::ext_equal]
pub struct Tally {
    pub by_project: Map<Seq<char>, TokenStats>,
    pub by_branch: Map<Seq<char>, TokenStats>,
    pub by_hour: Seq<i64>,
    pub by_day: Map<Seq<char>, i64>,
    pub by_tool: Map<Seq<char>, i64>,
    pub by_skill: Map<Seq<char>, i64>,
    pub seen_prompts: Set<Seq<char>>,
}

/// Nothing counted yet: empty maps and 24 hours at zero.
pub open spec fn empty_tally() -> Tally {
    Tally {
        by_project: Map::empty(),
        by_branch: Map::empty(),
        by_hour: Seq::new(24, |i: int| 0i64),
        by_day: Map::empty(),
        by_tool: Map::empty(),
        by_skill: Map::empty(),
        seen_prompts: Set::empty(),
    }
}

/// `m` with `input` and `output` added to the tokens of `key`, counted from zero
/// for a new key; the sums wrap as `i64` addition does in a release build.
pub open spec fn add_tokens(
    m: Map<Seq<char>, TokenStats>,
    key: Seq<char>,
    input: i64,
    output: i64,
) -> Map<Seq<char>, TokenStats> {
    let cur = if m.contains_key(key) {
        m[key]
    } else {
        TokenStats { input: 0, output: 0 }
    };
    m.insert(
        key,
        TokenStats { input: cur.input.wrapping_add(input), output: cur.output.wrapping_add(output) },
    )
}

/// `m` with `n` added to the count of `key`, counted from zero for a new key.
pub open spec fn add_count(m: Map<Seq<char>, i64>, key: Seq<char>, n: i64) -> Map<Seq<char>, i64> {
    let cur = if m.contains_key(key) {
        m[key]
    } else {
        0
    };
    m.insert(key, cur.wrapping_add(n))
}

/// The value of an integer member, 0 when it is missing or not an `i64`.
pub open spec fn int_or_zero(v: Json, key: Seq<char>) -> i64 {
    match int_field(v, key) {
        Some(n) => n,
        None => 0,
    }
}

/// The uuid and the time in milliseconds since the Unix epoch that a log
/// entry records, if it has a string `uuid` and an RFC 3339 string `timestamp`.
pub open spec fn entry_stamp(e: Json) -> Option<(Seq<char>, i64)> {
    match (text_field(e, "uuid"@), text_field(e, "timestamp"@)) {
        (Some(u), Some(ts)) => match rfc3339_stamp(ts) {
            Some(st) => Some((u, st.millis)),
            None => None,
        },
        _ => None,
    }
}

/// The uuid and time that one log line records, if it is such a JSON entry.
pub open spec fn line_stamp(line: Seq<char>) -> Option<(Seq<char>, i64)> {
    let l = trim_spec(line);
    if l.len() == 0 {
        None
    } else {
        match parsed_json(l) {
            Some(e) => entry_stamp(e),
            None => None,
        }
    }
}

/// The time of each uuid that `lines` record; a later line for a uuid wins.
pub open spec fn uuid_times(lines: Seq<Seq<char>>) -> Map<Seq<char>, i64>
    decreases lines.len(),
{
    if lines.len() == 0 {
        Map::empty()
    } else {
        let m = uuid_times(lines.drop_last());
        match line_stamp(lines.last()) {
            Some((u, t)) => m.insert(u, t),
            None => m,
        }
    }
}

/// The first position at or after `j` of a `/` or a white-space character, or `s.len()`.
pub open spec fn skill_end(s: Seq<char>, j: int) -> int
    decreases s.len() - j,
{
    if j < 0 || j >= s.len() {
        j
    } else if s[j] == '/' || is_space(s[j]) {
        j
    } else {
        skill_end(s, j + 1)
    }
}

/// The skill that a prompt runs: a prompt of more than one character that starts
/// with `/` runs the skill named by what follows, up to the next `/` or white
/// space, if that name is not empty.
pub open spec fn skill_name(prompt: Seq<char>) -> Option<Seq<char>> {
    if prompt.len() > 1 && prompt[0] == '/' {
        let e = skill_end(prompt, 1);
        if e > 1 {
            Some(prompt.subrange(1, e))
        } else {
            None
        }
    } else {
        None
    }
}

/// A `last-prompt` entry: a prompt that runs a skill counts once per `leafUuid`,
/// unless the uuid's recorded time is before the cutoff.
pub open spec fn step_prompt(t: Tally, e: Json, times: Map<Seq<char>, i64>, cutoff: u64) -> Tally {
    match text_field(e, "leafUuid"@) {
        None => t,
        Some(leaf) => {
            if times.contains_key(leaf) && times[leaf] < cutoff {
                t
            } else {
                let raw = match text_field(e, "lastPrompt"@) {
                    Some(p) => p,
                    None => Seq::empty(),
                };
                match skill_name(trim_start_spec(raw)) {
                    Some(skill) => if t.seen_prompts.contains(leaf) {
                        t
                    } else {
                        Tally {
                            seen_prompts: t.seen_prompts.insert(leaf),
                            by_skill: add_count(t.by_skill, skill, 1),
                            ..t
                        }
                    },
                    None => t,
                }
            }
        },
    }
}

/// Member `key` of the entry's `message`.
pub open spec fn message_part(e: Json, key: Seq<char>) -> Option<Json> {
    match json_get(e, "message"@) {
        Some(m) => json_get(m, key),
        None => None,
    }
}

/// The input tokens of a `usage` object: fresh, cache-creating and cache-read input.
pub open spec fn usage_input(u: Json) -> i64 {
    int_or_zero(u, "input_tokens"@).wrapping_add(
        int_or_zero(u, "cache_creation_input_tokens"@),
    ).wrapping_add(int_or_zero(u, "cache_read_input_tokens"@))
}

/// Counts one `usage` object of an assistant entry.
pub open spec fn add_usage(
    t: Tally,
    u: Json,
    project: Seq<char>,
    branch: Seq<char>,
    st: Stamp,
) -> Tally {
    let input = usage_input(u);
    let output = int_or_zero(u, "output_tokens"@);
    Tally {
        by_project: add_tokens(t.by_project, project, input, output),
        by_branch: add_tokens(t.by_branch, branch, input, output),
        by_hour: if st.hour < 24 {
            t.by_hour.update(st.hour as int, t.by_hour[st.hour as int].wrapping_add(output))
        } else {
            t.by_hour
        },
        by_day: add_count(t.by_day, st.day@, output),
        ..t
    }
}

/// Counts the `tool_use` blocks among `blocks` by their `name`.
pub open spec fn count_tools(t: Tally, blocks: Seq<Json>) -> Tally
    decreases blocks.len(),
{
    if blocks.len() == 0 {
        t
    } else {
        let t0 = count_tools(t, blocks.drop_last());
        let b = blocks.last();
        if text_field(b, "type"@) == Some("tool_use"@) {
            match text_field(b, "name"@) {
                Some(n) => Tally { by_tool: add_count(t0.by_tool, n, 1), ..t0 },
                None => t0,
            }
        } else {
            t0
        }
    }
}

/// The project an assistant entry belongs to: the last component of its `cwd`,
/// or `unknown`.
pub open spec fn entry_project(e: Json) -> Seq<char> {
    match text_field(e, "cwd"@) {
        Some(c) => match path_file_name(c) {
            Some(n) => n,
            None => "unknown"@,
        },
        None => "unknown"@,
    }
}

/// The branch an assistant entry belongs to: its `gitBranch`, or `unknown`.
pub open spec fn entry_branch(e: Json) -> Seq<char> {
    match text_field(e, "gitBranch"@) {
        Some(b) => b,
        None => "unknown"@,
    }
}

/// An `assistant` entry stamped `st`, unless `st` is before the cutoff: its
/// `message.usage` counts for its project, branch, hour and day, and its
/// `message.content` blocks count as tool calls.
pub open spec fn count_assistant(t: Tally, e: Json, st: Stamp, cutoff: u64) -> Tally {
    if st.millis < cutoff {
        t
    } else {
        let t1 = match message_part(e, "usage"@) {
            Some(u) => add_usage(t, u, entry_project(e), entry_branch(e), st),
            None => t,
        };
        match message_part(e, "content"@) {
            Some(Json::Array(blocks)) => count_tools(t1, blocks@),
            _ => t1,
        }
    }
}

/// An `assistant` entry with an RFC 3339 `timestamp`, counted by that stamp.
pub open spec fn step_assistant(t: Tally, e: Json, cutoff: u64) -> Tally {
    match text_field(e, "timestamp"@) {
        None => t,
        Some(ts) => match rfc3339_stamp(ts) {
            None => t,
            Some(st) => count_assistant(t, e, st, cutoff),
        },
    }
}

/// One parsed log entry, by its `type`.
pub open spec fn step_entry(t: Tally, e: Json, times: Map<Seq<char>, i64>, cutoff: u64) -> Tally {
    let kind = match text_field(e, "type"@) {
        Some(k) => k,
        None => Seq::empty(),
    };
    if kind == "last-prompt"@ {
        step_prompt(t, e, times, cutoff)
    } else if kind == "assistant"@ {
        step_assistant(t, e, cutoff)
    } else {
        t
    }
}

/// One log line: blank lines and lines that are not JSON count for nothing.
pub open spec fn step_line(t: Tally, line: Seq<char>, times: Map<Seq<char>, i64>, cutoff: u64) -> Tally {
    let l = trim_spec(line);
    if l.len() == 0 {
        t
    } else {
        match parsed_json(l) {
            Some(e) => step_entry(t, e, times, cutoff),
            None => t,
        }
    }
}

/// The lines, in order.
pub open spec fn step_lines(t: Tally, lines: Seq<Seq<char>>, times: Map<Seq<char>, i64>, cutoff: u64) -> Tally
    decreases lines.len(),
{
    if lines.len() == 0 {
        t
    } else {
        step_line(step_lines(t, lines.drop_last(), times, cutoff), lines.last(), times, cutoff)
    }
}

/// One session log: its lines, with the uuid times that the log records.
pub open spec fn step_log(t: Tally, text: Seq<char>, cutoff: u64) -> Tally {
    let lines = lines_spec(text);
    step_lines(t, lines, uuid_times(lines), cutoff)
}

/// The session logs, in order.
pub open spec fn step_logs(t: Tally, logs: Seq<Seq<char>>, cutoff: u64) -> Tally
    decreases logs.len(),
{
    if logs.len() == 0 {
        t
    } else {
        step_log(step_logs(t, logs.drop_last(), cutoff), logs.last(), cutoff)
    }
}

/// The texts of the logs.
pub open spec fn texts(logs: Seq<String>) -> Seq<Seq<char>> {
    logs.map_values(|s: String| s@)
}

impl AnalyticsData {
    /// There are 24 hours.
    pub open spec fn wf(&self) -> bool {
        self.by_hour@.len() == 24
    }

    /// The analytics hold the counts of `t`.
    pub open spec fn holds(&self, t: Tally) -> bool {
        &&& self.by_project@ == t.by_project
        &&& self.by_branch@ == t.by_branch
        &&& self.by_hour@ == t.by_hour
        &&& self.by_day@ == t.by_day
        &&& self.by_tool@ == t.by_tool
        &&& self.by_skill@ == t.by_skill
    }
}

} // verus!

verus! {

/// The member names and words that the session logs use.
pub struct LogKeys {
    kind: String,
    last_prompt_kind: String,
    assistant: String,
    leaf_uuid: String,
    last_prompt: String,
    timestamp: String,
    uuid: String,
    cwd: String,
    git_branch: String,
    message: String,
    usage: String,
    input_tokens: String,
    cache_creation: String,
    cache_read: String,
    output_tokens: String,
    content: String,
    tool_use: String,
    name: String,
    unknown: String,
}

impl LogKeys {
    /// Each holds its word.
    pub closed spec fn wf(&self) -> bool {
        &&& self.kind@ == "type"@
        &&& self.last_prompt_kind@ == "last-prompt"@
        &&& self.assistant@ == "assistant"@
        &&& self.leaf_uuid@ == "leafUuid"@
        &&& self.last_prompt@ == "lastPrompt"@
        &&& self.timestamp@ == "timestamp"@
        &&& self.uuid@ == "uuid"@
        &&& self.cwd@ == "cwd"@
        &&& self.git_branch@ == "gitBranch"@
        &&& self.message@ == "message"@
        &&& self.usage@ == "usage"@
        &&& self.input_tokens@ == "input_tokens"@
        &&& self.cache_creation@ == "cache_creation_input_tokens"@
        &&& self.cache_read@ == "cache_read_input_tokens"@
        &&& self.output_tokens@ == "output_tokens"@
        &&& self.content@ == "content"@
        &&& self.tool_use@ == "tool_use"@
        &&& self.name@ == "name"@
        &&& self.unknown@ == "unknown"@
    }

    /// The words.
    pub fn new() -> (r: LogKeys)
        ensures
            r.wf(),
    {
        LogKeys {
            kind: String::from_str("type"),
            last_prompt_kind: String::from_str("last-prompt"),
            assistant: String::from_str("assistant"),
            leaf_uuid: String::from_str("leafUuid"),
            last_prompt: String::from_str("lastPrompt"),
            timestamp: String::from_str("timestamp"),
            uuid: String::from_str("uuid"),
            cwd: String::from_str("cwd"),
            git_branch: String::from_str("gitBranch"),
            message: String::from_str("message"),
            usage: String::from_str("usage"),
            input_tokens: String::from_str("input_tokens"),
            cache_creation: String::from_str("cache_creation_input_tokens"),
            cache_read: String::from_str("cache_read_input_tokens"),
            output_tokens: String::from_str("output_tokens"),
            content: String::from_str("content"),
            tool_use: String::from_str("tool_use"),
            name: String::from_str("name"),
            unknown: String::from_str("unknown"),
        }
    }
}

/// The counts kept while the logs are read.
pub struct Tallies {
    by_project: StrMap<TokenStats>,
    by_branch: StrMap<TokenStats>,
    by_hour: Vec<i64>,
    by_day: StrMap<i64>,
    by_tool: StrMap<i64>,
    by_skill: StrMap<i64>,
    seen: StrMap<bool>,
}

impl Tallies {
    /// There are 24 hours.
    pub closed spec fn wf(&self) -> bool {
        self.by_hour@.len() == 24
    }

    /// The counts so far.
    pub closed spec fn tally(&self) -> Tally {
        Tally {
            by_project: self.by_project@,
            by_branch: self.by_branch@,
            by_hour: self.by_hour@,
            by_day: self.by_day@,
            by_tool: self.by_tool@,
            by_skill: self.by_skill@,
            seen_prompts: self.seen@.dom(),
        }
    }

    /// Nothing counted yet.
    pub fn new() -> (r: Tallies)
        ensures
            r.wf(),
            r.tally() == empty_tally(),
            totals_agree(r.tally()),
    {
        proof {
            lemma_empty_totals_agree();
        }
        let by_hour: Vec<i64> = vec![0i64; 24];
        let r = Tallies {
            by_project: StrMap::new(),
            by_branch: StrMap::new(),
            by_hour,
            by_day: StrMap::new(),
            by_tool: StrMap::new(),
            by_skill: StrMap::new(),
            seen: StrMap::new(),
        };
        assert(r.by_hour@ =~= Seq::new(24, |i: int| 0i64));
        assert(r.seen@.dom() =~= Set::<Seq<char>>::empty());
        r
    }
}

fn add_tokens_to(m: &mut StrMap<TokenStats>, key: String, input: i64, output: i64)
    ensures
        final(m)@ == add_tokens(old(m)@, key@, input, output),
{
    let cur: TokenStats = match m.get(&key) {
        Some(s) => *s,
        None => TokenStats::default(),
    };
    m.insert(
        key,
        TokenStats { input: cur.input.wrapping_add(input), output: cur.output.wrapping_add(output) },
    );
}

fn add_count_to(m: &mut StrMap<i64>, key: String, n: i64)
    ensures
        final(m)@ == add_count(old(m)@, key@, n),
{
    let cur: i64 = match m.get(&key) {
        Some(c) => *c,
        None => 0,
    };
    m.insert(key, cur.wrapping_add(n));
}

fn int_or_zero_of(v: &Json, key: &String) -> (r: i64)
    ensures
        r == int_or_zero(*v, key@),
{
    match v.int_field(key) {
        Some(n) => n,
        None => 0,
    }
}

/// The uuid and time that a log entry records.
pub fn stamp_of_entry(e: &Json, w: &LogKeys) -> (r: Option<(String, i64)>)
    requires
        w.wf(),
    ensures
        r matches Some(p) ==> entry_stamp(*e) == Some((p.0@, p.1)),
        r is None ==> entry_stamp(*e) is None,
{
    let u = match e.text_field(&w.uuid) {
        Some(u) => u,
        None => return None,
    };
    let ts = match e.text_field(&w.timestamp) {
        Some(ts) => ts,
        None => return None,
    };
    match parse_rfc3339(ts.as_str()) {
        Some(st) => Some((u.clone(), st.millis)),
        None => None,
    }
}

/// The uuid and time that a log line records.
fn stamp_of_line(line: &String, w: &LogKeys) -> (r: Option<(String, i64)>)
    requires
        w.wf(),
    ensures
        r matches Some(p) ==> line_stamp(line@) == Some((p.0@, p.1)),
        r is None ==> line_stamp(line@) is None,
{
    let l = trim(line.as_str());
    if l.is_empty() {
        return None;
    }
    match parse_json(l) {
        Some(e) => stamp_of_entry(&e, w),
        None => None,
    }
}

/// The uuid times of a log's lines, as a list in which a later entry wins.
pub fn uuid_index(lines: &Vec<String>, w: &LogKeys) -> (r: Vec<(String, i64)>)
    requires
        w.wf(),
    ensures
        map_of(r@) == uuid_times(texts(lines@)),
{
    let mut r: Vec<(String, i64)> = Vec::new();
    let n: usize = lines.len();
    let ghost ls = texts(lines@);
    assert(ls.take(0) =~= Seq::<Seq<char>>::empty());
    for i in 0..n
        invariant
            n == lines@.len(),
            ls == texts(lines@),
            w.wf(),
            map_of(r@) == uuid_times(ls.take(i as int)),
    {
        assert(ls.take(i + 1).drop_last() =~= ls.take(i as int));
        assert(ls.take(i + 1).last() == lines@[i as int]@);
        let ghost before = r@;
        match stamp_of_line(&lines[i], w) {
            Some(p) => {
                r.push(p);
                assert(r@.drop_last() =~= before);
            },
            None => {},
        }
    }
    assert(ls.take(n as int) =~= ls);
    r
}

/// The time of the last entry for `key`.
pub fn latest_time(times: &Vec<(String, i64)>, key: &String) -> (r: Option<i64>)
    ensures
        r matches Some(t) ==> map_of(times@).contains_key(key@) && map_of(times@)[key@] == t,
        r is None ==> !map_of(times@).contains_key(key@),
{
    proof {
        crate::str_map::lemma_map_of(times@, key@);
    }
    let mut i: usize = times.len();
    while i > 0
        invariant
            i <= times@.len(),
            forall|j: int| i <= j < times@.len() ==> times@[j].0@ != key@,
        decreases i,
    {
        i = i - 1;
        if times[i].0 == *key {
            assert(forall|j: int| i < j < times@.len() ==> times@[j].0@ != key@);
            assert(times@[i as int].0@ == key@);
            proof {
                crate::str_map::lemma_map_of(times@, key@);
            }
            return Some(times[i].1);
        }
    }
    None
}

/// The skill that a (left-trimmed) prompt runs.
pub fn skill_of(prompt: &str) -> (r: Option<String>)
    ensures
        opt_text(r) == skill_name(prompt@),
{
    let cs = chars_of(prompt);
    let n: usize = cs.len();
    if n <= 1 || cs[0] != '/' {
        return None;
    }
    let mut j: usize = 1;
    while j < n && !(cs[j] == '/' || is_white_space(cs[j]))
        invariant
            1 <= j <= n,
            n == cs@.len(),
            cs@ == prompt@,
            skill_end(prompt@, 1) == skill_end(prompt@, j as int),
        decreases n - j,
    {
        j = j + 1;
    }
    if j > 1 {
        let name = prompt.substring_char(1, j);
        Some(String::from_str(name))
    } else {
        None
    }
}

impl Tallies {
    /// Counts a `last-prompt` entry.
    pub fn step_prompt(&mut self, e: &Json, times: &Vec<(String, i64)>, cutoff: u64, w: &LogKeys)
        requires
            old(self).wf(),
            w.wf(),
        ensures
            final(self).wf(),
            totals_agree(old(self).tally()) ==> totals_agree(final(self).tally()),
            final(self).tally() == step_prompt(old(self).tally(), *e, map_of(times@), cutoff),
    {
        let leaf = match e.text_field(&w.leaf_uuid) {
            Some(l) => l,
            None => return,
        };
        if let Some(t) = latest_time(times, leaf) {
            if (t as i128) < (cutoff as i128) {
                return;
            }
        }
        let raw: &str = match e.text_field(&w.last_prompt) {
            Some(p) => p.as_str(),
            None => {
                proof {
                    reveal_strlit("");
                }
                ""
            },
        };
        let prompt = trim_start(raw);
        if let Some(skill) = skill_of(prompt) {
            if !self.seen.contains_key(leaf) {
                self.seen.insert(leaf.clone(), true);
                add_count_to(&mut self.by_skill, skill, 1);
                assert(self.tally().seen_prompts =~= old(self).tally().seen_prompts.insert(leaf@));
            }
        }
        assert(self.tally() =~= step_prompt(old(self).tally(), *e, map_of(times@), cutoff));
    }

    /// Counts the tool calls among `blocks`.
    pub fn count_tools(&mut self, blocks: &Vec<Json>, w: &LogKeys)
        requires
            old(self).wf(),
            w.wf(),
        ensures
            final(self).wf(),
            totals_agree(old(self).tally()) ==> totals_agree(final(self).tally()),
            final(self).tally() == count_tools(old(self).tally(), blocks@),
    {
        let ghost t0 = self.tally();
        let n: usize = blocks.len();
        assert(blocks@.take(0) =~= Seq::<Json>::empty());
        for i in 0..n
            invariant
                n == blocks@.len(),
                w.wf(),
                self.wf(),
                self.tally() == count_tools(t0, blocks@.take(i as int)),
        {
            assert(blocks@.take(i + 1).drop_last() =~= blocks@.take(i as int));
            assert(blocks@.take(i + 1).last() == blocks@[i as int]);
            let b = &blocks[i];
            let is_tool: bool = match b.text_field(&w.kind) {
                Some(k) => *k == w.tool_use,
                None => false,
            };
            if is_tool {
                if let Some(name) = b.text_field(&w.name) {
                    add_count_to(&mut self.by_tool, name.clone(), 1);
                }
            }
            assert(self.tally() =~= count_tools(t0, blocks@.take(i + 1)));
        }
        assert(blocks@.take(n as int) =~= blocks@);
        proof {
            lemma_tools_keep_totals(t0, blocks@);
        }
    }

    /// Counts an `assistant` entry stamped `st`, unless `st` is before the cutoff.
    pub fn count_assistant(&mut self, e: &Json, st: Stamp, cutoff: u64, w: &LogKeys)
        requires
            old(self).wf(),
            w.wf(),
        ensures
            final(self).wf(),
            totals_agree(old(self).tally()) && st.hour < 24 ==> totals_agree(final(self).tally()),
            final(self).tally() == count_assistant(old(self).tally(), *e, st, cutoff),
    {
        if (st.millis as i128) < (cutoff as i128) {
            return;
        }
        let project: String = match e.text_field(&w.cwd) {
            Some(c) => match file_name_of(c.as_str()) {
                Some(n) => n,
                None => w.unknown.clone(),
            },
            None => w.unknown.clone(),
        };
        let branch: String = match e.text_field(&w.git_branch) {
            Some(b) => b.clone(),
            None => w.unknown.clone(),
        };
        let message = e.get(&w.message);
        let usage: Option<&Json> = match message {
            Some(m) => m.get(&w.usage),
            None => None,
        };
        let ghost t0 = self.tally();
        let ghost st0 = st;
        if let Some(u) = usage {
            let input: i64 = int_or_zero_of(u, &w.input_tokens).wrapping_add(
                int_or_zero_of(u, &w.cache_creation),
            ).wrapping_add(int_or_zero_of(u, &w.cache_read));
            let output: i64 = int_or_zero_of(u, &w.output_tokens);
            add_tokens_to(&mut self.by_project, project, input, output);
            add_tokens_to(&mut self.by_branch, branch, input, output);
            let hour: usize = st.hour as usize;
            if hour < 24 {
                let h: i64 = self.by_hour[hour].wrapping_add(output);
                self.by_hour.set(hour, h);
            }
            add_count_to(&mut self.by_day, st.day, output);
            assert(self.tally() =~= add_usage(t0, *u, entry_project(*e), entry_branch(*e), st0));
            proof {
                if totals_agree(t0) && st0.hour < 24 {
                    lemma_usage_agrees(t0, *u, entry_project(*e), entry_branch(*e), st0);
                }
            }
        }
        let content: Option<&Json> = match message {
            Some(m) => m.get(&w.content),
            None => None,
        };
        if let Some(c) = content {
            if let Some(blocks) = c.as_array() {
                self.count_tools(blocks, w);
            }
        }
    }

    /// Counts an `assistant` entry by its `timestamp`.
    pub fn step_assistant(&mut self, e: &Json, cutoff: u64, w: &LogKeys)
        requires
            old(self).wf(),
            w.wf(),
        ensures
            final(self).wf(),
            totals_agree(old(self).tally()) ==> totals_agree(final(self).tally()),
            final(self).tally() == step_assistant(old(self).tally(), *e, cutoff),
    {
        let ts = match e.text_field(&w.timestamp) {
            Some(ts) => ts,
            None => return,
        };
        let st = match parse_rfc3339(ts.as_str()) {
            Some(st) => st,
            None => return,
        };
        self.count_assistant(e, st, cutoff, w);
    }

    /// Counts one parsed log entry, by its `type`.
    pub fn step_entry(&mut self, e: &Json, times: &Vec<(String, i64)>, cutoff: u64, w: &LogKeys)
        requires
            old(self).wf(),
            w.wf(),
        ensures
            final(self).wf(),
            totals_agree(old(self).tally()) ==> totals_agree(final(self).tally()),
            final(self).tally() == step_entry(old(self).tally(), *e, map_of(times@), cutoff),
    {
        let is_prompt: bool;
        let is_assistant: bool;
        match e.text_field(&w.kind) {
            Some(k) => {
                is_prompt = *k == w.last_prompt_kind;
                is_assistant = *k == w.assistant;
            },
            None => {
                proof {
                    reveal_strlit("last-prompt");
                    reveal_strlit("assistant");
                    assert("last-prompt"@.len() == 11);
                    assert("assistant"@.len() == 9);
                }
                is_prompt = false;
                is_assistant = false;
            },
        }
        if is_prompt {
            self.step_prompt(e, times, cutoff, w);
        } else if is_assistant {
            self.step_assistant(e, cutoff, w);
        }
    }

    /// Counts one log line: blank lines and lines that are not JSON count for nothing.
    pub fn step_line(&mut self, line: &String, times: &Vec<(String, i64)>, cutoff: u64, w: &LogKeys)
        requires
            old(self).wf(),
            w.wf(),
        ensures
            final(self).wf(),
            totals_agree(old(self).tally()) ==> totals_agree(final(self).tally()),
            final(self).tally() == step_line(old(self).tally(), line@, map_of(times@), cutoff),
    {
        let l = trim(line.as_str());
        if l.is_empty() {
            return;
        }
        let e = match parse_json(l) {
            Some(e) => e,
            None => return,
        };
        self.step_entry(&e, times, cutoff, w);
    }

    /// The analytics counted, for a window of `days` days.
    pub fn into_analytics(self, days: i32) -> (r: AnalyticsData)
        requires
            self.wf(),
        ensures
            r.wf(),
            r.days == days,
            r.holds(self.tally()),
    {
        AnalyticsData {
            by_project: self.by_project,
            by_branch: self.by_branch,
            by_hour: self.by_hour,
            by_day: self.by_day,
            by_tool: self.by_tool,
            by_skill: self.by_skill,
            days,
        }
    }

    /// Counts one session log.
    pub fn step_log(&mut self, text: &String, cutoff: u64, w: &LogKeys)
        requires
            old(self).wf(),
            w.wf(),
        ensures
            final(self).wf(),
            totals_agree(old(self).tally()) ==> totals_agree(final(self).tally()),
            final(self).tally() == step_log(old(self).tally(), text@, cutoff),
    {
        let lines = text_lines(text.as_str());
        let ghost ls = lines_spec(text@);
        assert(texts(lines@) =~= ls);
        let times = uuid_index(&lines, w);
        let ghost t0 = self.tally();
        let n: usize = lines.len();
        assert(ls.take(0) =~= Seq::<Seq<char>>::empty());
        for i in 0..n
            invariant
                n == lines@.len(),
                ls == texts(lines@),
                w.wf(),
                self.wf(),
                map_of(times@) == uuid_times(ls),
                self.tally() == step_lines(t0, ls.take(i as int), uuid_times(ls), cutoff),
                totals_agree(t0) ==> totals_agree(self.tally()),
        {
            assert(ls.take(i + 1).drop_last() =~= ls.take(i as int));
            assert(ls.take(i + 1).last() == lines@[i as int]@);
            self.step_line(&lines[i], &times, cutoff, w);
        }
        assert(ls.take(n as int) =~= ls);
    }
}

/// The analytics of the session logs `logs`, read in order, counting what is
/// not older than `cutoff_ms`, for a window of `days` days.
pub fn analytics_from_logs(logs: &Vec<String>, cutoff_ms: u64, days: i32) -> (r: AnalyticsData)
    ensures
        r.wf(),
        r.days == days,
        r.holds(step_logs(empty_tally(), texts(logs@), cutoff_ms)),
        congruent(total(r.by_project@, output_of()), hours_total(r.by_hour@)),
        congruent(total(r.by_branch@, output_of()), hours_total(r.by_hour@)),
        congruent(total(r.by_day@, count_of()), hours_total(r.by_hour@)),
        congruent(total(r.by_project@, input_of()), total(r.by_branch@, input_of())),
{
    let w = LogKeys::new();
    let mut acc = Tallies::new();
    let n: usize = logs.len();
    let ghost ts = texts(logs@);
    assert(ts.take(0) =~= Seq::<Seq<char>>::empty());
    for i in 0..n
        invariant
            n == logs@.len(),
            ts == texts(logs@),
            w.wf(),
            acc.wf(),
            acc.tally() == step_logs(empty_tally(), ts.take(i as int), cutoff_ms),
            totals_agree(acc.tally()),
    {
        assert(ts.take(i + 1).drop_last() =~= ts.take(i as int));
        assert(ts.take(i + 1).last() == logs@[i as int]@);
        acc.step_log(&logs[i], cutoff_ms, &w);
    }
    assert(ts.take(n as int) =~= ts);
    AnalyticsData {
        by_project: acc.by_project,
        by_branch: acc.by_branch,
        by_hour: acc.by_hour,
        by_day: acc.by_day,
        by_tool: acc.by_tool,
        by_skill: acc.by_skill,
        days,
    }
}

} // verus!

verus! {

/// The window that analytics cover when none is asked for, in days.
pub const DEFAULT_ANALYTICS_DAYS: i32 = 30;

/// Milliseconds in a day.
pub const DAY_MS: u64 = 86_400_000;

/// The window length asked for, or the default.
pub fn analytics_days(requested: Option<i32>) -> (r: i32)
    ensures
        r == match requested {
            Some(d) => d,
            None => DEFAULT_ANALYTICS_DAYS,
        },
{
    match requested {
        Some(d) => d,
        None => DEFAULT_ANALYTICS_DAYS,
    }
}

/// The window of `days` days in milliseconds, as the release build computes it:
/// the day count taken as a `u64` (a negative count wraps) times a day, wrapping.
pub open spec fn window_ms(days: i32) -> u64 {
    (((days as u64) as nat * DAY_MS as nat) % 0x1_0000_0000_0000_0000) as u64
}

/// The earliest time counted: `days` days before `now_ms`, or the epoch.
pub open spec fn cutoff_spec(now_ms: u64, days: i32) -> u64 {
    if now_ms >= window_ms(days) {
        (now_ms - window_ms(days)) as u64
    } else {
        0
    }
}

/// The earliest time, in milliseconds since the Unix epoch, that analytics for
/// `days` days count at `now_ms`.
pub fn analytics_cutoff(now_ms: u64, days: i32) -> (r: u64)
    ensures
        r == cutoff_spec(now_ms, days),
{
    now_ms.saturating_sub((days as u64).wrapping_mul(DAY_MS))
}

/// Whether a file modified at `mtime` is read for `cutoff`: one modified
/// before the cutoff is skipped, one whose time is unknown is read.
pub open spec fn recent(mtime: Option<u64>, cutoff: u64) -> bool {
    match mtime {
        Some(m) => m >= cutoff,
        None => true,
    }
}

/// Whether a log file modified at `mtime_ms` is read for `cutoff_ms`.
pub fn file_is_recent(mtime_ms: Option<u64>, cutoff_ms: u64) -> (r: bool)
    ensures
        r == recent(mtime_ms, cutoff_ms),
{
    match mtime_ms {
        Some(m) => m >= cutoff_ms,
        None => true,
    }
}

/// Whether a file with this extension is a session log (`jsonl`).
pub fn is_session_log(extension: &str) -> (r: bool)
    ensures
        r == (extension@ == "jsonl"@),
{
    String::from_str(extension) == String::from_str("jsonl")
}

} // verus!

verus! {

/// An assistant entry stamped before the cutoff counts for nothing.
pub proof fn law_old_entries_ignored(
    t: Tally,
    e: Json,
    times: Map<Seq<char>, i64>,
    cutoff: u64,
    ts: Seq<char>,
    st: Stamp,
)
    requires
        text_field(e, "type"@) == Some("assistant"@),
        text_field(e, "timestamp"@) == Some(ts),
        rfc3339_stamp(ts) == Some(st),
        st.millis < cutoff,
    ensures
        step_entry(t, e, times, cutoff) == t,
{
    reveal_strlit("assistant");
    reveal_strlit("last-prompt");
    assert("assistant"@.len() == 9);
    assert("last-prompt"@.len() == 11);
}

/// A prompt whose uuid was recorded before the cutoff counts for nothing.
pub proof fn law_old_prompts_ignored(
    t: Tally,
    e: Json,
    times: Map<Seq<char>, i64>,
    cutoff: u64,
    leaf: Seq<char>,
)
    requires
        text_field(e, "type"@) == Some("last-prompt"@),
        text_field(e, "leafUuid"@) == Some(leaf),
        times.contains_key(leaf),
        times[leaf] < cutoff,
    ensures
        step_entry(t, e, times, cutoff) == t,
{
}

/// A prompt counts as a skill run at most once: once its uuid is seen, later
/// entries for it count for nothing.
pub proof fn law_prompt_counted_once(
    t: Tally,
    e: Json,
    times: Map<Seq<char>, i64>,
    cutoff: u64,
    leaf: Seq<char>,
)
    requires
        text_field(e, "type"@) == Some("last-prompt"@),
        text_field(e, "leafUuid"@) == Some(leaf),
        t.seen_prompts.contains(leaf),
    ensures
        step_entry(t, e, times, cutoff) == t,
{
}

/// Entries of other types count for nothing.
pub proof fn law_other_entries_ignored(t: Tally, e: Json, times: Map<Seq<char>, i64>, cutoff: u64)
    requires
        text_field(e, "type"@) != Some("last-prompt"@),
        text_field(e, "type"@) != Some("assistant"@),
    ensures
        step_entry(t, e, times, cutoff) == t,
{
    reveal_strlit("assistant");
    reveal_strlit("last-prompt");
    assert("assistant"@.len() == 9);
    assert("last-prompt"@.len() == 11);
}

/// Blank lines and lines that are not JSON count for nothing.
pub proof fn law_unreadable_lines_ignored(
    t: Tally,
    line: Seq<char>,
    times: Map<Seq<char>, i64>,
    cutoff: u64,
)
    requires
        trim_spec(line).len() == 0 || parsed_json(trim_spec(line)) is None,
    ensures
        step_line(t, line, times, cutoff) == t,
{
}

proof fn lemma_tools_keep_seen(t: Tally, blocks: Seq<Json>)
    ensures
        count_tools(t, blocks).seen_prompts == t.seen_prompts,
    decreases blocks.len(),
{
    if blocks.len() > 0 {
        lemma_tools_keep_seen(t, blocks.drop_last());
    }
}

proof fn lemma_entry_keeps_seen(t: Tally, e: Json, times: Map<Seq<char>, i64>, cutoff: u64)
    ensures
        t.seen_prompts.subset_of(step_entry(t, e, times, cutoff).seen_prompts),
{
    reveal_strlit("assistant");
    reveal_strlit("last-prompt");
    assert("assistant"@.len() == 9);
    assert("last-prompt"@.len() == 11);
    if text_field(e, "type"@) == Some("assistant"@) {
        if let Some(ts) = text_field(e, "timestamp"@) {
            if let Some(st) = rfc3339_stamp(ts) {
                if !(st.millis < cutoff) {
                    let t1 = match message_part(e, "usage"@) {
                        Some(u) => add_usage(t, u, entry_project(e), entry_branch(e), st),
                        None => t,
                    };
                    if let Some(Json::Array(blocks)) = message_part(e, "content"@) {
                        lemma_tools_keep_seen(t1, blocks@);
                    }
                }
            }
        }
    }
}

proof fn lemma_lines_keep_seen(
    t: Tally,
    lines: Seq<Seq<char>>,
    times: Map<Seq<char>, i64>,
    cutoff: u64,
)
    ensures
        t.seen_prompts.subset_of(step_lines(t, lines, times, cutoff).seen_prompts),
    decreases lines.len(),
{
    if lines.len() > 0 {
        lemma_lines_keep_seen(t, lines.drop_last(), times, cutoff);
        let t0 = step_lines(t, lines.drop_last(), times, cutoff);
        let l = trim_spec(lines.last());
        if l.len() > 0 {
            if let Some(e) = parsed_json(l) {
                lemma_entry_keeps_seen(t0, e, times, cutoff);
            }
        }
    }
}

/// Once a prompt has been counted, it stays counted for all later logs: the
/// seen prompts only grow as logs are read.
pub proof fn law_seen_prompts_grow(t: Tally, logs: Seq<Seq<char>>, cutoff: u64)
    ensures
        t.seen_prompts.subset_of(step_logs(t, logs, cutoff).seen_prompts),
    decreases logs.len(),
{
    if logs.len() > 0 {
        law_seen_prompts_grow(t, logs.drop_last(), cutoff);
        let t0 = step_logs(t, logs.drop_last(), cutoff);
        let lines = lines_spec(logs.last());
        lemma_lines_keep_seen(t0, lines, uuid_times(lines), cutoff);
    }
}

/// Whether a content block is a call of the tool `name`: a `tool_use` block
/// with that `name`.
pub open spec fn calls_tool(b: Json, name: Seq<char>) -> bool {
    text_field(b, "type"@) == Some("tool_use"@) && text_field(b, "name"@) == Some(name)
}

/// The number of blocks among `blocks` that call the tool `name`.
pub open spec fn tool_calls(blocks: Seq<Json>, name: Seq<char>) -> nat {
    blocks.filter(|b: Json| calls_tool(b, name)).len()
}

/// Every call of a tool counts once: counting the blocks `blocks` adds to the
/// count of each tool `name` exactly the number of blocks that call it (modulo
/// 2^64, as the count wraps; exactly, where the sum stays within `i64`), and
/// leaves every other count of `t` as it was.
pub proof fn law_each_tool_call_counted(t: Tally, blocks: Seq<Json>, name: Seq<char>)
    ensures
        crate::totals::congruent(
            crate::window::count_at(count_tools(t, blocks).by_tool, name),
            crate::window::count_at(t.by_tool, name) + tool_calls(blocks, name),
        ),
        0 <= crate::window::count_at(t.by_tool, name) && crate::window::count_at(t.by_tool, name)
            + tool_calls(blocks, name) <= i64::MAX ==> crate::window::count_at(
            count_tools(t, blocks).by_tool,
            name,
        ) == crate::window::count_at(t.by_tool, name) + tool_calls(blocks, name),
        count_tools(t, blocks).by_project == t.by_project,
        count_tools(t, blocks).by_day == t.by_day,
        count_tools(t, blocks).by_skill == t.by_skill,
    decreases blocks.len(),
{
    reveal(Seq::filter);
    if blocks.len() > 0 {
        let d = blocks.drop_last();
        let b = blocks.last();
        law_each_tool_call_counted(t, d, name);
        let t0 = count_tools(t, d);
        let c0 = crate::window::count_at(t0.by_tool, name);
        assert(tool_calls(blocks, name) == tool_calls(d, name) + if calls_tool(b, name) {
            1int
        } else {
            0int
        });
        if text_field(b, "type"@) == Some("tool_use"@) {
            if let Some(n) = text_field(b, "name"@) {
                let m = add_count(t0.by_tool, n, 1);
                if n == name {
                    assert(crate::window::count_at(m, name) == (c0 as i64).wrapping_add(1));
                } else {
                    assert(crate::window::count_at(m, name) == c0);
                }
            }
        }
    }
}

proof fn lemma_skill_end(s: Seq<char>, j: int, e: int)
    requires
        1 <= j <= e <= s.len(),
        forall|i: int| j <= i < e ==> s[i] != '/' && !is_space(s[i]),
        e == s.len() || s[e] == '/' || is_space(s[e]),
    ensures
        skill_end(s, j) == e,
    decreases e - j,
{
    if j < e {
        lemma_skill_end(s, j + 1, e);
    }
}

/// A prompt made of `/`, a command name and the rest runs the skill of that
/// name: whatever characters the name holds besides `/` and white space, when
/// the rest is empty or starts with `/` or white space.
pub proof fn law_skill_is_command_name(name: Seq<char>, rest: Seq<char>)
    requires
        name.len() > 0,
        forall|i: int| 0 <= i < name.len() ==> name[i] != '/' && !is_space(#[trigger] name[i]),
        rest.len() == 0 || rest[0] == '/' || is_space(rest[0]),
    ensures
        skill_name(seq!['/'] + name + rest) == Some(name),
{
    let p = seq!['/'] + name + rest;
    let e: int = name.len() + 1int;
    assert forall|i: int| 1 <= i < e implies p[i] != '/' && !is_space(p[i]) by {
        assert(p[i] == name[i - 1]);
    }
    if e < p.len() {
        assert(p[e] == rest[0]);
    }
    lemma_skill_end(p, 1, e);
    assert(p.subrange(1, e) =~= name);
}

} // verus!

