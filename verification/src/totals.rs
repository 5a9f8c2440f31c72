use vstd::prelude::*;
use vstd::set::fold::{lemma_fold_insert, lemma_fold_empty, is_fun_commutative};
use crate::analytics::{
    TokenStats, Tally, empty_tally, add_tokens, add_count, add_usage, count_tools, usage_input,
    int_or_zero,
};
use crate::json::Json;

verus! {

/// The sum of `val` over the values of `m`.
pub open spec fn total<V>(m: Map<Seq<char>, V>, val: spec_fn(V) -> int) -> int {
    m.dom().fold(0int, |acc: int, k: Seq<char>| acc + val(m[k]))
}

/// Output tokens of a project's or branch's counts.
pub open spec fn output_of() -> spec_fn(TokenStats) -> int {
    |s: TokenStats| s.output as int
}

/// Input tokens of a project's or branch's counts.
pub open spec fn input_of() -> spec_fn(TokenStats) -> int {
    |s: TokenStats| s.input as int
}

/// A count itself.
pub open spec fn count_of() -> spec_fn(i64) -> int {
    |n: i64| n as int
}

/// The sum of the hour counts.
pub open spec fn hours_total(s: Seq<i64>) -> int
    decreases s.len(),
{
    if s.len() == 0 {
        0
    } else {
        hours_total(s.drop_last()) + s.last()
    }
}

/// Whether `a` and `b` agree modulo 2^64, as sums kept in wrapping 64-bit
/// arithmetic do.
pub open spec fn congruent(a: int, b: int) -> bool {
    (a - b) % 0x1_0000_0000_0000_0000 == 0
}

/// The totals of `t` agree: the output tokens summed over projects, over
/// branches, over days and over hours are the same, and so are the input
/// tokens summed over projects and over branches (all modulo 2^64).
pub open spec fn totals_agree(t: Tally) -> bool {
    &&& t.by_project.dom().finite()
    &&& t.by_branch.dom().finite()
    &&& t.by_day.dom().finite()
    &&& t.by_hour.len() == 24
    &&& congruent(total(t.by_project, output_of()), hours_total(t.by_hour))
    &&& congruent(total(t.by_branch, output_of()), hours_total(t.by_hour))
    &&& congruent(total(t.by_day, count_of()), hours_total(t.by_hour))
    &&& congruent(total(t.by_project, input_of()), total(t.by_branch, input_of()))
}

proof fn lemma_fold_agree(s: Set<Seq<char>>, f: spec_fn(int, Seq<char>) -> int, g: spec_fn(int, Seq<char>) -> int)
    requires
        s.finite(),
        is_fun_commutative(f),
        is_fun_commutative(g),
        forall|acc: int, x: Seq<char>| s.contains(x) ==> #[trigger] f(acc, x) == g(acc, x),
    ensures
        s.fold(0int, f) == s.fold(0int, g),
    decreases s.len(),
{
    if s.len() == 0 {
        assert(s =~= Set::<Seq<char>>::empty());
        lemma_fold_empty(0int, f);
        lemma_fold_empty(0int, g);
    } else {
        let a = s.choose();
        let r = s.remove(a);
        lemma_fold_agree(r, f, g);
        assert(r.insert(a) =~= s);
        lemma_fold_insert(r, 0int, f, a);
        lemma_fold_insert(r, 0int, g, a);
    }
}

proof fn lemma_total_insert<V>(m: Map<Seq<char>, V>, val: spec_fn(V) -> int, k: Seq<char>, v: V)
    requires
        m.dom().finite(),
    ensures
        m.insert(k, v).dom().finite(),
        total(m.insert(k, v), val) == total(m, val) - (if m.contains_key(k) {
            val(m[k])
        } else {
            0
        }) + val(v),
{
    let m2 = m.insert(k, v);
    let f = |acc: int, x: Seq<char>| acc + val(m[x]);
    let g = |acc: int, x: Seq<char>| acc + val(m2[x]);
    assert(is_fun_commutative(f));
    assert(is_fun_commutative(g));
    let s = m.dom().remove(k);
    assert forall|acc: int, x: Seq<char>| s.contains(x) implies #[trigger] f(acc, x) == g(acc, x) by {}
    lemma_fold_agree(s, f, g);
    assert(s.insert(k) =~= m2.dom());
    lemma_fold_insert(s, 0int, g, k);
    if m.contains_key(k) {
        assert(s.insert(k) =~= m.dom());
        lemma_fold_insert(s, 0int, f, k);
    } else {
        assert(s =~= m.dom());
    }
}

proof fn lemma_hours_update(s: Seq<i64>, i: int, v: i64)
    requires
        0 <= i < s.len(),
    ensures
        hours_total(s.update(i, v)) == hours_total(s) - s[i] + v,
    decreases s.len(),
{
    let s2 = s.update(i, v);
    if i < s.len() - 1 {
        lemma_hours_update(s.drop_last(), i, v);
        assert(s2.drop_last() =~= s.drop_last().update(i, v));
    } else {
        assert(s2.drop_last() =~= s.drop_last());
    }
}

proof fn lemma_hours_zero(n: nat)
    ensures
        hours_total(Seq::new(n, |i: int| 0i64)) == 0,
    decreases n,
{
    if n > 0 {
        lemma_hours_zero((n - 1) as nat);
        assert(Seq::new(n, |i: int| 0i64).drop_last() =~= Seq::new((n - 1) as nat, |i: int| 0i64));
    }
}

proof fn lemma_wrap(a: i64, b: i64)
    ensures
        congruent(a.wrapping_add(b) as int, a + b),
{
}

proof fn lemma_add_tokens(m: Map<Seq<char>, TokenStats>, k: Seq<char>, i: i64, o: i64)
    requires
        m.dom().finite(),
    ensures
        add_tokens(m, k, i, o).dom().finite(),
        congruent(total(add_tokens(m, k, i, o), output_of()), total(m, output_of()) + o),
        congruent(total(add_tokens(m, k, i, o), input_of()), total(m, input_of()) + i),
{
    let cur = if m.contains_key(k) {
        m[k]
    } else {
        TokenStats { input: 0, output: 0 }
    };
    let v = TokenStats { input: cur.input.wrapping_add(i), output: cur.output.wrapping_add(o) };
    lemma_total_insert(m, output_of(), k, v);
    lemma_total_insert(m, input_of(), k, v);
    lemma_wrap(cur.output, o);
    lemma_wrap(cur.input, i);
}

proof fn lemma_add_count(m: Map<Seq<char>, i64>, k: Seq<char>, n: i64)
    requires
        m.dom().finite(),
    ensures
        add_count(m, k, n).dom().finite(),
        congruent(total(add_count(m, k, n), count_of()), total(m, count_of()) + n),
{
    let cur = if m.contains_key(k) {
        m[k]
    } else {
        0
    };
    lemma_total_insert(m, count_of(), k, cur.wrapping_add(n));
    lemma_wrap(cur, n);
}

pub(crate) proof fn lemma_usage_agrees(t: Tally, u: Json, project: Seq<char>, branch: Seq<char>, st: crate::clock::Stamp)
    requires
        totals_agree(t),
        st.hour < 24,
    ensures
        totals_agree(add_usage(t, u, project, branch, st)),
{
    let input = usage_input(u);
    let output = int_or_zero(u, "output_tokens"@);
    lemma_add_tokens(t.by_project, project, input, output);
    lemma_add_tokens(t.by_branch, branch, input, output);
    lemma_add_count(t.by_day, st.day@, output);
    let h = st.hour as int;
    lemma_hours_update(t.by_hour, h, t.by_hour[h].wrapping_add(output));
    lemma_wrap(t.by_hour[h], output);
}

pub(crate) proof fn lemma_tools_keep_totals(t: Tally, blocks: Seq<Json>)
    ensures
        count_tools(t, blocks).by_project == t.by_project,
        count_tools(t, blocks).by_branch == t.by_branch,
        count_tools(t, blocks).by_day == t.by_day,
        count_tools(t, blocks).by_hour == t.by_hour,
    decreases blocks.len(),
{
    if blocks.len() > 0 {
        lemma_tools_keep_totals(t, blocks.drop_last());
    }
}

/// Nothing counted, the totals agree.
pub(crate) proof fn lemma_empty_totals_agree()
    ensures
        totals_agree(empty_tally()),
{
    lemma_hours_zero(24);
    lemma_fold_empty(0int, |acc: int, k: Seq<char>| acc + output_of()(Map::<Seq<char>, TokenStats>::empty()[k]));
    lemma_fold_empty(0int, |acc: int, k: Seq<char>| acc + input_of()(Map::<Seq<char>, TokenStats>::empty()[k]));
    lemma_fold_empty(0int, |acc: int, k: Seq<char>| acc + count_of()(Map::<Seq<char>, i64>::empty()[k]));
}

} // verus!
