//! Task-local repeated failures; no interpretation of adapter state.
use crate::api::{
    ActionReport, ActionReportModel, AdapterError, AdapterErrorModel, ToolCall, ToolCallModel,
};
use crate::copy::{Dup, Same};
use crate::kernel::{Decision, DecisionModel};
use crate::text;
use crate::text::Text;
use vstd::prelude::*;

verus! {

/// What an adapter answered to one execution.
pub open spec fn answer(report: Result<ActionReport, AdapterError>) -> Result<
    ActionReportModel,
    AdapterErrorModel,
> {
    match report {
        Ok(report) => Ok(report@),
        Err(error) => Err(error@),
    }
}

/// What a key is counted by.
pub open spec fn key_of<K: Same>(key: K) -> K::V {
    K::plain_of(key.deep_view())
}

/// The counts that a list of entries holds.
pub open spec fn counts<K: Same>(entries: Seq<(K, u32)>) -> Map<K::V, u32>
    decreases entries.len(),
{
    if entries.len() == 0 {
        Map::empty()
    } else {
        counts(entries.drop_last()).insert(key_of(entries.last().0), entries.last().1)
    }
}

/// No key occurs twice.
pub open spec fn distinct_keys<K: Same>(entries: Seq<(K, u32)>) -> bool {
    forall|i: int, j: int|
        0 <= i < j < entries.len() ==> key_of((#[trigger] entries[i]).0) != key_of(
            (#[trigger] entries[j]).0,
        )
}

/// The count of a key after one more failure.
pub open spec fn raised<V>(counts: Map<V, u32>, key: V) -> u32 {
    if !counts.contains_key(key) {
        1
    } else if counts[key] == u32::MAX {
        u32::MAX
    } else {
        (counts[key] + 1) as u32
    }
}

/// The counts after a failure or a normal end of a key.
pub open spec fn recorded<V>(counts: Map<V, u32>, key: V, failed: bool) -> Map<V, u32> {
    if failed {
        counts.insert(key, raised(counts, key))
    } else {
        counts.remove(key)
    }
}

/// Consecutive failures by key.
#[derive(Debug)]
pub struct Tally<K> {
    entries: Vec<(K, u32)>,
}

impl<K: Same> View for Tally<K> {
    type V = Map<K::V, u32>;

    closed spec fn view(&self) -> Map<K::V, u32> {
        counts(self.entries@)
    }
}

proof fn lemma_counts_index<K: Same>(entries: Seq<(K, u32)>, i: int)
    requires
        distinct_keys(entries),
        0 <= i < entries.len(),
    ensures
        counts(entries).contains_key(key_of(entries[i].0)),
        counts(entries)[key_of(entries[i].0)] == entries[i].1,
    decreases entries.len(),
{
    if i < entries.len() - 1 {
        let init = entries.drop_last();
        assert(init[i] == entries[i]);
        assert(distinct_keys(init)) by {
            assert forall|a: int, b: int| 0 <= a < b < init.len() implies key_of(
                (#[trigger] init[a]).0,
            ) != key_of((#[trigger] init[b]).0) by {
                assert(key_of(entries[a].0) != key_of(entries[b].0));
            }
        }
        lemma_counts_index(init, i);
        assert(key_of(entries[i].0) != key_of(entries[entries.len() - 1].0));
    }
}

proof fn lemma_counts_key<K: Same>(entries: Seq<(K, u32)>, key: K::V)
    ensures
        counts(entries).contains_key(key) <==> exists|i: int|
            0 <= i < entries.len() && key_of((#[trigger] entries[i]).0) == key,
    decreases entries.len(),
{
    if entries.len() > 0 {
        let init = entries.drop_last();
        lemma_counts_key(init, key);
        if counts(init).contains_key(key) {
            let i = choose|i: int|
                0 <= i < init.len() && key_of((#[trigger] init[i]).0) == key;
            assert(key_of(entries[i].0) == key);
        }
        if exists|i: int| 0 <= i < entries.len() && key_of((#[trigger] entries[i]).0) == key {
            let i = choose|i: int|
                0 <= i < entries.len() && key_of((#[trigger] entries[i]).0) == key;
            if i < init.len() {
                assert(key_of(init[i].0) == key);
            }
        }
    }
}

/// Lists of distinct keys that agree entry by entry, in whatever order, hold the same counts.
proof fn lemma_counts_agree<K: Same>(entries: Seq<(K, u32)>, m: Map<K::V, u32>)
    requires
        distinct_keys(entries),
        forall|k: K::V| #[trigger]
            m.contains_key(k) ==> exists|i: int|
                0 <= i < entries.len() && key_of((#[trigger] entries[i]).0) == k,
        forall|i: int|
            0 <= i < entries.len() ==> m.contains_key(key_of((#[trigger] entries[i]).0))
                && m[key_of(entries[i].0)] == entries[i].1,
    ensures
        counts(entries) == m,
{
    assert forall|k: K::V| #[trigger]
        counts(entries).dom().contains(k) == m.dom().contains(k) by {
        lemma_counts_key(entries, k);
        if m.contains_key(k) {
            let i = choose|i: int|
                0 <= i < entries.len() && key_of((#[trigger] entries[i]).0) == k;
            assert(key_of(entries[i].0) == k);
        }
    }
    assert forall|k: K::V| m.dom().contains(k) implies counts(entries)[k] == #[trigger] m[k] by {
        assert(m.contains_key(k));
        let i = choose|i: int| 0 <= i < entries.len() && key_of((#[trigger] entries[i]).0) == k;
        lemma_counts_index(entries, i);
    }
    assert(counts(entries) =~= m);
}

impl<K: Same> Tally<K> {
    /// No key is counted twice.
    pub closed spec fn wf(self) -> bool {
        distinct_keys(self.entries@)
    }

    /// Nothing has failed.
    pub fn new() -> (r: Self)
        ensures
            r.wf(),
            r@ == Map::<K::V, u32>::empty(),
    {
        Tally { entries: Vec::new() }
    }

    /// Counts a failure of a key, or forgets the failures of a key that ended normally.
    /// Says whether the failures of this key have reached the limit.
    pub fn record(&mut self, key: K, failed: bool, limit: u32) -> (r: bool)
        requires
            old(self).wf(),
        ensures
            final(self).wf(),
            final(self)@ == recorded(old(self)@, key_of(key), failed),
            r == (failed && raised(old(self)@, key_of(key)) >= limit),
    {
        let ghost all = self.entries@;
        let ghost k = key_of(key);
        let mut i: usize = 0;
        while i < self.entries.len()
            invariant
                self.entries@ == all,
                i <= all.len(),
                k == key_of(key),
                forall|j: int| 0 <= j < i ==> key_of((#[trigger] all[j]).0) != k,
            ensures
                i < all.len() ==> key_of(all[i as int].0) == k,
            decreases all.len() - i,
        {
            if self.entries[i].0.same(&key) {
                break;
            }
            i += 1;
        }
        if i < self.entries.len() {
            proof {
                lemma_counts_index(all, i as int);
            }
            if !failed {
                let _gone = self.entries.swap_remove(i);
                proof {
                    let rest = self.entries@;
                    let n = all.len() - 1;
                    assert(rest =~= all.update(i as int, all[n]).drop_last());
                    assert forall|a: int| 0 <= a < rest.len() implies #[trigger] rest[a] == (if a
                        == i {
                        all[n]
                    } else {
                        all[a]
                    }) by {}
                    assert(distinct_keys(rest));
                    let m = counts(all).remove(k);
                    assert forall|x: K::V| #[trigger] m.contains_key(x) implies exists|a: int|
                        0 <= a < rest.len() && key_of((#[trigger] rest[a]).0) == x by {
                        assert(x != k);
                        lemma_counts_key(all, x);
                        let a = choose|a: int|
                            0 <= a < all.len() && key_of((#[trigger] all[a]).0) == x;
                        if a == n {
                            assert(key_of(rest[i as int].0) == x);
                        } else {
                            assert(key_of(rest[a].0) == x);
                        }
                    }
                    assert forall|a: int| 0 <= a < rest.len() implies m.contains_key(
                        key_of((#[trigger] rest[a]).0),
                    ) && m[key_of(rest[a].0)] == rest[a].1 by {
                        let b = if a == i {
                            n
                        } else {
                            a
                        };
                        lemma_counts_index(all, b);
                        assert(key_of(all[b].0) != k);
                    }
                    lemma_counts_agree(rest, m);
                }
                return false;
            }
            let count: u32 = if self.entries[i].1 == u32::MAX {
                u32::MAX
            } else {
                self.entries[i].1 + 1
            };
            let _old = self.entries.swap_remove(i);
            self.entries.push((key, count));
            proof {
                let now = self.entries@;
                let n = all.len() - 1;
                let m = counts(all).insert(k, count);
                assert forall|a: int| 0 <= a < n implies #[trigger] now[a] == (if a == i {
                    all[n]
                } else {
                    all[a]
                }) by {}
                assert(key_of(now[n].0) == k && now[n].1 == count);
                assert forall|a: int, b: int| 0 <= a < b < now.len() implies key_of(
                    (#[trigger] now[a]).0,
                ) != key_of((#[trigger] now[b]).0) by {
                    let x = if a == i {
                        n
                    } else {
                        a
                    };
                    let y = if b == n {
                        i as int
                    } else if b == i {
                        n
                    } else {
                        b
                    };
                    assert(key_of(all[x].0) != key_of(all[y].0));
                }
                assert forall|x: K::V| #[trigger] m.contains_key(x) implies exists|a: int|
                    0 <= a < now.len() && key_of((#[trigger] now[a]).0) == x by {
                    if x == k {
                        assert(key_of(now[n].0) == x);
                    } else {
                        lemma_counts_key(all, x);
                        let a = choose|a: int|
                            0 <= a < all.len() && key_of((#[trigger] all[a]).0) == x;
                        if a == n {
                            assert(key_of(now[i as int].0) == x);
                        } else {
                            assert(key_of(now[a].0) == x);
                        }
                    }
                }
                assert forall|a: int| 0 <= a < now.len() implies m.contains_key(
                    key_of((#[trigger] now[a]).0),
                ) && m[key_of(now[a].0)] == now[a].1 by {
                    if a < n {
                        let b = if a == i {
                            n
                        } else {
                            a
                        };
                        lemma_counts_index(all, b);
                        assert(key_of(all[b].0) != k);
                    }
                }
                lemma_counts_agree(now, m);
            }
            return count >= limit;
        }
        proof {
            lemma_counts_key(all, k);
        }
        if !failed {
            assert(counts(all).remove(k) =~= counts(all));
            return false;
        }
        self.entries.push((key, 1));
        assert(self.entries@.drop_last() =~= all);
        1 >= limit
    }
}

/// What the guard counts, by what calls and plans are compared by.
#[verifier::ext_equal]
pub struct FailureGuardModel {
    pub calls: Map<ToolCallModel, u32>,
    pub plans: Map<DecisionModel, u32>,
}

/// Repeated failures of the same call and rejections of the same plan.
#[derive(Debug)]
pub struct FailureGuard {
    calls: Tally<ToolCall>,
    plans: Tally<Decision>,
}

impl View for FailureGuard {
    type V = FailureGuardModel;

    closed spec fn view(&self) -> FailureGuardModel {
        FailureGuardModel { calls: self.calls@, plans: self.plans@ }
    }
}

impl FailureGuardModel {
    /// Nothing has failed.
    pub open spec fn empty() -> Self {
        FailureGuardModel { calls: Map::empty(), plans: Map::empty() }
    }

    /// The guard after an execution of a call: what ends by cancellation or at the
    /// deadline counts neither way.
    pub open spec fn after_call(
        self,
        call: ToolCallModel,
        report: Result<ActionReportModel, AdapterErrorModel>,
    ) -> Self {
        if report == Err::<ActionReportModel, _>(AdapterErrorModel::Cancelled) || report == Err::<
            ActionReportModel,
            _,
        >(AdapterErrorModel::TimedOut) {
            self
        } else {
            FailureGuardModel { calls: recorded(self.calls, call.plain(), call_failed(report)), ..self }
        }
    }

    /// Why the task stops after an execution of a call, if it does.
    pub open spec fn call_verdict(
        self,
        call: ToolCallModel,
        report: Result<ActionReportModel, AdapterErrorModel>,
        limit: u32,
    ) -> Option<Text> {
        if report == Err::<ActionReportModel, _>(AdapterErrorModel::Cancelled) || report == Err::<
            ActionReportModel,
            _,
        >(AdapterErrorModel::TimedOut) {
            None
        } else if call_failed(report) && raised(self.calls, call.plain()) >= limit {
            Some(call_message(call.name, limit))
        } else {
            None
        }
    }

    /// The guard after a plan was accepted or rejected.
    pub open spec fn after_plan(self, plan: DecisionModel, rejected: bool) -> Self {
        FailureGuardModel { plans: recorded(self.plans, plan.plain(), rejected), ..self }
    }

    /// Why the task stops after a plan was rejected, if it does.
    pub open spec fn plan_verdict(self, plan: DecisionModel, rejected: bool, limit: u32) -> Option<
        Text,
    > {
        if rejected && raised(self.plans, plan.plain()) >= limit {
            Some(plan_message(limit))
        } else {
            None
        }
    }
}

/// An execution without a normal end.
pub open spec fn call_failed(report: Result<ActionReportModel, AdapterErrorModel>) -> bool {
    match report {
        Ok(report) => !report.outcome.normal(),
        Err(_) => true,
    }
}

pub open spec fn call_message(name: Text, limit: u32) -> Text {
    "重复失败保护：Skill '"@ + name + "' 的相同参数已失败 "@ + text::decimal(limit as nat)
        + " 次，停止任务"@
}

pub open spec fn plan_message(limit: u32) -> Text {
    "重复失败保护：相同计划已被拒绝 "@ + text::decimal(limit as nat) + " 次，停止任务"@
}

impl FailureGuard {
    pub closed spec fn wf(self) -> bool {
        self.calls.wf() && self.plans.wf()
    }

    /// Nothing has failed.
    pub fn new() -> (r: Self)
        ensures
            r.wf(),
            r@ == FailureGuardModel::empty(),
    {
        FailureGuard { calls: Tally::new(), plans: Tally::new() }
    }

    /// Takes note of an execution; gives the reason to stop the task, if there is one.
    pub fn action(
        &mut self,
        call: &ToolCall,
        report: &Result<ActionReport, AdapterError>,
        limit: u32,
    ) -> (r: Option<String>)
        requires
            old(self).wf(),
        ensures
            final(self).wf(),
            final(self)@ == old(self)@.after_call(call@, answer(*report)),
            r.deep_view() == old(self)@.call_verdict(call@, answer(*report), limit),
    {
        let failed: bool = match report {
            Err(AdapterError::Cancelled) | Err(AdapterError::TimedOut) => {
                return None;
            },
            Err(_) => true,
            Ok(report) => !report.outcome.is_normal(),
        };
        if self.calls.record(call.dup(), failed, limit) {
            let mut message: String = text::cat3(
                "重复失败保护：Skill '",
                call.name.as_str(),
                "' 的相同参数已失败 ",
            );
            message.append(text::numeral(limit as u64).as_str());
            message.append(" 次，停止任务");
            Some(message)
        } else {
            None
        }
    }

    /// Takes note of an accepted or rejected plan; gives the reason to stop the task, if
    /// there is one.
    pub fn plan(&mut self, plan: Decision, rejected: bool, limit: u32) -> (r: Option<String>)
        requires
            old(self).wf(),
        ensures
            final(self).wf(),
            final(self)@ == old(self)@.after_plan(plan@, rejected),
            r.deep_view() == old(self)@.plan_verdict(plan@, rejected, limit),
    {
        if self.plans.record(plan, rejected, limit) {
            Some(
                text::cat3(
                    "重复失败保护：相同计划已被拒绝 ",
                    text::numeral(limit as u64).as_str(),
                    " 次，停止任务",
                ),
            )
        } else {
            None
        }
    }
}

/// A normal end of one call forgets the failures of this call alone.
pub proof fn success_resets_only_the_same_call(
    guard: FailureGuardModel,
    call: ToolCallModel,
    other: ToolCallModel,
    report: ActionReportModel,
)
    requires
        report.outcome.normal(),
    ensures
        !guard.after_call(call, Ok(report)).calls.contains_key(call.plain()),
        other.plain() != call.plain() ==> (guard.after_call(call, Ok(report)).calls.contains_key(
            other.plain(),
        ) <==> guard.calls.contains_key(other.plain())) && (guard.calls.contains_key(other.plain())
            ==> guard.after_call(call, Ok(report)).calls[other.plain()]
            == guard.calls[other.plain()]),
        guard.after_call(call, Ok(report)).plans == guard.plans,
{
}

/// The guard after the same call failed a number of times in a row.
pub open spec fn after_failures(guard: FailureGuardModel, call: ToolCallModel, n: nat) -> FailureGuardModel
    decreases n,
{
    if n == 0 {
        guard
    } else {
        after_failures(guard, call, (n - 1) as nat).after_call(
            call,
            Err(AdapterErrorModel::Runtime(Seq::empty())),
        )
    }
}

/// From a fresh count the limit-th failure in a row of one call stops the task, and none before it.
pub proof fn the_limit_stops_the_task(
    guard: FailureGuardModel,
    call: ToolCallModel,
    n: nat,
    limit: u32,
)
    requires
        !guard.calls.contains_key(call.plain()),
        n < u32::MAX,
        limit > 0,
    ensures
        n > 0 ==> after_failures(guard, call, n).calls.contains_key(call.plain())
            && after_failures(guard, call, n).calls[call.plain()] == n,
        n == 0 ==> after_failures(guard, call, n) == guard,
        after_failures(guard, call, n).call_verdict(
            call,
            Err(AdapterErrorModel::Runtime(Seq::empty())),
            limit,
        ) is Some <==> n + 1 >= limit,
    decreases n,
{
    if n > 0 {
        the_limit_stops_the_task(guard, call, (n - 1) as nat, limit);
    }
}

/// How often a call has failed in a row.
pub open spec fn failures(guard: FailureGuardModel, call: ToolCallModel) -> int {
    if guard.calls.contains_key(call.plain()) {
        guard.calls[call.plain()] as int
    } else {
        0
    }
}

/// How often a plan has been rejected in a row.
pub open spec fn rejections(guard: FailureGuardModel, plan: DecisionModel) -> int {
    if guard.plans.contains_key(plan.plain()) {
        guard.plans[plan.plain()] as int
    } else {
        0
    }
}

/// An execution that is interrupted or ends with an error counts as one more failure of its call,
/// and one that ends normally begins anew; a cancellation and a timeout count neither way. No other
/// call and no plan is touched. The task is stopped by the failure that reaches the limit.
pub proof fn failures_are_counted_by_call(
    guard: FailureGuardModel,
    call: ToolCallModel,
    other: ToolCallModel,
    report: Result<ActionReportModel, AdapterErrorModel>,
    limit: u32,
)
    requires
        failures(guard, call) < u32::MAX,
    ensures
        ({
            let after = guard.after_call(call, report);
            let ignored = match report {
                Err(error) => error is Cancelled || error is TimedOut,
                Ok(_) => false,
            };
            let failed = match report {
                Err(_) => true,
                Ok(report) => report.outcome is Interrupted,
            };
            &&& after.plans == guard.plans
            &&& failures(after, call) == if ignored {
                failures(guard, call)
            } else if failed {
                failures(guard, call) + 1
            } else {
                0
            }
            &&& other.plain() != call.plain() ==> failures(after, other) == failures(guard, other)
            &&& guard.call_verdict(call, report, limit) is Some <==> !ignored && failed && failures(
                guard,
                call,
            ) + 1 >= limit
        }),
{
}

/// A plan that is rejected counts as one more rejection of that plan, and one that is accepted
/// begins anew. No other plan and no call is touched. The task is stopped by the rejection that
/// reaches the limit.
pub proof fn rejections_are_counted_by_plan(
    guard: FailureGuardModel,
    plan: DecisionModel,
    other: DecisionModel,
    rejected: bool,
    limit: u32,
)
    requires
        rejections(guard, plan) < u32::MAX,
    ensures
        ({
            let after = guard.after_plan(plan, rejected);
            &&& after.calls == guard.calls
            &&& rejections(after, plan) == if rejected {
                rejections(guard, plan) + 1
            } else {
                0
            }
            &&& other.plain() != plan.plain() ==> rejections(after, other) == rejections(
                guard,
                other,
            )
            &&& guard.plan_verdict(plan, rejected, limit) is Some <==> rejected && rejections(
                guard,
                plan,
            ) + 1 >= limit
        }),
{
}

} // verus!
