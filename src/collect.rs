//! One collection pass: the fetch tasks derived from a configuration
//! snapshot, the bounded scheduling of those tasks, and the aggregate of
//! what they returned.
use vstd::prelude::*;
use vstd::string::StringExecFns;
use crate::text::{concat_all, texts, concat_texts};
use crate::config::{CollectionConfig, ConfigEntry, EntryView, param_texts, query_of, tenants_of};

verus! {

/// One upstream fetch: the configured path, the tenant it runs for, the full
/// request address and its query parameters.
pub struct FetchTask {
    pub path: String,
    pub tenant: String,
    pub uri: String,
    pub query: Vec<(String, String)>,
}

/// What a `FetchTask` holds, as text values.
pub struct TaskView {
    pub path: Seq<char>,
    pub tenant: Seq<char>,
    pub uri: Seq<char>,
    pub query: Seq<(Seq<char>, Seq<char>)>,
}

impl View for FetchTask {
    type V = TaskView;

    open spec fn view(&self) -> TaskView {
        TaskView {
            path: self.path@,
            tenant: self.tenant@,
            uri: self.uri@,
            query: param_texts(self.query@),
        }
    }
}

/// The address of a path on the controller.
pub open spec fn metric_uri(controller: Seq<char>, path: Seq<char>) -> Seq<char> {
    "https://"@ + controller + path
}

/// The fetch of one path for one tenant. Every tenant's fetch carries the
/// entry's whole query, the joined list of all its tenants included.
pub open spec fn task_of(controller: Seq<char>, path: Seq<char>, e: EntryView, tenant: Seq<char>) -> TaskView {
    TaskView { path, tenant, uri: metric_uri(controller, path), query: query_of(e) }
}

/// The fetches of one entry: one for each of its tenants, in order.
pub open spec fn tasks_of_entry(controller: Seq<char>, path: Seq<char>, e: EntryView) -> Seq<TaskView> {
    tenants_of(e).map_values(|t: Seq<char>| task_of(controller, path, e, t))
}

/// The fetches of a whole configuration, entry after entry.
pub open spec fn plan_of(controller: Seq<char>, c: Seq<(Seq<char>, EntryView)>) -> Seq<TaskView>
    decreases c.len(),
{
    if c.len() == 0 {
        Seq::empty()
    } else {
        plan_of(controller, c.drop_last()) + tasks_of_entry(controller, c.last().0, c.last().1)
    }
}

/// Whether a task is one of the fetches of the entry at position `j`.
pub open spec fn task_from_entry(controller: Seq<char>, c: Seq<(Seq<char>, EntryView)>, t: TaskView, j: int) -> bool {
    &&& 0 <= j < c.len()
    &&& t.path == c[j].0
    &&& t.uri == metric_uri(controller, c[j].0)
    &&& t.query == query_of(c[j].1)
    &&& tenants_of(c[j].1).contains(t.tenant)
}

/// Whether a task is one of the fetches of some entry of `c`.
pub open spec fn planned_from(controller: Seq<char>, c: Seq<(Seq<char>, EntryView)>, t: TaskView) -> bool {
    exists|j: int| #[trigger] task_from_entry(controller, c, t, j)
}

/// A pass is planned from one configuration snapshot alone: every task it
/// holds is a fetch of an entry of that snapshot, with that entry's query,
/// and every entry gives at least one task.
pub proof fn lemma_plan_from_one_snapshot(controller: Seq<char>, c: Seq<(Seq<char>, EntryView)>)
    ensures
        forall|i: int| 0 <= i < plan_of(controller, c).len() ==> planned_from(
            controller,
            c,
            #[trigger] plan_of(controller, c)[i],
        ),
        plan_of(controller, c).len() >= c.len(),
    decreases c.len(),
{
    if c.len() > 0 {
        let rest = c.drop_last();
        lemma_plan_from_one_snapshot(controller, rest);
        let head = plan_of(controller, rest);
        let tail = tasks_of_entry(controller, c.last().0, c.last().1);
        let all = plan_of(controller, c);
        assert(all == head + tail);
        assert(tenants_of(c.last().1).len() >= 1);
        assert(tail.len() == tenants_of(c.last().1).len());
        assert forall|i: int| 0 <= i < all.len() implies planned_from(controller, c, #[trigger] all[i]) by {
            if i < head.len() {
                assert(planned_from(controller, rest, head[i]));
                let j = choose|j: int| #[trigger] task_from_entry(controller, rest, head[i], j);
                assert(rest[j] == c[j]);
                assert(all[i] == head[i]);
                assert(task_from_entry(controller, c, all[i], j));
            } else {
                let k = i - head.len();
                let last = c.len() - 1;
                assert(all[i] == tail[k]);
                assert(tenants_of(c[last].1)[k] == tail[k].tenant);
                assert(task_from_entry(controller, c, all[i], last));
            }
        }
    }
}

/// The views of a sequence of tasks.
pub open spec fn task_views(v: Seq<FetchTask>) -> Seq<TaskView> {
    v.map_values(|t: FetchTask| t@)
}

/// Builds the address of a path on the controller.
pub fn metric_address(controller: &str, path: &str) -> (r: String)
    ensures
        r@ == metric_uri(controller@, path@),
{
    String::from_str("https://").concat(controller).concat(path)
}

fn push_entry_tasks(out: &mut Vec<FetchTask>, controller: &str, path: &String, entry: &ConfigEntry)
    ensures
        task_views(final(out)@) == task_views(old(out)@) + tasks_of_entry(controller@, path@, entry@),
{
    let tenants = entry.tenants();
    let ghost start = task_views(out@);
    let ghost want = tasks_of_entry(controller@, path@, entry@);
    let mut j: usize = 0;
    assert(start + want.take(0) =~= start);
    while j < tenants.len()
        invariant
            j <= tenants@.len(),
            texts(tenants@) == tenants_of(entry@),
            want == tasks_of_entry(controller@, path@, entry@),
            want.len() == tenants@.len(),
            task_views(out@) == start + want.take(j as int),
        decreases tenants@.len() - j,
    {
        let task = FetchTask {
            path: String::from_str(path.as_str()),
            tenant: String::from_str(tenants[j].as_str()),
            uri: metric_address(controller, path.as_str()),
            query: entry.query_params(),
        };
        let ghost before = task_views(out@);
        out.push(task);
        proof {
            assert(texts(tenants@)[j as int] == tenants@[j as int]@);
            assert(task_views(out@) =~= before.push(want[j as int]));
            assert(want.take(j + 1) =~= want.take(j as int).push(want[j as int]));
        }
        j = j + 1;
    }
    assert(want.take(j as int) =~= want);
}

/// The fetches of a configuration snapshot, in the order of its entries and,
/// within an entry, of its tenants.
pub fn plan_tasks(controller: &str, config: &CollectionConfig) -> (r: Vec<FetchTask>)
    ensures
        task_views(r@) == plan_of(controller@, config@),
{
    let mut out: Vec<FetchTask> = Vec::new();
    let mut i: usize = 0;
    assert(config@.take(0) =~= Seq::<(Seq<char>, EntryView)>::empty());
    assert(task_views(out@) =~= Seq::<TaskView>::empty());
    while i < config.len()
        invariant
            i <= config@.len(),
            task_views(out@) == plan_of(controller@, config@.take(i as int)),
        decreases config@.len() - i,
    {
        push_entry_tasks(&mut out, controller, config.path_at(i), config.entry_at(i));
        assert(config@.take(i + 1).drop_last() =~= config@.take(i as int));
        i = i + 1;
    }
    assert(config@.take(i as int) =~= config@);
    out
}

/// How one fetch ended: with the response body, or failed with a cause.
pub enum FetchOutcome {
    Fetched(String),
    Failed(String),
}

/// What a fetch contributes to the aggregate: its body, or nothing when it
/// failed.
pub open spec fn fragment(o: FetchOutcome) -> Seq<char> {
    match o {
        FetchOutcome::Fetched(body) => body@,
        FetchOutcome::Failed(_) => Seq::empty(),
    }
}

/// Whether a fetch succeeded.
pub open spec fn succeeded(o: FetchOutcome) -> bool {
    o is Fetched
}

/// The bodies of the successful fetches, in order.
pub open spec fn successful_bodies(outs: Seq<FetchOutcome>) -> Seq<Seq<char>>
    decreases outs.len(),
{
    if outs.len() == 0 {
        Seq::empty()
    } else {
        let rest = successful_bodies(outs.drop_last());
        match outs.last() {
            FetchOutcome::Fetched(body) => rest.push(body@),
            FetchOutcome::Failed(_) => rest,
        }
    }
}

/// The number of failed fetches.
pub open spec fn failures(outs: Seq<FetchOutcome>) -> nat
    decreases outs.len(),
{
    if outs.len() == 0 {
        0
    } else {
        failures(outs.drop_last()) + if succeeded(outs.last()) { 0nat } else { 1nat }
    }
}

/// The aggregate of a pass: the fragments in the order the fetches ended.
pub open spec fn aggregate_of(outs: Seq<FetchOutcome>) -> Seq<char> {
    concat_all(outs.map_values(|o: FetchOutcome| fragment(o)))
}

/// A failed fetch never spoils the pass: the aggregate is exactly the
/// successful bodies one after another, and with exactly one failure among
/// the outcomes every other fetch's body is in it.
pub proof fn lemma_failures_isolated(outs: Seq<FetchOutcome>)
    ensures
        aggregate_of(outs) == concat_all(successful_bodies(outs)),
        successful_bodies(outs).len() + failures(outs) == outs.len(),
        failures(outs) == 1 ==> successful_bodies(outs).len() == outs.len() - 1,
    decreases outs.len(),
{
    if outs.len() > 0 {
        let rest = outs.drop_last();
        lemma_failures_isolated(rest);
        let frags = outs.map_values(|o: FetchOutcome| fragment(o));
        assert(frags.drop_last() =~= rest.map_values(|o: FetchOutcome| fragment(o)));
        match outs.last() {
            FetchOutcome::Fetched(body) => {
                assert(successful_bodies(outs).drop_last() =~= successful_bodies(rest));
            },
            FetchOutcome::Failed(_) => {
                assert(concat_all(frags) =~= concat_all(frags.drop_last()));
            },
        }
    } else {
        assert(outs.map_values(|o: FetchOutcome| fragment(o)) =~= Seq::<Seq<char>>::empty());
    }
}

/// The number of set flags.
pub open spec fn count_set(s: Seq<bool>) -> nat
    decreases s.len(),
{
    if s.len() == 0 {
        0
    } else {
        count_set(s.drop_last()) + if s.last() { 1nat } else { 0nat }
    }
}

proof fn lemma_count_clear(s: Seq<bool>, i: int)
    requires
        0 <= i < s.len(),
        s[i],
    ensures
        count_set(s) >= 1,
        count_set(s.update(i, false)) == count_set(s) - 1,
    decreases s.len(),
{
    if i == s.len() - 1 {
        assert(s.update(i, false).drop_last() =~= s.drop_last());
    } else {
        lemma_count_clear(s.drop_last(), i);
        assert(s.update(i, false).drop_last() =~= s.drop_last().update(i, false));
    }
}

/// What a pass holds: its tasks, its worker bound, how many tasks have been
/// started, which started tasks are still running, how many run, and each
/// finished task with its outcome in the order they ended.
pub struct PassView {
    pub tasks: Seq<TaskView>,
    pub workers: nat,
    pub started: nat,
    pub running: Seq<bool>,
    pub in_flight: nat,
    pub finished: Seq<(int, FetchOutcome)>,
}

/// The outcomes of the finished tasks, in the order they ended.
pub open spec fn outcomes(finished: Seq<(int, FetchOutcome)>) -> Seq<FetchOutcome> {
    finished.map_values(|f: (int, FetchOutcome)| f.1)
}

/// A bounded pass: tasks start in order, never more than `workers` run at
/// once, each started task either runs or has finished exactly once.
pub open spec fn pass_wf(p: PassView) -> bool {
    &&& p.started <= p.tasks.len()
    &&& p.running.len() == p.started
    &&& p.in_flight == count_set(p.running)
    &&& p.in_flight <= p.workers
    &&& p.finished.len() + p.in_flight == p.started
    &&& forall|k: int| 0 <= k < p.finished.len() ==> {
        let t = (#[trigger] p.finished[k]).0;
        0 <= t < p.started && !p.running[t]
    }
    &&& forall|k: int, l: int| 0 <= k < l < p.finished.len() ==> (#[trigger] p.finished[k]).0
        != (#[trigger] p.finished[l]).0
    &&& forall|t: int| 0 <= t < p.started ==> #[trigger] p.running[t] || exists|k: int|
        0 <= k < p.finished.len() && (#[trigger] p.finished[k]).0 == t
}

/// In a well-formed pass at most `workers` fetches are in flight.
pub proof fn lemma_in_flight_bounded(p: PassView)
    requires
        pass_wf(p),
    ensures
        count_set(p.running) <= p.workers,
{
}

proof fn lemma_none_set(s: Seq<bool>, i: int)
    requires
        count_set(s) == 0,
        0 <= i < s.len(),
    ensures
        !s[i],
    decreases s.len(),
{
    if i < s.len() - 1 {
        lemma_none_set(s.drop_last(), i);
    }
}

/// A pass that is done has every task finished exactly once, so its
/// aggregate holds one fragment for each task.
pub proof fn lemma_done_pass_complete(p: PassView)
    requires
        pass_wf(p),
        p.started == p.tasks.len(),
        p.in_flight == 0,
    ensures
        p.finished.len() == p.tasks.len(),
        outcomes(p.finished).len() == p.tasks.len(),
        forall|t: int| 0 <= t < p.tasks.len() ==> !(#[trigger] p.running[t]) && exists|k: int|
            0 <= k < p.finished.len() && (#[trigger] p.finished[k]).0 == t,
{
    assert forall|t: int| 0 <= t < p.tasks.len() implies !(#[trigger] p.running[t]) && exists|k: int|
        0 <= k < p.finished.len() && (#[trigger] p.finished[k]).0 == t by {
        lemma_none_set(p.running, t);
    }
}

/// The scheduling state of one collection pass. The caller performs the
/// fetches: it starts each task that `start_next` hands out, and reports each
/// outcome through `complete`.
pub struct CollectionPass {
    tasks: Vec<FetchTask>,
    workers: usize,
    running: Vec<bool>,
    in_flight: usize,
    finished: Vec<(usize, FetchOutcome)>,
}

impl View for CollectionPass {
    type V = PassView;

    closed spec fn view(&self) -> PassView {
        PassView {
            tasks: task_views(self.tasks@),
            workers: self.workers as nat,
            started: self.running@.len(),
            running: self.running@,
            in_flight: self.in_flight as nat,
            finished: self.finished@.map_values(|f: (usize, FetchOutcome)| (f.0 as int, f.1)),
        }
    }
}

impl CollectionPass {
    /// A pass over the given tasks with at most `workers` of them in flight.
    pub fn new(tasks: Vec<FetchTask>, workers: usize) -> (r: CollectionPass)
        ensures
            pass_wf(r@),
            r@.tasks == task_views(tasks@),
            r@.workers == workers,
            r@.started == 0,
            r@.finished.len() == 0,
    {
        let r = CollectionPass {
            tasks,
            workers,
            running: Vec::new(),
            in_flight: 0,
            finished: Vec::new(),
        };
        assert(r@.finished =~= Seq::<(int, FetchOutcome)>::empty());
        r
    }

    /// The number of tasks.
    pub fn task_count(&self) -> (r: usize)
        ensures
            r == self@.tasks.len(),
    {
        self.tasks.len()
    }

    /// The task at a position.
    pub fn task(&self, i: usize) -> (r: &FetchTask)
        requires
            i < self@.tasks.len(),
        ensures
            r@ == self@.tasks[i as int],
    {
        &self.tasks[i]
    }

    /// The number of fetches in flight.
    pub fn in_flight(&self) -> (r: usize)
        ensures
            r == self@.in_flight,
    {
        self.in_flight
    }

    /// Starts the next task when one is left and a worker slot is free, and
    /// returns its position; otherwise changes nothing.
    pub fn start_next(&mut self) -> (r: Option<usize>)
        requires
            pass_wf(old(self)@),
        ensures
            pass_wf(final(self)@),
            final(self)@.tasks == old(self)@.tasks,
            final(self)@.workers == old(self)@.workers,
            final(self)@.finished == old(self)@.finished,
            (old(self)@.started < old(self)@.tasks.len() && old(self)@.in_flight < old(self)@.workers)
                ==> r == Some(old(self)@.started as usize) && final(self)@.started == old(self)@.started + 1
                && final(self)@.running == old(self)@.running.push(true) && final(self)@.in_flight
                == old(self)@.in_flight + 1,
            !(old(self)@.started < old(self)@.tasks.len() && old(self)@.in_flight < old(self)@.workers)
                ==> r is None && final(self)@ == old(self)@,
    {
        let ghost before = self@;
        if self.running.len() < self.tasks.len() && self.in_flight < self.workers {
            let index = self.running.len();
            self.running.push(true);
            self.in_flight = self.in_flight + 1;
            proof {
                let after = self@;
                assert(after.running.drop_last() =~= before.running);
                assert(after.finished =~= before.finished);
                assert forall|k: int| 0 <= k < after.finished.len() implies {
                    let t = (#[trigger] after.finished[k]).0;
                    0 <= t < after.started && !after.running[t]
                } by {
                    let t = before.finished[k].0;
                    assert(!before.running[t]);
                }
                assert forall|t: int| 0 <= t < after.started implies #[trigger] after.running[t] || exists|k: int|
                    0 <= k < after.finished.len() && (#[trigger] after.finished[k]).0 == t by {
                    if t < before.started {
                        if !before.running[t] {
                            let k = choose|k: int| 0 <= k < before.finished.len() && (#[trigger] before.finished[k]).0 == t;
                            assert(after.finished[k].0 == t);
                        }
                    }
                }
            }
            Some(index)
        } else {
            None
        }
    }

    /// Records the outcome of a running task. Returns false, and changes
    /// nothing, when the position names no running task.
    pub fn complete(&mut self, index: usize, outcome: FetchOutcome) -> (r: bool)
        requires
            pass_wf(old(self)@),
        ensures
            pass_wf(final(self)@),
            r == (index < old(self)@.started && old(self)@.running[index as int]),
            final(self)@.tasks == old(self)@.tasks,
            final(self)@.workers == old(self)@.workers,
            final(self)@.started == old(self)@.started,
            r ==> final(self)@.running == old(self)@.running.update(index as int, false)
                && final(self)@.in_flight == old(self)@.in_flight - 1
                && final(self)@.finished == old(self)@.finished.push((index as int, outcome)),
            !r ==> final(self)@ == old(self)@,
    {
        let ghost before = self@;
        if index < self.running.len() && self.running[index] {
            proof {
                lemma_count_clear(before.running, index as int);
            }
            self.running.set(index, false);
            self.in_flight = self.in_flight - 1;
            let ghost o = outcome;
            self.finished.push((index, outcome));
            proof {
                let after = self@;
                assert(after.finished =~= before.finished.push((index as int, o)));
                assert(after.running =~= before.running.update(index as int, false));
                assert forall|k: int| 0 <= k < after.finished.len() implies {
                    let t = (#[trigger] after.finished[k]).0;
                    0 <= t < after.started && !after.running[t]
                } by {
                    if k < before.finished.len() {
                        let t = before.finished[k].0;
                        assert(!before.running[t]);
                    }
                }
                assert forall|k: int, l: int| 0 <= k < l < after.finished.len() implies (#[trigger] after.finished[k]).0
                    != (#[trigger] after.finished[l]).0 by {
                    if l < before.finished.len() {
                        assert(before.finished[k].0 != before.finished[l].0);
                    } else {
                        assert(!before.running[before.finished[k].0]);
                    }
                }
                assert forall|t: int| 0 <= t < after.started implies #[trigger] after.running[t] || exists|k: int|
                    0 <= k < after.finished.len() && (#[trigger] after.finished[k]).0 == t by {
                    if t == index {
                        assert(after.finished[before.finished.len() as int].0 == t);
                    } else if !before.running[t] {
                        let k = choose|k: int| 0 <= k < before.finished.len() && (#[trigger] before.finished[k]).0 == t;
                        assert(after.finished[k].0 == t);
                    }
                }
            }
            true
        } else {
            false
        }
    }

    /// Whether every task has been started and has finished.
    pub fn is_done(&self) -> (r: bool)
        requires
            pass_wf(self@),
        ensures
            r == (self@.started == self@.tasks.len() && self@.in_flight == 0),
    {
        self.running.len() == self.tasks.len() && self.in_flight == 0
    }

    /// The aggregate so far: each finished fetch's body, or nothing for a
    /// failed one, in the order the fetches ended.
    pub fn aggregate(&self) -> (r: String)
        requires
            pass_wf(self@),
        ensures
            r@ == aggregate_of(outcomes(self@.finished)),
    {
        let mut parts: Vec<String> = Vec::new();
        let mut i: usize = 0;
        let ghost outs = outcomes(self@.finished);
        while i < self.finished.len()
            invariant
                i <= self.finished@.len(),
                outs == outcomes(self@.finished),
                outs.len() == self.finished@.len(),
                parts@.len() == i,
                forall|k: int| 0 <= k < i ==> (#[trigger] parts@[k])@ == fragment(outs[k]),
            decreases self.finished@.len() - i,
        {
            match &self.finished[i].1 {
                FetchOutcome::Fetched(body) => parts.push(String::from_str(body.as_str())),
                FetchOutcome::Failed(_) => parts.push(String::new()),
            }
            i = i + 1;
        }
        assert(texts(parts@) =~= outs.map_values(|o: FetchOutcome| fragment(o)));
        concat_texts(&parts)
    }
}

} // verus!
