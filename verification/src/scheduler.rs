//! The install scheduler: keeps the queue of tools to install, starts those
//! whose dependencies are installed, never runs two tools that need the
//! pacman lock at the same time, and drops the tools whose dependency failed.
//! A tool counts as complete only when it was installed before the session
//! or its install succeeded; a failed tool can be queued again.
use vstd::prelude::*;
use crate::tool::{TOOL_COUNT, Tool};

verus! {

/// One pass over the queue: which tools start and which stay queued, given
/// the completed tools and whether a pacman-lock tool is running. A tool
/// starts when its dependencies are all complete and it does not need the
/// lock while the lock is taken; a started lock tool takes the lock.
pub open spec fn ready_fold(q: Seq<Tool>, completed: Seq<bool>, busy: bool) -> (
    bool,
    Seq<Tool>,
    Seq<Tool>,
)
    decreases q.len(),
{
    if q.len() == 0 {
        (busy, Seq::empty(), Seq::empty())
    } else {
        let prev = ready_fold(q.drop_last(), completed, busy);
        let t = q.last();
        if deps_met(t, completed) && (!t.spec_needs_pacman_lock() || !prev.0) {
            (prev.0 || t.spec_needs_pacman_lock(), prev.1.push(t), prev.2)
        } else {
            (prev.0, prev.1, prev.2.push(t))
        }
    }
}

/// Every dependency of `t` is complete.
pub open spec fn deps_met(t: Tool, completed: Seq<bool>) -> bool {
    forall|i: int|
        0 <= i < t.spec_deps().len() ==> completed[(#[trigger] t.spec_deps()[i]).spec_index() as int]
}

/// Some running tool needs the pacman lock.
pub open spec fn lock_taken(running: Seq<bool>) -> bool {
    exists|i: int|
        0 <= i < TOOL_COUNT && running[i] && #[trigger] Tool::spec_at(i).spec_needs_pacman_lock()
}

/// Number of running tools that need the pacman lock.
pub open spec fn lock_holders(running: Seq<bool>, n: int) -> nat
    decreases n,
{
    if n <= 0 {
        0
    } else {
        lock_holders(running, n - 1) + if running[n - 1] && Tool::spec_at(
            n - 1,
        ).spec_needs_pacman_lock() {
            1nat
        } else {
            0nat
        }
    }
}

pub struct SchedulerView {
    /// Per tool: installed, before the session or by a successful run.
    pub completed: Seq<bool>,
    pub running: Seq<bool>,
    pub queue: Seq<Tool>,
    pub add_open: bool,
    /// Per tool: its last run failed, or it was dropped because a tool it
    /// depends on failed.
    pub failed: Seq<bool>,
}

/// The scheduler's bookkeeping.
pub struct Scheduler {
    completed: Vec<bool>,
    running: Vec<bool>,
    queue: Vec<Tool>,
    add_open: bool,
    failed: Vec<bool>,
}

impl View for Scheduler {
    type V = SchedulerView;

    closed spec fn view(&self) -> SchedulerView {
        SchedulerView {
            completed: self.completed@,
            running: self.running@,
            queue: self.queue@,
            add_open: self.add_open,
            failed: self.failed@,
        }
    }
}

impl SchedulerView {
    /// One flag per tool, no tool both complete and failed, and at most one
    /// running tool holds the pacman lock.
    pub open spec fn wf(self) -> bool {
        &&& self.completed.len() == TOOL_COUNT
        &&& self.running.len() == TOOL_COUNT
        &&& self.failed.len() == TOOL_COUNT
        &&& forall|i: int| 0 <= i < TOOL_COUNT ==> !(#[trigger] self.completed[i] && self.failed[i])
        &&& lock_holders(self.running, TOOL_COUNT as int) <= 1
    }
}

/// The bookkeeping after tool `t` finished, successfully (`ok`) or not: it
/// no longer runs, and it counts as complete only if it succeeded.
pub open spec fn spec_mark_done(s: SchedulerView, t: Tool, ok: bool) -> SchedulerView {
    let i = t.spec_index() as int;
    SchedulerView {
        running: s.running.update(i, false),
        completed: s.completed.update(i, ok),
        failed: s.failed.update(i, !ok),
        ..s
    }
}

/// The dependency `d` failed and will not run again unless it is added
/// again: it is not running and not queued.
pub open spec fn dep_lost(s: SchedulerView, d: Tool) -> bool {
    s.failed[d.spec_index() as int] && !s.running[d.spec_index() as int] && !s.queue.contains(d)
}

/// Some dependency of `t` failed for good, so `t` cannot start.
pub open spec fn blocked(s: SchedulerView, t: Tool) -> bool {
    exists|k: int| 0 <= k < t.spec_deps().len() && #[trigger] dep_lost(s, t.spec_deps()[k])
}

/// Splitting the queue `q` into the tools kept and those dropped because
/// they are blocked, both in queue order.
pub open spec fn block_fold(s: SchedulerView, q: Seq<Tool>) -> (Seq<Tool>, Seq<Tool>)
    decreases q.len(),
{
    if q.len() == 0 {
        (Seq::empty(), Seq::empty())
    } else {
        let prev = block_fold(s, q.drop_last());
        let t = q.last();
        if blocked(s, t) {
            (prev.0, prev.1.push(t))
        } else {
            (prev.0.push(t), prev.1)
        }
    }
}

/// The bookkeeping after the blocked tools are dropped from the queue: the
/// dropped tools that were not already installed count as failed, so their
/// own dependents are dropped in turn.
pub open spec fn spec_drop_blocked(s: SchedulerView) -> SchedulerView {
    let f = block_fold(s, s.queue);
    SchedulerView {
        queue: f.0,
        failed: Seq::new(
            TOOL_COUNT as nat,
            |i: int| s.failed[i] || (f.1.contains(Tool::spec_at(i)) && !s.completed[i]),
        ),
        ..s
    }
}

/// Adding tools to the queue: each is queued unless it is complete,
/// running, or already queued (including by an earlier tool of `more`).
pub open spec fn enqueue_fold(s: SchedulerView, more: Seq<Tool>) -> Seq<Tool>
    decreases more.len(),
{
    if more.len() == 0 {
        s.queue
    } else {
        let q = enqueue_fold(s, more.drop_last());
        let t = more.last();
        let i = t.spec_index() as int;
        if !s.completed[i] && !s.running[i] && !q.contains(t) {
            q.push(t)
        } else {
            q
        }
    }
}

proof fn lemma_lock_holders_bound(running: Seq<bool>, n: int)
    requires
        0 <= n <= running.len(),
    ensures
        lock_holders(running, n) == 0 <==> forall|i: int|
            0 <= i < n ==> !(running[i] && #[trigger] Tool::spec_at(i).spec_needs_pacman_lock()),
    decreases n,
{
    if n > 0 {
        lemma_lock_holders_bound(running, n - 1);
    }
}

proof fn lemma_lock_holders_update(running: Seq<bool>, n: int, k: int, v: bool)
    requires
        0 <= n <= running.len(),
        0 <= k < running.len(),
    ensures
        k >= n ==> lock_holders(running.update(k, v), n) == lock_holders(running, n),
        k < n ==> lock_holders(running.update(k, v), n) + (if running[k]
            && Tool::spec_at(k).spec_needs_pacman_lock() {
            1int
        } else {
            0int
        }) == lock_holders(running, n) + (if v && Tool::spec_at(k).spec_needs_pacman_lock() {
            1int
        } else {
            0int
        }),
    decreases n,
{
    if n > 0 {
        lemma_lock_holders_update(running, n - 1, k, v);
    }
}

impl Scheduler {
    /// A scheduler whose queue is `initial` and whose completed tools are
    /// those already installed.
    pub fn new(initial: Vec<Tool>, installed: Vec<bool>) -> (s: Scheduler)
        requires
            installed.len() == TOOL_COUNT,
        ensures
            s@ == (SchedulerView {
                completed: installed@,
                running: Seq::new(TOOL_COUNT as nat, |i: int| false),
                queue: initial@,
                add_open: true,
                failed: Seq::new(TOOL_COUNT as nat, |i: int| false),
            }),
            s@.wf(),
    {
        let mut running: Vec<bool> = Vec::new();
        let mut failed: Vec<bool> = Vec::new();
        let mut i: usize = 0;
        while i < TOOL_COUNT
            invariant
                i <= TOOL_COUNT,
                running@ == Seq::new(i as nat, |k: int| false),
                failed@ == Seq::new(i as nat, |k: int| false),
            decreases TOOL_COUNT - i,
        {
            running.push(false);
            failed.push(false);
            i += 1;
            assert(running@ =~= Seq::new(i as nat, |k: int| false));
            assert(failed@ =~= Seq::new(i as nat, |k: int| false));
        }
        proof {
            lemma_lock_holders_bound(running@, TOOL_COUNT as int);
        }
        Scheduler { completed: installed, running, queue: initial, add_open: true, failed }
    }

    /// Queues more tools.
    pub fn add_more(&mut self, more: Vec<Tool>)
        requires
            old(self)@.wf(),
        ensures
            final(self)@ == (SchedulerView {
                queue: enqueue_fold(old(self)@, more@),
                ..old(self)@
            }),
            final(self)@.wf(),
    {
        let mut j: usize = 0;
        while j < more.len()
            invariant
                j <= more.len(),
                old(self)@.wf(),
                self@ == (SchedulerView {
                    queue: enqueue_fold(old(self)@, more@.take(j as int)),
                    ..old(self)@
                }),
            decreases more.len() - j,
        {
            assert(more@.take(j + 1).drop_last() == more@.take(j as int));
            let t = more[j];
            let i = t.index();
            if !self.completed[i] && !self.running[i] && !contains_tool(&self.queue, t) {
                self.queue.push(t);
            }
            j += 1;
        }
        assert(more@.take(more.len() as int) == more@);
    }

    /// No more tools will be added.
    pub fn close_additions(&mut self)
        requires
            old(self)@.wf(),
        ensures
            final(self)@ == (SchedulerView { add_open: false, ..old(self)@ }),
            final(self)@.wf(),
    {
        self.add_open = false;
    }

    /// Whether more tools may still be added.
    pub fn accepts_additions(&self) -> (b: bool)
        ensures
            b == self@.add_open,
    {
        self.add_open
    }

    /// A started tool has finished: it is complete where it succeeded, and
    /// failed otherwise.
    pub fn mark_done(&mut self, t: Tool, ok: bool)
        requires
            old(self)@.wf(),
        ensures
            final(self)@ == spec_mark_done(old(self)@, t, ok),
            final(self)@.wf(),
    {
        let i = t.index();
        proof {
            lemma_lock_holders_update(self.running@, TOOL_COUNT as int, i as int, false);
        }
        self.running.set(i, false);
        self.completed.set(i, ok);
        self.failed.set(i, !ok);
    }

    /// Nothing is queued or running and no more tools can come in.
    pub fn is_finished(&self) -> (b: bool)
        ensures
            b == (!self@.add_open && self@.queue.len() == 0 && forall|i: int|
                0 <= i < self@.running.len() ==> !#[trigger] self@.running[i]),
    {
        if self.add_open || self.queue.len() > 0 {
            return false;
        }
        let mut i: usize = 0;
        while i < self.running.len()
            invariant
                i <= self.running.len(),
                forall|k: int| 0 <= k < i ==> !self.running@[k],
            decreases self.running.len() - i,
        {
            if self.running[i] {
                assert(self@.running[i as int]);
                return false;
            }
            i += 1;
        }
        true
    }

    /// Starts every queued tool that is ready, in queue order; returns the
    /// started tools, which are now running.
    pub fn take_ready(&mut self) -> (started: Vec<Tool>)
        requires
            old(self)@.wf(),
        ensures
            ({
                let f = ready_fold(
                    old(self)@.queue,
                    old(self)@.completed,
                    lock_taken(old(self)@.running),
                );
                &&& started@ == f.1
                &&& final(self)@.queue == f.2
                &&& final(self)@.completed == old(self)@.completed
                &&& final(self)@.add_open == old(self)@.add_open
                &&& final(self)@.failed == old(self)@.failed
                &&& forall|i: int|
                    0 <= i < TOOL_COUNT ==> #[trigger] final(self)@.running[i] == (old(
                        self,
                    )@.running[i] || f.1.contains(Tool::spec_at(i)))
            }),
            final(self)@.wf(),
    {
        let busy0 = self.lock_busy();
        let mut busy = busy0;
        let mut started: Vec<Tool> = Vec::new();
        let mut kept: Vec<Tool> = Vec::new();
        let mut j: usize = 0;
        let ghost q = self.queue@;
        while j < self.queue.len()
            invariant
                j <= self.queue.len(),
                self.queue@ == q,
                self.completed@ == old(self)@.completed,
                self.add_open == old(self)@.add_open,
                self.running@.len() == TOOL_COUNT,
                self.failed@ == old(self)@.failed,
                old(self)@.wf(),
                busy0 == lock_taken(old(self)@.running),
                (busy, started@, kept@) == ready_fold(q.take(j as int), old(self)@.completed, busy0),
                forall|i: int|
                    0 <= i < TOOL_COUNT ==> #[trigger] self.running@[i] == (old(self)@.running[i]
                        || started@.contains(Tool::spec_at(i))),
                busy == lock_taken(self.running@),
                lock_holders(self.running@, TOOL_COUNT as int) <= 1,
            decreases self.queue.len() - j,
        {
            assert(q.take(j + 1).drop_last() == q.take(j as int));
            let t = self.queue[j];
            let ok = self.deps_complete(t);
            let lock = t.needs_pacman_lock();
            if ok && (!lock || !busy) {
                let ghost r0 = self.running@;
                let ghost s0 = started@;
                let ti = t.index();
                proof {
                    crate::tool::law_index_round_trip(t, ti as int);
                    lemma_lock_holders_update(r0, TOOL_COUNT as int, ti as int, true);
                    if lock {
                        lemma_lock_holders_bound(r0, TOOL_COUNT as int);
                        if lock_holders(r0, TOOL_COUNT as int) != 0 {
                            let w = choose|w: int|
                                0 <= w < TOOL_COUNT && !!(r0[w] && Tool::spec_at(w).spec_needs_pacman_lock());
                            assert(lock_taken(r0));
                        }
                    }
                }
                self.running.set(ti, true);
                started.push(t);
                if lock {
                    busy = true;
                }
                proof {
                    assert forall|i: int|
                        0 <= i < TOOL_COUNT implies #[trigger] self.running@[i] == (old(
                            self,
                        )@.running[i] || started@.contains(Tool::spec_at(i))) by {
                        crate::tool::law_index_round_trip(Tool::spec_at(i), i);
                        if i == ti {
                            assert(started@[started@.len() - 1] == t);
                        } else {
                            if started@.contains(Tool::spec_at(i)) {
                                let w = choose|w: int|
                                    0 <= w < started@.len() && started@[w] == Tool::spec_at(i);
                                if w < s0.len() {
                                    assert(s0[w] == Tool::spec_at(i));
                                } else {
                                    assert(started@[w] == t);
                                }
                            }
                            if s0.contains(Tool::spec_at(i)) {
                                let w = choose|w: int| 0 <= w < s0.len() && s0[w] == Tool::spec_at(i);
                                assert(started@[w] == Tool::spec_at(i));
                            }
                        }
                    }
                    if lock {
                        assert(self.running@[ti as int] && Tool::spec_at(ti as int).spec_needs_pacman_lock());
                    } else {
                        if lock_taken(self.running@) {
                            let w = choose|w: int|
                                0 <= w < TOOL_COUNT && self.running@[w] && #[trigger] Tool::spec_at(w).spec_needs_pacman_lock();
                            assert(w != ti);
                            assert(r0[w]);
                        }
                        if lock_taken(r0) {
                            let w = choose|w: int|
                                0 <= w < TOOL_COUNT && r0[w] && #[trigger] Tool::spec_at(w).spec_needs_pacman_lock();
                            assert(self.running@[w]);
                        }
                    }
                }
            } else {
                kept.push(t);
            }
            j += 1;
        }
        assert(q.take(q.len() as int) == q);
        self.queue = kept;
        started
    }

    /// Whether some dependency of `t` failed for good.
    fn is_blocked(&self, t: Tool) -> (b: bool)
        requires
            self@.wf(),
        ensures
            b == blocked(self@, t),
    {
        let deps = t.deps();
        let mut i: usize = 0;
        while i < deps.len()
            invariant
                i <= deps.len(),
                deps@ == t.spec_deps(),
                self@.wf(),
                forall|k: int| 0 <= k < i ==> !#[trigger] dep_lost(self@, deps@[k]),
            decreases deps.len() - i,
        {
            let d = deps[i];
            let di = d.index();
            if self.failed[di] && !self.running[di] && !contains_tool(&self.queue, d) {
                assert(dep_lost(self@, deps@[i as int]));
                return true;
            }
            i += 1;
        }
        false
    }

    /// Drops from the queue every tool that a failed dependency keeps from
    /// starting, and returns them in queue order; the driver reports them
    /// as not installed, so the session can still finish.
    pub fn drop_blocked(&mut self) -> (dropped: Vec<Tool>)
        requires
            old(self)@.wf(),
        ensures
            dropped@ == block_fold(old(self)@, old(self)@.queue).1,
            final(self)@ == spec_drop_blocked(old(self)@),
            final(self)@.wf(),
    {
        let ghost s0 = self@;
        let mut kept: Vec<Tool> = Vec::new();
        let mut dropped: Vec<Tool> = Vec::new();
        let mut j: usize = 0;
        while j < self.queue.len()
            invariant
                j <= self.queue.len(),
                self@ == s0,
                s0.wf(),
                (kept@, dropped@) == block_fold(s0, s0.queue.take(j as int)),
            decreases self.queue.len() - j,
        {
            assert(s0.queue.take(j + 1).drop_last() == s0.queue.take(j as int));
            let t = self.queue[j];
            if self.is_blocked(t) {
                dropped.push(t);
            } else {
                kept.push(t);
            }
            j += 1;
        }
        assert(s0.queue.take(s0.queue.len() as int) == s0.queue);
        let mut k: usize = 0;
        while k < dropped.len()
            invariant
                k <= dropped.len(),
                dropped@ == block_fold(s0, s0.queue).1,
                s0.wf(),
                self@ == (SchedulerView { failed: self@.failed, ..s0 }),
                self@.failed.len() == TOOL_COUNT,
                forall|i: int|
                    0 <= i < TOOL_COUNT ==> #[trigger] self@.failed[i] == (s0.failed[i] || (
                    dropped@.take(k as int).contains(Tool::spec_at(i)) && !s0.completed[i])),
            decreases dropped.len() - k,
        {
            let t = dropped[k];
            let ti = t.index();
            let ghost f0 = self@.failed;
            if !self.completed[ti] {
                self.failed.set(ti, true);
            }
            proof {
                assert forall|i: int| 0 <= i < TOOL_COUNT implies #[trigger] self@.failed[i] == (
                s0.failed[i] || (dropped@.take(k + 1).contains(Tool::spec_at(i))
                    && !s0.completed[i])) by {
                    assert(f0[i] == (s0.failed[i] || (dropped@.take(k as int).contains(
                        Tool::spec_at(i),
                    ) && !s0.completed[i])));
                    assert(self@.failed[i] == (if i == ti && !s0.completed[i] {
                        true
                    } else {
                        f0[i]
                    }));
                    crate::tool::law_index_round_trip(t, i);
                    crate::tool::law_index_round_trip(Tool::spec_at(i), i);
                    assert(dropped@.take(k + 1) == dropped@.take(k as int).push(t));
                    if i == ti {
                        assert(dropped@.take(k + 1)[k as int] == Tool::spec_at(i));
                    } else {
                        assert(Tool::spec_at(i) != t);
                    }
                    if dropped@.take(k + 1).contains(Tool::spec_at(i)) {
                        let w = choose|w: int|
                            0 <= w < dropped@.take(k + 1).len() && #[trigger] dropped@.take(k + 1)[w]
                                == Tool::spec_at(i);
                        if w < k {
                            assert(dropped@.take(k as int)[w] == Tool::spec_at(i));
                        }
                    }
                    if dropped@.take(k as int).contains(Tool::spec_at(i)) {
                        let w = choose|w: int|
                            0 <= w < dropped@.take(k as int).len() && #[trigger] dropped@.take(k as int)[w]
                                == Tool::spec_at(i);
                        assert(dropped@.take(k + 1)[w] == Tool::spec_at(i));
                    }
                }
            }
            k += 1;
        }
        assert(dropped@.take(dropped.len() as int) == dropped@);
        self.queue = kept;
        proof {
            assert(self@.failed =~= spec_drop_blocked(s0).failed);
            assert forall|i: int| 0 <= i < TOOL_COUNT implies !(#[trigger] self@.completed[i]
                && self@.failed[i]) by {
                assert(!(s0.completed[i] && s0.failed[i]));
            }
        }
        dropped
    }

    fn deps_complete(&self, t: Tool) -> (b: bool)
        requires
            self.completed@.len() == TOOL_COUNT,
        ensures
            b == deps_met(t, self.completed@),
    {
        let deps = t.deps();
        let mut i: usize = 0;
        while i < deps.len()
            invariant
                i <= deps.len(),
                deps@ == t.spec_deps(),
                self.completed@.len() == TOOL_COUNT,
                forall|k: int| 0 <= k < i ==> self.completed@[(#[trigger] deps@[k]).spec_index() as int],
            decreases deps.len() - i,
        {
            if !self.completed[deps[i].index()] {
                return false;
            }
            i += 1;
        }
        true
    }

    fn lock_busy(&self) -> (b: bool)
        requires
            self.running@.len() == TOOL_COUNT,
        ensures
            b == lock_taken(self.running@),
    {
        let mut i: usize = 0;
        while i < TOOL_COUNT
            invariant
                i <= TOOL_COUNT,
                self.running@.len() == TOOL_COUNT,
                forall|k: int|
                    0 <= k < i ==> !(self.running@[k] && #[trigger] Tool::spec_at(k).spec_needs_pacman_lock()),
            decreases TOOL_COUNT - i,
        {
            if self.running[i] && Tool::from_index(i).needs_pacman_lock() {
                return true;
            }
            i += 1;
        }
        false
    }
}

fn contains_tool(v: &Vec<Tool>, t: Tool) -> (b: bool)
    ensures
        b == v@.contains(t),
{
    let mut i: usize = 0;
    while i < v.len()
        invariant
            i <= v.len(),
            forall|k: int| 0 <= k < i ==> v@[k] != t,
        decreases v.len() - i,
    {
        if v[i] == t {
            return true;
        }
        i += 1;
    }
    false
}

proof fn lemma_holders_lower_bound(running: Seq<bool>, n: int, i: int, j: int)
    requires
        0 <= n <= running.len(),
        0 <= i < j,
        running[i] && Tool::spec_at(i).spec_needs_pacman_lock(),
        running[j] && Tool::spec_at(j).spec_needs_pacman_lock(),
    ensures
        lock_holders(running, n) >= (if i < n {
            1int
        } else {
            0int
        }) + (if j < n {
            1int
        } else {
            0int
        }),
    decreases n,
{
    if n > 0 {
        lemma_holders_lower_bound(running, n - 1, i, j);
    }
}

/// Law: in a well-formed scheduler, no two running tools both need the
/// pacman lock.
pub proof fn law_one_lock_holder(s: SchedulerView, i: int, j: int)
    requires
        s.wf(),
        0 <= i < j < TOOL_COUNT,
        s.running[i],
        s.running[j],
    ensures
        !(Tool::spec_at(i).spec_needs_pacman_lock() && Tool::spec_at(j).spec_needs_pacman_lock()),
{
    if Tool::spec_at(i).spec_needs_pacman_lock() && Tool::spec_at(j).spec_needs_pacman_lock() {
        lemma_holders_lower_bound(s.running, TOOL_COUNT as int, i, j);
    }
}

/// Law: a tool is started only when all its dependencies are complete.
pub proof fn law_started_tools_ready(q: Seq<Tool>, completed: Seq<bool>, busy: bool, t: Tool)
    requires
        ready_fold(q, completed, busy).1.contains(t),
    ensures
        deps_met(t, completed),
    decreases q.len(),
{
    if q.len() > 0 {
        let prev = ready_fold(q.drop_last(), completed, busy);
        let u = q.last();
        if deps_met(u, completed) && (!u.spec_needs_pacman_lock() || !prev.0) {
            let w = choose|w: int|
                0 <= w < prev.1.push(u).len() && prev.1.push(u)[w] == t;
            if w < prev.1.len() {
                assert(prev.1[w] == t);
                law_started_tools_ready(q.drop_last(), completed, busy, t);
            }
        } else {
            law_started_tools_ready(q.drop_last(), completed, busy, t);
        }
    }
}

/// Law: one pass over the queue splits it into started and still-queued
/// tools, losing and duplicating none; while the lock is taken no started
/// tool needs it, and otherwise at most one does.
pub proof fn law_ready_partition(q: Seq<Tool>, completed: Seq<bool>, busy: bool)
    ensures
        ready_fold(q, completed, busy).1.to_multiset().add(ready_fold(q, completed, busy).2.to_multiset())
            == q.to_multiset(),
        busy ==> forall|k: int|
            0 <= k < ready_fold(q, completed, busy).1.len() ==> !(#[trigger] ready_fold(
                q,
                completed,
                busy,
            ).1[k]).spec_needs_pacman_lock(),
        forall|k: int, m: int|
            0 <= k < m < ready_fold(q, completed, busy).1.len() ==> !((#[trigger] ready_fold(
                q,
                completed,
                busy,
            ).1[k]).spec_needs_pacman_lock() && (#[trigger] ready_fold(q, completed, busy).1[m]).spec_needs_pacman_lock()),
        ready_fold(q, completed, busy).0 == (busy || exists|k: int|
            0 <= k < ready_fold(q, completed, busy).1.len() && (#[trigger] ready_fold(
                q,
                completed,
                busy,
            ).1[k]).spec_needs_pacman_lock()),
    decreases q.len(),
{
    broadcast use vstd::seq_lib::group_to_multiset_ensures;

    if q.len() == 0 {
        assert(q.to_multiset() =~= vstd::multiset::Multiset::empty());
        assert(Seq::<Tool>::empty().to_multiset() =~= vstd::multiset::Multiset::empty());
    } else {
        law_ready_partition(q.drop_last(), completed, busy);
        let prev = ready_fold(q.drop_last(), completed, busy);
        let u = q.last();
        assert(q.drop_last().push(u) == q);
        let cur = ready_fold(q, completed, busy);
        if deps_met(u, completed) && (!u.spec_needs_pacman_lock() || !prev.0) {
            assert(cur.1 == prev.1.push(u));
            assert(cur.1.to_multiset().add(cur.2.to_multiset()) =~= q.to_multiset());
            assert forall|k: int, m: int|
                0 <= k < m < cur.1.len() implies !((#[trigger] cur.1[k]).spec_needs_pacman_lock()
                && (#[trigger] cur.1[m]).spec_needs_pacman_lock()) by {
                if m < prev.1.len() {
                    assert(cur.1[k] == prev.1[k] && cur.1[m] == prev.1[m]);
                } else if cur.1[k].spec_needs_pacman_lock() && cur.1[m].spec_needs_pacman_lock() {
                    assert(cur.1[k] == prev.1[k]);
                    assert(prev.0);
                }
            }
            if busy {
                assert forall|k: int| 0 <= k < cur.1.len() implies !(
                #[trigger] cur.1[k]).spec_needs_pacman_lock() by {
                    if k < prev.1.len() {
                        assert(cur.1[k] == prev.1[k]);
                    }
                }
            }
            if cur.0 {
                if !busy && !u.spec_needs_pacman_lock() {
                    let k = choose|k: int|
                        0 <= k < prev.1.len() && (#[trigger] prev.1[k]).spec_needs_pacman_lock();
                    assert(cur.1[k] == prev.1[k]);
                }
                if u.spec_needs_pacman_lock() {
                    assert(cur.1[cur.1.len() - 1] == u);
                }
            }
            if exists|k: int| 0 <= k < cur.1.len() && (#[trigger] cur.1[k]).spec_needs_pacman_lock() {
                let k = choose|k: int| 0 <= k < cur.1.len() && (#[trigger] cur.1[k]).spec_needs_pacman_lock();
                if k < prev.1.len() {
                    assert(cur.1[k] == prev.1[k]);
                }
            }
        } else {
            assert(cur.2 == prev.2.push(u));
            assert(cur.1.to_multiset().add(cur.2.to_multiset()) =~= q.to_multiset());
        }
    }
}

/// Law: a pass holds back no tool without cause. A queued tool whose
/// dependencies are complete and that needs no lock starts; and while the
/// lock is free, some tool starts as soon as any queued tool is ready.
pub proof fn law_ready_tools_start(q: Seq<Tool>, completed: Seq<bool>, busy: bool, t: Tool)
    requires
        q.contains(t),
        deps_met(t, completed),
    ensures
        !t.spec_needs_pacman_lock() ==> ready_fold(q, completed, busy).1.contains(t),
        !busy ==> ready_fold(q, completed, busy).1.len() > 0,
    decreases q.len(),
{
    let cur = ready_fold(q, completed, busy);
    let prev = ready_fold(q.drop_last(), completed, busy);
    let u = q.last();
    law_ready_partition(q.drop_last(), completed, busy);
    if u == t {
        if deps_met(u, completed) && (!u.spec_needs_pacman_lock() || !prev.0) {
            assert(cur.1 == prev.1.push(u));
            assert(cur.1[cur.1.len() - 1] == t);
        } else {
            // The lock is taken: by `busy`, or by a tool started earlier.
            if !busy {
                let k = choose|k: int|
                    0 <= k < prev.1.len() && (#[trigger] prev.1[k]).spec_needs_pacman_lock();
                assert(cur.1 == prev.1);
            }
        }
    } else {
        let w = choose|w: int| 0 <= w < q.len() && q[w] == t;
        assert(w < q.len() - 1);
        assert(q.drop_last()[w] == t);
        law_ready_tools_start(q.drop_last(), completed, busy, t);
        if deps_met(u, completed) && (!u.spec_needs_pacman_lock() || !prev.0) {
            assert(cur.1 == prev.1.push(u));
            if prev.1.contains(t) {
                let k = choose|k: int| 0 <= k < prev.1.len() && prev.1[k] == t;
                assert(cur.1[k] == t);
            }
        } else {
            assert(cur.1 == prev.1);
        }
    }
}

/// Law: once a dependency's install has failed, no pass over any queue
/// starts a tool that depends on it.
pub proof fn law_failed_dependency_blocks(
    s: SchedulerView,
    d: Tool,
    t: Tool,
    q: Seq<Tool>,
    busy: bool,
)
    requires
        s.wf(),
        t.spec_deps().contains(d),
    ensures
        !ready_fold(q, spec_mark_done(s, d, false).completed, busy).1.contains(t),
{
    let c = spec_mark_done(s, d, false).completed;
    if ready_fold(q, c, busy).1.contains(t) {
        law_started_tools_ready(q, c, busy, t);
        let k = choose|k: int| 0 <= k < t.spec_deps().len() && t.spec_deps()[k] == d;
        assert(c[(t.spec_deps()[k]).spec_index() as int]);
        assert(c[d.spec_index() as int] == false);
    }
}

/// Law: a tool whose install failed can be added again, and is queued again.
pub proof fn law_failed_tool_queued_again(s: SchedulerView, t: Tool)
    requires
        s.wf(),
        !s.queue.contains(t),
    ensures
        enqueue_fold(spec_mark_done(s, t, false), seq![t]) == s.queue.push(t),
{
    let s2 = spec_mark_done(s, t, false);
    assert(seq![t].drop_last() =~= Seq::<Tool>::empty());
    assert(seq![t].last() == t);
    assert(enqueue_fold(s2, Seq::<Tool>::empty()) == s.queue);
}

/// Law: dropping blocked tools keeps exactly the tools that are not blocked
/// and drops exactly those that are, losing and duplicating none.
pub proof fn law_block_partition(s: SchedulerView, q: Seq<Tool>)
    ensures
        forall|k: int|
            0 <= k < block_fold(s, q).0.len() ==> !blocked(s, #[trigger] block_fold(s, q).0[k]),
        forall|k: int|
            0 <= k < block_fold(s, q).1.len() ==> blocked(s, #[trigger] block_fold(s, q).1[k]),
        block_fold(s, q).0.to_multiset().add(block_fold(s, q).1.to_multiset()) == q.to_multiset(),
    decreases q.len(),
{
    broadcast use vstd::seq_lib::group_to_multiset_ensures;

    if q.len() == 0 {
        assert(q.to_multiset() =~= vstd::multiset::Multiset::empty());
        assert(Seq::<Tool>::empty().to_multiset() =~= vstd::multiset::Multiset::empty());
    } else {
        law_block_partition(s, q.drop_last());
        let prev = block_fold(s, q.drop_last());
        let t = q.last();
        assert(q.drop_last().push(t) == q);
        let cur = block_fold(s, q);
        if blocked(s, t) {
            assert(cur.1 == prev.1.push(t));
            assert forall|k: int| 0 <= k < cur.1.len() implies blocked(s, #[trigger] cur.1[k]) by {
                if k < prev.1.len() {
                    assert(cur.1[k] == prev.1[k]);
                }
            }
        } else {
            assert(cur.0 == prev.0.push(t));
            assert forall|k: int| 0 <= k < cur.0.len() implies !blocked(s, #[trigger] cur.0[k]) by {
                if k < prev.0.len() {
                    assert(cur.0[k] == prev.0[k]);
                }
            }
        }
        assert(cur.0.to_multiset().add(cur.1.to_multiset()) =~= q.to_multiset());
    }
}

/// Law: adding tools keeps the queue as it was and appends, once each and
/// in the order given, the added tools that are neither complete, running
/// nor queued already; every added tool that is neither complete nor
/// running ends up queued.
pub proof fn law_enqueue_skips_known(s: SchedulerView, more: Seq<Tool>)
    requires
        s.wf(),
    ensures
        ({
            let r = enqueue_fold(s, more);
            &&& r.len() >= s.queue.len()
            &&& r.take(s.queue.len() as int) == s.queue
            &&& forall|k: int|
                s.queue.len() <= k < r.len() ==> {
                    let t = #[trigger] r[k];
                    &&& !s.completed[t.spec_index() as int]
                    &&& !s.running[t.spec_index() as int]
                    &&& !s.queue.contains(t)
                    &&& more.contains(t)
                }
            &&& forall|k: int, m: int|
                s.queue.len() <= k < m < r.len() ==> #[trigger] r[k] != #[trigger] r[m]
            &&& forall|j: int|
                0 <= j < more.len() && !s.completed[(#[trigger] more[j]).spec_index() as int]
                    && !s.running[more[j].spec_index() as int] ==> r.contains(more[j])
        }),
    decreases more.len(),
{
    let r = enqueue_fold(s, more);
    if more.len() == 0 {
        assert(r.take(s.queue.len() as int) =~= s.queue);
    } else {
        let q = enqueue_fold(s, more.drop_last());
        law_enqueue_skips_known(s, more.drop_last());
        let t = more.last();
        let n = s.queue.len() as int;
        if r != q {
            assert(r == q.push(t));
            assert(r.take(n) =~= q.take(n));
            assert forall|k: int| n <= k < r.len() implies {
                let u = #[trigger] r[k];
                &&& !s.completed[u.spec_index() as int]
                &&& !s.running[u.spec_index() as int]
                &&& !s.queue.contains(u)
                &&& more.contains(u)
            } by {
                if k < q.len() {
                    assert(r[k] == q[k]);
                    assert(more.drop_last().contains(q[k]));
                    let w = choose|w: int| 0 <= w < more.drop_last().len() && more.drop_last()[w] == q[k];
                    assert(more[w] == q[k]);
                } else {
                    assert(r[k] == t);
                    assert(more[more.len() - 1] == t);
                    if s.queue.contains(t) {
                        let w = choose|w: int| 0 <= w < s.queue.len() && s.queue[w] == t;
                        assert(q[w] == q.take(n)[w]);
                        assert(q.contains(t));
                    }
                }
            }
            assert forall|k: int, m: int| n <= k < m < r.len() implies #[trigger] r[k]
                != #[trigger] r[m] by {
                if m == r.len() - 1 {
                    assert(r[m] == t);
                    assert(r[k] == q[k]);
                    assert(!q.contains(t));
                } else {
                    assert(r[k] == q[k] && r[m] == q[m]);
                }
            }
        } else {
            assert forall|k: int, m: int| n <= k < m < r.len() implies #[trigger] r[k]
                != #[trigger] r[m] by {
                assert(r[k] == q[k] && r[m] == q[m]);
            }
            assert forall|k: int| n <= k < r.len() implies {
                let u = #[trigger] r[k];
                &&& !s.completed[u.spec_index() as int]
                &&& !s.running[u.spec_index() as int]
                &&& !s.queue.contains(u)
                &&& more.contains(u)
            } by {
                assert(r[k] == q[k]);
                let w = choose|w: int| 0 <= w < more.drop_last().len() && more.drop_last()[w] == q[k];
                assert(more[w] == q[k]);
            }
        }
        assert forall|j: int|
            0 <= j < more.len() && !s.completed[(#[trigger] more[j]).spec_index() as int]
                && !s.running[more[j].spec_index() as int] implies r.contains(more[j]) by {
            if j < more.len() - 1 {
                assert(more.drop_last()[j] == more[j]);
                assert(q.contains(more[j]));
                let w = choose|w: int| 0 <= w < q.len() && q[w] == more[j];
                if r != q {
                    assert(r[w] == more[j]);
                }
            } else {
                assert(more[j] == t);
                if r != q {
                    assert(r[r.len() - 1] == t);
                }
            }
        }
    }
}

} // verus!
