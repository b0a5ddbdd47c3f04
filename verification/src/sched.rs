use vstd::prelude::*;
use crate::net::NetworkStack;

verus! {

/// Execution states of a task in the scheduler's table.
#[derive(Clone, Copy, PartialEq, Eq, Structural, Debug)]
pub enum TaskState {
    Ready,
    Suspended,
    Completed,
}

/// The blink task: toggle one digital output line, then suspend for exactly
/// one second, forever. `led_on` is the line's level, `toggles` counts the
/// toggles so far, and `next_wake` is when the one-second timer fires.
#[derive(Clone, Copy, PartialEq, Eq, Structural, Debug)]
pub struct BlinkTask {
    pub led_on: bool,
    pub toggles: u64,
    pub next_wake: u64,
}

/// The link task: poll the network stack, then suspend until there is new
/// work, forever. Every simulated second brings new timer work inside the
/// stack, so the task is resumed on every tick.
#[derive(Clone, Copy, PartialEq, Eq, Structural, Debug)]
pub struct LinkTask {
    pub polls: u64,
}

/// What one slot of the task table runs.
#[derive(Clone, Copy, PartialEq, Eq, Structural, Debug)]
pub enum TaskProgram {
    Blink(BlinkTask),
    Link(LinkTask),
}

/// One slot of the task table.
#[derive(Clone, Copy, PartialEq, Eq, Structural, Debug)]
pub struct TaskEntry {
    pub program: TaskProgram,
    pub state: TaskState,
}

/// Spawning into a full table fails: capacity is fixed at construction, so
/// exhaustion signals a configuration error, not a runtime fault.
#[derive(Clone, Copy, PartialEq, Eq, Structural, Debug)]
pub enum SpawnError {
    TableFull,
}

/// The cooperative scheduler: a fixed-capacity task table and the simulated
/// clock, advanced one second per tick. Exactly one task executes at any
/// instant; control moves only when the running task suspends.
pub struct Scheduler {
    pub capacity: usize,
    pub tasks: Vec<TaskEntry>,
    pub now: u64,
}

/// Is this entry the blink task?
pub open spec fn is_blink(e: TaskEntry) -> bool {
    e.program is Blink
}

/// Is this entry the link task?
pub open spec fn is_link(e: TaskEntry) -> bool {
    e.program is Link
}

/// The blink task inside an entry (meaningful only when `is_blink`).
pub open spec fn blink_of(e: TaskEntry) -> BlinkTask {
    match e.program {
        TaskProgram::Blink(b) => b,
        TaskProgram::Link(_) => BlinkTask { led_on: false, toggles: 0, next_wake: 0 },
    }
}

/// The link task inside an entry (meaningful only when `is_link`).
pub open spec fn link_of(e: TaskEntry) -> LinkTask {
    match e.program {
        TaskProgram::Link(l) => l,
        TaskProgram::Blink(_) => LinkTask { polls: 0 },
    }
}

/// The line level an initially-`init` output shows after `n` toggles:
/// strict alternation is exactly dependence on the parity of `n`.
pub open spec fn parity_led(init: bool, n: nat) -> bool {
    if n % 2 == 0 {
        init
    } else {
        !init
    }
}

impl Scheduler {
    /// A task's bookkeeping never runs ahead of the clock: counters are
    /// bounded by `now`, and the blink timer fires within the next second.
    pub open spec fn entry_wf(e: TaskEntry, now: u64) -> bool {
        match e.program {
            TaskProgram::Blink(b) => b.toggles <= now && b.next_wake <= now + 1,
            TaskProgram::Link(l) => l.polls <= now,
        }
    }

    pub open spec fn wf(self) -> bool {
        &&& self.tasks@.len() <= self.capacity
        &&& forall|i: int|
            0 <= i < self.tasks@.len() ==> Self::entry_wf(self.tasks@[i], self.now)
    }

    /// How one table entry moves across one tick, the clock having just
    /// advanced to `new_now`. A completed task never runs again; the blink
    /// task runs when its timer has fired; the link task runs every tick.
    /// A task that runs suspends again before the tick ends: that is the
    /// cooperative contract.
    pub open spec fn step_entry(e: TaskEntry, new_now: u64) -> TaskEntry {
        if e.state == TaskState::Completed {
            e
        } else {
            match e.program {
                TaskProgram::Blink(b) => if new_now >= b.next_wake {
                    TaskEntry {
                        program: TaskProgram::Blink(
                            BlinkTask {
                                led_on: !b.led_on,
                                toggles: (b.toggles + 1) as u64,
                                next_wake: (new_now + 1) as u64,
                            },
                        ),
                        state: TaskState::Suspended,
                    }
                } else {
                    e
                },
                TaskProgram::Link(l) => TaskEntry {
                    program: TaskProgram::Link(LinkTask { polls: (l.polls + 1) as u64 }),
                    state: TaskState::Suspended,
                },
            }
        }
    }

    /// One table entry after `n` whole ticks, the clock starting at `now0`.
    pub open spec fn entry_after_ticks(e: TaskEntry, now0: u64, n: nat) -> TaskEntry
        decreases n,
    {
        if n == 0 {
            e
        } else {
            Self::step_entry(
                Self::entry_after_ticks(e, now0, (n - 1) as nat),
                (now0 + n) as u64,
            )
        }
    }

    /// An empty table of the given fixed capacity, clock at zero.
    pub fn new(capacity: usize) -> (r: Scheduler)
        ensures
            r.capacity == capacity,
            r.tasks@.len() == 0,
            r.now == 0,
            r.wf(),
    {
        Scheduler { capacity, tasks: Vec::new(), now: 0 }
    }

    pub fn task_count(&self) -> (r: usize)
        ensures
            r == self.tasks@.len(),
    {
        self.tasks.len()
    }

    /// Enqueue a task. Succeeds, returning its slot index, exactly while
    /// the fixed table has room; one further spawn fails. The new length is
    /// one step of the `count_after_attempts` model.
    pub fn spawn(&mut self, program: TaskProgram) -> (r: Result<usize, SpawnError>)
        requires
            old(self).wf(),
            Self::entry_wf(
                TaskEntry { program, state: TaskState::Ready },
                old(self).now,
            ),
        ensures
            final(self).capacity == old(self).capacity,
            final(self).now == old(self).now,
            r is Ok <==> old(self).tasks@.len() < old(self).capacity,
            r matches Ok(i) ==> i == old(self).tasks@.len() && final(self).tasks@ == old(
                self,
            ).tasks@.push(TaskEntry { program, state: TaskState::Ready }),
            r is Err ==> final(self).tasks@ == old(self).tasks@ && r == Err::<usize, SpawnError>(
                SpawnError::TableFull,
            ),
            final(self).tasks@.len() == if old(self).tasks@.len() < old(self).capacity {
                old(self).tasks@.len() + 1
            } else {
                old(self).tasks@.len() as nat
            },
            final(self).wf(),
    {
        if self.tasks.len() < self.capacity {
            let i = self.tasks.len();
            self.tasks.push(TaskEntry { program, state: TaskState::Ready });
            Ok(i)
        } else {
            Err(SpawnError::TableFull)
        }
    }

    /// One tick: the clock advances one second, then the table is walked in
    /// order and every task whose wait condition is satisfied runs once,
    /// one at a time, suspending again before the next task starts. The
    /// link task drives the stack's protocol machinery; nothing a task does
    /// touches the stack's configuration or its slot table.
    pub fn tick(&mut self, stack: &mut NetworkStack)
        requires
            old(self).wf(),
            old(self).now + 2 <= u64::MAX,
        ensures
            final(self).capacity == old(self).capacity,
            final(self).now == old(self).now + 1,
            final(self).tasks@.len() == old(self).tasks@.len(),
            forall|i: int|
                0 <= i < old(self).tasks@.len() ==> final(self).tasks@[i] == Self::step_entry(
                    old(self).tasks@[i],
                    (old(self).now + 1) as u64,
                ),
            final(self).wf(),
            final(stack).config == old(stack).config,
            final(stack).slots@ == old(stack).slots@,
            final(stack).seed == old(stack).seed,
            final(stack).polls >= old(stack).polls,
            final(stack).device.frames_driven >= old(stack).device.frames_driven,
    {
        self.now = self.now + 1;
        let n = self.tasks.len();
        let mut i: usize = 0;
        while i < n
            invariant
                old(self).wf(),
                old(self).now + 2 <= u64::MAX,
                self.capacity == old(self).capacity,
                self.now == old(self).now + 1,
                n == self.tasks@.len(),
                self.tasks@.len() == old(self).tasks@.len(),
                i <= n,
                forall|j: int|
                    0 <= j < i ==> self.tasks@[j] == Self::step_entry(
                        old(self).tasks@[j],
                        self.now,
                    ),
                forall|j: int| i <= j < n ==> self.tasks@[j] == old(self).tasks@[j],
                stack.config == old(stack).config,
                stack.slots@ == old(stack).slots@,
                stack.seed == old(stack).seed,
                stack.polls >= old(stack).polls,
                stack.device.frames_driven >= old(stack).device.frames_driven,
            decreases n - i,
        {
            let e = self.tasks[i];
            proof {
                assert(Self::entry_wf(old(self).tasks@[i as int], old(self).now));
            }
            match e.program {
                TaskProgram::Blink(b) => {
                    if e.state != TaskState::Completed && self.now >= b.next_wake {
                        self.tasks.set(
                            i,
                            TaskEntry {
                                program: TaskProgram::Blink(
                                    BlinkTask {
                                        led_on: !b.led_on,
                                        toggles: b.toggles + 1,
                                        next_wake: self.now + 1,
                                    },
                                ),
                                state: TaskState::Suspended,
                            },
                        );
                    }
                },
                TaskProgram::Link(l) => {
                    if e.state != TaskState::Completed {
                        stack.poll();
                        self.tasks.set(
                            i,
                            TaskEntry {
                                program: TaskProgram::Link(LinkTask { polls: l.polls + 1 }),
                                state: TaskState::Suspended,
                            },
                        );
                    }
                },
            }
            i = i + 1;
        }
        proof {
            assert forall|i: int|
                0 <= i < final(self).tasks@.len() implies Self::entry_wf(
                final(self).tasks@[i],
                final(self).now,
            ) by {
                assert(Self::entry_wf(old(self).tasks@[i], old(self).now));
            }
        }
    }

    /// Advance the simulated clock by exactly one second, `n` times. On
    /// hardware this loop runs with no bound and never returns; here it is
    /// bounded so that every run of it can be stated exactly.
    pub fn run_ticks(&mut self, stack: &mut NetworkStack, n: u64)
        requires
            old(self).wf(),
            old(self).now + n + 1 <= u64::MAX,
        ensures
            final(self).capacity == old(self).capacity,
            final(self).now == old(self).now + n,
            final(self).tasks@.len() == old(self).tasks@.len(),
            forall|i: int|
                0 <= i < old(self).tasks@.len() ==> final(self).tasks@[i]
                    == Self::entry_after_ticks(old(self).tasks@[i], old(self).now, n as nat),
            final(self).wf(),
            final(stack).config == old(stack).config,
            final(stack).slots@ == old(stack).slots@,
            final(stack).seed == old(stack).seed,
            final(stack).polls >= old(stack).polls,
            final(stack).device.frames_driven >= old(stack).device.frames_driven,
    {
        let mut k: u64 = 0;
        while k < n
            invariant
                old(self).now + n + 1 <= u64::MAX,
                k <= n,
                self.capacity == old(self).capacity,
                self.now == old(self).now + k,
                self.tasks@.len() == old(self).tasks@.len(),
                forall|i: int|
                    0 <= i < old(self).tasks@.len() ==> self.tasks@[i] == Self::entry_after_ticks(
                        old(self).tasks@[i],
                        old(self).now,
                        k as nat,
                    ),
                self.wf(),
                stack.config == old(stack).config,
                stack.slots@ == old(stack).slots@,
                stack.seed == old(stack).seed,
                stack.polls >= old(stack).polls,
                stack.device.frames_driven >= old(stack).device.frames_driven,
            decreases n - k,
        {
            let ghost tasks_before = self.tasks@;
            self.tick(stack);
            proof {
                assert forall|i: int|
                    0 <= i < old(self).tasks@.len() implies self.tasks@[i]
                    == Self::entry_after_ticks(
                    old(self).tasks@[i],
                    old(self).now,
                    (k + 1) as nat,
                ) by {
                    assert(self.tasks@[i] == Self::step_entry(tasks_before[i], self.now));
                    assert(Self::entry_after_ticks(old(self).tasks@[i], old(self).now, (k + 1) as nat)
                        == Self::step_entry(
                        Self::entry_after_ticks(old(self).tasks@[i], old(self).now, k as nat),
                        (old(self).now + k + 1) as u64,
                    ));
                }
            }
            k = k + 1;
        }
    }
}

/// How many tasks a table of capacity `cap` holds after `k` spawn attempts
/// starting from empty: each attempt adds one exactly while room is left,
/// as `spawn` ensures of each single call.
pub open spec fn count_after_attempts(cap: nat, k: nat) -> nat
    decreases k,
{
    if k == 0 {
        0
    } else {
        let p = count_after_attempts(cap, (k - 1) as nat);
        if p < cap {
            p + 1
        } else {
            p
        }
    }
}

/// Whether spawn attempt number `k` (counting from zero) succeeds.
pub open spec fn attempt_succeeds(cap: nat, k: nat) -> bool {
    count_after_attempts(cap, k) < cap
}

/// Law: from an empty table of any capacity `cap`, each of the first `cap`
/// spawn attempts succeeds, and every attempt after them fails: the table
/// then holds exactly `cap` tasks, never more.
pub proof fn lemma_spawn_capacity(cap: nat, k: nat)
    ensures
        count_after_attempts(cap, k) == (if k <= cap {
            k
        } else {
            cap
        }),
        attempt_succeeds(cap, k) <==> k < cap,
    decreases k,
{
    if k > 0 {
        lemma_spawn_capacity(cap, (k - 1) as nat);
    }
}

/// Law: across `n` one-second ticks a live blink task runs exactly once
/// per tick: its line toggles exactly `n` times, strictly alternating from
/// its initial level, so the level after `n` ticks depends exactly on the
/// parity of `n`.
pub proof fn lemma_blink_progress(e: TaskEntry, now0: u64, n: nat)
    requires
        is_blink(e),
        e.state != TaskState::Completed,
        Scheduler::entry_wf(e, now0),
        now0 + n + 1 <= u64::MAX,
    ensures
        is_blink(Scheduler::entry_after_ticks(e, now0, n)),
        Scheduler::entry_after_ticks(e, now0, n).state != TaskState::Completed,
        blink_of(Scheduler::entry_after_ticks(e, now0, n)).toggles == blink_of(e).toggles + n,
        blink_of(Scheduler::entry_after_ticks(e, now0, n)).led_on == parity_led(
            blink_of(e).led_on,
            n,
        ),
        n >= 1 ==> blink_of(Scheduler::entry_after_ticks(e, now0, n)).led_on != blink_of(
            Scheduler::entry_after_ticks(e, now0, (n - 1) as nat),
        ).led_on,
        Scheduler::entry_wf(Scheduler::entry_after_ticks(e, now0, n), (now0 + n) as u64),
    decreases n,
{
    if n > 0 {
        lemma_blink_progress(e, now0, (n - 1) as nat);
    }
}

/// Law: across `n` one-second ticks a live link task runs exactly once per
/// tick, polling the stack each time: it makes `n` polls of progress.
pub proof fn lemma_link_progress(e: TaskEntry, now0: u64, n: nat)
    requires
        is_link(e),
        e.state != TaskState::Completed,
        Scheduler::entry_wf(e, now0),
        now0 + n + 1 <= u64::MAX,
    ensures
        is_link(Scheduler::entry_after_ticks(e, now0, n)),
        Scheduler::entry_after_ticks(e, now0, n).state != TaskState::Completed,
        link_of(Scheduler::entry_after_ticks(e, now0, n)).polls == link_of(e).polls + n,
        Scheduler::entry_wf(Scheduler::entry_after_ticks(e, now0, n), (now0 + n) as u64),
    decreases n,
{
    if n > 0 {
        lemma_link_progress(e, now0, (n - 1) as nat);
    }
}

/// Law: with one blink task and one link task in the table — one suspends
/// on its one-second timer, the other suspends on every poll iteration —
/// both make measurable forward progress over any run: after `n` ticks
/// each has run exactly `n` times. Neither starves the other, because each
/// iteration of either task suspends before the next task runs.
pub proof fn lemma_two_tasks_progress(eb: TaskEntry, el: TaskEntry, now0: u64, n: nat)
    requires
        is_blink(eb),
        is_link(el),
        eb.state != TaskState::Completed,
        el.state != TaskState::Completed,
        Scheduler::entry_wf(eb, now0),
        Scheduler::entry_wf(el, now0),
        now0 + n + 1 <= u64::MAX,
    ensures
        blink_of(Scheduler::entry_after_ticks(eb, now0, n)).toggles == blink_of(eb).toggles + n,
        link_of(Scheduler::entry_after_ticks(el, now0, n)).polls == link_of(el).polls + n,
{
    lemma_blink_progress(eb, now0, n);
    lemma_link_progress(el, now0, n);
}

} // verus!
