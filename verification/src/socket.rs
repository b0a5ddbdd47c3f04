use vstd::prelude::*;
use crate::net::{NetworkStack, SlotError};

verus! {

/// Lifecycle states of a TCP socket resource.
#[derive(Clone, Copy, PartialEq, Eq, Structural, Debug)]
pub enum SocketState {
    Closed,
    Connecting,
    Listening,
    Established,
    Closing,
}

/// A TCP socket resource: two fixed-capacity buffers, one slot of the owning
/// stack's table, an optional idle-timeout policy, and the idle clock.
///
/// `idle` counts the simulated seconds since the connection was established
/// or last exchanged data; it is meaningful only while `state` is
/// `Established`.
pub struct TcpSocket {
    pub state: SocketState,
    pub slot: usize,
    pub rx_capacity: usize,
    pub tx_capacity: usize,
    pub timeout: Option<u64>,
    pub idle: u64,
}

impl TcpSocket {
    /// Bind a new socket resource to the stack, claiming one of its fixed
    /// slots. Succeeds exactly when a slot is free; the buffers never
    /// reallocate, so their capacities are fixed here once.
    pub fn new(stack: &mut NetworkStack, rx_capacity: usize, tx_capacity: usize) -> (r: Result<
        TcpSocket,
        SlotError,
    >)
        ensures
            final(stack).config == old(stack).config,
            final(stack).seed == old(stack).seed,
            final(stack).polls == old(stack).polls,
            final(stack).device == old(stack).device,
            final(stack).slots@.len() == old(stack).slots@.len(),
            r is Ok <==> old(stack).has_free_slot(),
            r matches Ok(s) ==> {
                &&& s.state == SocketState::Closed
                &&& s.rx_capacity == rx_capacity
                &&& s.tx_capacity == tx_capacity
                &&& s.timeout is None
                &&& s.idle == 0
                &&& s.slot < old(stack).slots@.len()
                &&& !old(stack).slots@[s.slot as int]
                &&& (forall|j: int| 0 <= j < s.slot ==> old(stack).slots@[j])
                &&& final(stack).slots@ == old(stack).slots@.update(s.slot as int, true)
            },
            r is Err ==> final(stack).slots@ == old(stack).slots@ && r == Err::<
                TcpSocket,
                SlotError,
            >(SlotError::Exhausted),
    {
        match stack.allocate_slot() {
            Ok(slot) => Ok(
                TcpSocket {
                    state: SocketState::Closed,
                    slot,
                    rx_capacity,
                    tx_capacity,
                    timeout: None,
                    idle: 0,
                },
            ),
            Err(e) => Err(e),
        }
    }

    /// Configure the idle-timeout policy: `None` disables it.
    pub fn set_timeout(&mut self, timeout: Option<u64>)
        ensures
            final(self).timeout == timeout,
            final(self).state == old(self).state,
            final(self).slot == old(self).slot,
            final(self).rx_capacity == old(self).rx_capacity,
            final(self).tx_capacity == old(self).tx_capacity,
            final(self).idle == old(self).idle,
    {
        self.timeout = timeout;
    }

    /// Active open: start connecting out.
    pub fn open_active(&mut self)
        requires
            old(self).state == SocketState::Closed,
        ensures
            final(self).state == SocketState::Connecting,
            final(self).slot == old(self).slot,
            final(self).rx_capacity == old(self).rx_capacity,
            final(self).tx_capacity == old(self).tx_capacity,
            final(self).timeout == old(self).timeout,
            final(self).idle == old(self).idle,
    {
        self.state = SocketState::Connecting;
    }

    /// Passive open: start listening for a peer.
    pub fn open_passive(&mut self)
        requires
            old(self).state == SocketState::Closed,
        ensures
            final(self).state == SocketState::Listening,
            final(self).slot == old(self).slot,
            final(self).rx_capacity == old(self).rx_capacity,
            final(self).tx_capacity == old(self).tx_capacity,
            final(self).timeout == old(self).timeout,
            final(self).idle == old(self).idle,
    {
        self.state = SocketState::Listening;
    }

    /// The handshake finished: the connection is established and the idle
    /// clock starts from zero.
    pub fn on_connected(&mut self)
        requires
            old(self).state == SocketState::Connecting || old(self).state
                == SocketState::Listening,
        ensures
            final(self).state == SocketState::Established,
            final(self).idle == 0,
            final(self).slot == old(self).slot,
            final(self).rx_capacity == old(self).rx_capacity,
            final(self).tx_capacity == old(self).tx_capacity,
            final(self).timeout == old(self).timeout,
    {
        self.state = SocketState::Established;
        self.idle = 0;
    }

    /// Begin an orderly teardown of an established connection.
    pub fn start_close(&mut self)
        requires
            old(self).state == SocketState::Established,
        ensures
            final(self).state == SocketState::Closing,
            final(self).slot == old(self).slot,
            final(self).rx_capacity == old(self).rx_capacity,
            final(self).tx_capacity == old(self).tx_capacity,
            final(self).timeout == old(self).timeout,
            final(self).idle == old(self).idle,
    {
        self.state = SocketState::Closing;
    }

    /// The teardown completed: back to Closed.
    pub fn finish_close(&mut self)
        requires
            old(self).state == SocketState::Closing,
        ensures
            final(self).state == SocketState::Closed,
            final(self).idle == 0,
            final(self).slot == old(self).slot,
            final(self).rx_capacity == old(self).rx_capacity,
            final(self).tx_capacity == old(self).tx_capacity,
            final(self).timeout == old(self).timeout,
    {
        self.state = SocketState::Closed;
        self.idle = 0;
    }

    /// Note that `bytes` bytes were exchanged just now. While the connection
    /// is established, any data resets the idle clock; everywhere else the
    /// call has no effect.
    pub fn record_activity(&mut self, bytes: usize)
        ensures
            final(self).state == old(self).state,
            final(self).slot == old(self).slot,
            final(self).rx_capacity == old(self).rx_capacity,
            final(self).tx_capacity == old(self).tx_capacity,
            final(self).timeout == old(self).timeout,
            final(self).idle == if old(self).state == SocketState::Established && bytes > 0 {
                0
            } else {
                old(self).idle as int
            },
    {
        if bytes > 0 {
            if self.state == SocketState::Established {
                self.idle = 0;
            }
        }
    }

    /// Let `dt` simulated seconds pass. An established connection whose idle
    /// clock reaches the timeout is torn down to Closed; short of that the
    /// idle clock just advances. Without a timeout policy, or outside
    /// Established, time leaves the socket untouched.
    pub fn advance(&mut self, dt: u64)
        ensures
            final(self).slot == old(self).slot,
            final(self).rx_capacity == old(self).rx_capacity,
            final(self).tx_capacity == old(self).tx_capacity,
            final(self).timeout == old(self).timeout,
            old(self).timeout matches Some(t) ==> (old(self).state == SocketState::Established
                ==> if old(self).idle + dt >= t {
                final(self).state == SocketState::Closed && final(self).idle == 0
            } else {
                final(self).state == SocketState::Established && final(self).idle == old(self).idle
                    + dt
            }),
            old(self).state != SocketState::Established || old(self).timeout is None
                ==> *final(self) == *old(self),
    {
        if self.state == SocketState::Established {
            if let Some(t) = self.timeout {
                if self.idle >= t {
                    self.state = SocketState::Closed;
                    self.idle = 0;
                } else if dt >= t - self.idle {
                    self.state = SocketState::Closed;
                    self.idle = 0;
                } else {
                    self.idle = self.idle + dt;
                }
            }
        }
    }

    /// Run the socket through a sequence of simulated seconds. During second
    /// `i`, `events[i]` says whether any data was exchanged; the data (if
    /// any) is seen first, then one second of idle time passes. The result
    /// is exactly the `sec_run` model of the event trace.
    pub fn run_seconds(&mut self, events: &Vec<bool>)
        ensures
            final(self).slot == old(self).slot,
            final(self).rx_capacity == old(self).rx_capacity,
            final(self).tx_capacity == old(self).tx_capacity,
            final(self).timeout == old(self).timeout,
            old(self).timeout matches Some(t) ==> (final(self).state, final(self).idle as nat)
                == sec_run(old(self).state, old(self).idle as nat, t as nat, events@),
            old(self).timeout is None ==> *final(self) == *old(self),
    {
        let t_opt = self.timeout;
        match t_opt {
            None => {},
            Some(tv) => {
                let mut i: usize = 0;
                while i < events.len()
                    invariant
                        old(self).timeout == Some(tv),
                        self.timeout == old(self).timeout,
                        self.slot == old(self).slot,
                        self.rx_capacity == old(self).rx_capacity,
                        self.tx_capacity == old(self).tx_capacity,
                        i <= events@.len(),
                        (self.state, self.idle as nat) == sec_run(
                            old(self).state,
                            old(self).idle as nat,
                            tv as nat,
                            events@.take(i as int),
                        ),
                    decreases events@.len() - i,
                {
                    if events[i] {
                        self.record_activity(1);
                    }
                    self.advance(1);
                    proof {
                        assert(events@.take(i + 1) =~= events@.take(i as int).push(
                            events@[i as int],
                        ));
                        lemma_sec_run_push(
                            old(self).state,
                            old(self).idle as nat,
                            tv as nat,
                            events@.take(i as int),
                            events@[i as int],
                        );
                    }
                    i = i + 1;
                }
                proof {
                    assert(events@.take(events@.len() as int) =~= events@);
                }
            },
        }
    }

    /// Release the resource, giving its slot back to the stack that it was
    /// bound to.
    pub fn release(self, stack: &mut NetworkStack)
        requires
            self.slot < old(stack).slots@.len(),
        ensures
            final(stack).config == old(stack).config,
            final(stack).seed == old(stack).seed,
            final(stack).polls == old(stack).polls,
            final(stack).device == old(stack).device,
            final(stack).slots@ == old(stack).slots@.update(self.slot as int, false),
    {
        stack.release_slot(self.slot);
    }
}

/// One simulated second of the idle-timeout model: data (if any) first, then
/// one second of idle time. Only an Established socket moves.
pub open spec fn sec_step(st: SocketState, idle: nat, t: nat, data: bool) -> (SocketState, nat) {
    if st == SocketState::Established {
        let idle1: nat = if data {
            0
        } else {
            idle
        };
        if idle1 + 1 >= t {
            (SocketState::Closed, 0 as nat)
        } else {
            (SocketState::Established, (idle1 + 1) as nat)
        }
    } else {
        (st, idle)
    }
}

/// The idle-timeout model folded over a whole trace of seconds.
pub open spec fn sec_run(st: SocketState, idle: nat, t: nat, events: Seq<bool>) -> (SocketState, nat)
    decreases events.len(),
{
    if events.len() == 0 {
        (st, idle)
    } else {
        let s1 = sec_step(st, idle, t, events[0]);
        sec_run(s1.0, s1.1, t, events.drop_first())
    }
}

/// Seconds `j .. j + w` of the trace all pass without data.
pub open spec fn quiet_run_at(e: Seq<bool>, j: int, w: nat) -> bool {
    &&& 0 <= j
    &&& j + w <= e.len()
    &&& forall|k: int| j <= k < j + w ==> !e[k]
}

/// Every span of `w` consecutive seconds of the trace carries data.
pub open spec fn windows_have_data(e: Seq<bool>, w: nat) -> bool {
    forall|j: int| !quiet_run_at(e, j, w)
}

/// Whether any second of the trace carries data.
pub open spec fn has_data(e: Seq<bool>) -> bool {
    exists|k: int| 0 <= k < e.len() && e[k]
}

/// How many seconds at the end of the trace pass without data.
pub open spec fn quiet_tail(e: Seq<bool>) -> nat
    decreases e.len(),
{
    if e.len() == 0 {
        0
    } else if e.last() {
        0
    } else {
        quiet_tail(e.drop_last()) + 1
    }
}

/// The idle clock a surviving socket shows after the trace: seconds since
/// the last data event, counting from the start of the second it arrived
/// in, or the whole trace length if no data ever arrived.
pub open spec fn model_idle(e: Seq<bool>) -> nat {
    if has_data(e) {
        quiet_tail(e) + 1
    } else {
        e.len()
    }
}

/// Running the model one second longer is stepping its result once.
pub proof fn lemma_sec_run_push(st: SocketState, idle: nat, t: nat, e: Seq<bool>, x: bool)
    ensures
        sec_run(st, idle, t, e.push(x)) == sec_step(
            sec_run(st, idle, t, e).0,
            sec_run(st, idle, t, e).1,
            t,
            x,
        ),
    decreases e.len(),
{
    if e.len() == 0 {
        assert(e.push(x)[0] == x);
        assert(e.push(x).drop_first() =~= e);
        let m = sec_step(st, idle, t, x);
        assert(sec_run(m.0, m.1, t, e) == (m.0, m.1));
    } else {
        let s1 = sec_step(st, idle, t, e[0]);
        assert(e.push(x)[0] == e[0]);
        assert(e.push(x).drop_first() =~= e.drop_first().push(x));
        lemma_sec_run_push(s1.0, s1.1, t, e.drop_first(), x);
    }
}

/// Running the model over a concatenation is running it over each part.
pub proof fn lemma_sec_run_concat(st: SocketState, idle: nat, t: nat, e1: Seq<bool>, e2: Seq<bool>)
    ensures
        sec_run(st, idle, t, e1 + e2) == sec_run(
            sec_run(st, idle, t, e1).0,
            sec_run(st, idle, t, e1).1,
            t,
            e2,
        ),
    decreases e1.len(),
{
    if e1.len() == 0 {
        assert(e1 + e2 =~= e2);
    } else {
        let s1 = sec_step(st, idle, t, e1[0]);
        assert((e1 + e2)[0] == e1[0]);
        assert((e1 + e2).drop_first() =~= e1.drop_first() + e2);
        lemma_sec_run_concat(s1.0, s1.1, t, e1.drop_first(), e2);
    }
}

/// Outside Established the model never moves: in particular, a Closed
/// socket stays Closed whatever the rest of the trace brings.
pub proof fn lemma_sec_run_frozen(st: SocketState, idle: nat, t: nat, e: Seq<bool>)
    requires
        st != SocketState::Established,
    ensures
        sec_run(st, idle, t, e) == (st, idle),
    decreases e.len(),
{
    if e.len() > 0 {
        lemma_sec_run_frozen(st, idle, t, e.drop_first());
    }
}

/// From Established the model only ever reaches Established or Closed.
pub proof fn lemma_sec_run_from_established(idle: nat, t: nat, e: Seq<bool>)
    ensures
        sec_run(SocketState::Established, idle, t, e).0 == SocketState::Established || sec_run(
            SocketState::Established,
            idle,
            t,
            e,
        ).0 == SocketState::Closed,
    decreases e.len(),
{
    if e.len() > 0 {
        let s1 = sec_step(SocketState::Established, idle, t, e[0]);
        if s1.0 == SocketState::Established {
            lemma_sec_run_from_established(s1.1, t, e.drop_first());
        } else {
            lemma_sec_run_frozen(s1.0, s1.1, t, e.drop_first());
        }
    }
}

/// An Established socket closes within any all-quiet trace long enough for
/// the idle clock to reach the timeout.
proof fn lemma_quiet_run_closes(idle: nat, t: nat, e: Seq<bool>)
    requires
        t >= 1,
        e.len() >= 1,
        idle + e.len() >= t,
        forall|k: int| 0 <= k < e.len() ==> !e[k],
    ensures
        sec_run(SocketState::Established, idle, t, e).0 == SocketState::Closed,
    decreases e.len(),
{
    let s1 = sec_step(SocketState::Established, idle, t, e[0]);
    if idle + 1 >= t {
        lemma_sec_run_frozen(s1.0, s1.1, t, e.drop_first());
    } else {
        lemma_quiet_run_closes(s1.1, t, e.drop_first());
    }
}

/// Law: however long an Established socket has already been idle, a span of
/// `t` consecutive simulated seconds without data (for idle timeout `t`)
/// drives it to Closed, and it stays Closed for the rest of the trace.
pub proof fn lemma_idle_timeout_closes(idle: nat, t: nat, e: Seq<bool>, j: int)
    requires
        t >= 1,
        quiet_run_at(e, j, t),
    ensures
        sec_run(SocketState::Established, idle, t, e).0 == SocketState::Closed,
{
    let e1 = e.take(j);
    let w = e.subrange(j, j + t);
    let e2 = e.subrange(j + t, e.len() as int);
    let m1 = sec_run(SocketState::Established, idle, t, e1);
    lemma_sec_run_concat(SocketState::Established, idle, t, e1, w);
    assert(forall|k: int| 0 <= k < w.len() ==> !w[k]);
    lemma_sec_run_from_established(idle, t, e1);
    if m1.0 == SocketState::Established {
        lemma_quiet_run_closes(m1.1, t, w);
    } else {
        lemma_sec_run_frozen(m1.0, m1.1, t, w);
    }
    let m2 = sec_run(m1.0, m1.1, t, w);
    assert(m2.0 == SocketState::Closed);
    lemma_sec_run_concat(SocketState::Established, idle, t, e1 + w, e2);
    lemma_sec_run_frozen(m2.0, m2.1, t, e2);
    assert((e1 + w) + e2 =~= e);
}

/// The tail of a trace is quiet for exactly `quiet_tail` seconds.
proof fn lemma_quiet_tail_elems(e: Seq<bool>)
    ensures
        quiet_tail(e) <= e.len(),
        forall|m: int| e.len() - quiet_tail(e) <= m < e.len() ==> !e[m],
    decreases e.len(),
{
    if e.len() > 0 && !e.last() {
        let e0 = e.drop_last();
        lemma_quiet_tail_elems(e0);
        assert forall|m: int| e.len() - quiet_tail(e) <= m < e.len() implies !e[m] by {
            if m < e.len() - 1 {
                assert(!e0[m]);
            }
        }
    }
}

/// One more second moves the surviving socket's idle clock as `model_idle`
/// says: back to one on data, one higher on quiet.
proof fn lemma_model_idle_push(e: Seq<bool>, x: bool)
    ensures
        model_idle(e.push(x)) == if x {
            1nat
        } else {
            model_idle(e) + 1
        },
{
    let f = e.push(x);
    assert(f.drop_last() =~= e);
    assert(f.last() == x);
    if x {
        assert(has_data(f)) by {
            assert(f[f.len() - 1]);
        }
    } else {
        if has_data(e) {
            let k = choose|k: int| 0 <= k < e.len() && e[k];
            assert(f[k]);
            assert(has_data(f));
        }
        if has_data(f) {
            let k = choose|k: int| 0 <= k < f.len() && f[k];
            assert(k < e.len());
            assert(e[k]);
            assert(has_data(e));
        }
    }
}

/// Law: a freshly Established socket with idle-timeout `t` stays
/// Established as long as every span of `t - 1` consecutive simulated
/// seconds carries at least one byte of data: its data events are then
/// never a full `t` seconds apart, so the idle clock never reaches `t`.
pub proof fn lemma_keepalive_stays_established(t: nat, e: Seq<bool>)
    requires
        t >= 2,
        windows_have_data(e, (t - 1) as nat),
    ensures
        sec_run(SocketState::Established, 0, t, e).0 == SocketState::Established,
        sec_run(SocketState::Established, 0, t, e).1 == model_idle(e),
        model_idle(e) < t,
    decreases e.len(),
{
    let w = (t - 1) as nat;
    if e.len() == 0 {
    } else {
        let e0 = e.drop_last();
        let x = e.last();
        assert forall|j: int| !quiet_run_at(e0, j, w) by {
            if quiet_run_at(e0, j, w) {
                assert(forall|k: int| j <= k < j + w ==> e0[k] == e[k]);
                assert(quiet_run_at(e, j, w));
            }
        }
        lemma_keepalive_stays_established(t, e0);
        assert(e0.push(x) =~= e);
        lemma_sec_run_push(SocketState::Established, 0, t, e0, x);
        lemma_model_idle_push(e0, x);
        if !x {
            if model_idle(e0) >= w {
                let j0 = e.len() - w;
                assert(quiet_run_at(e, j0, w)) by {
                    lemma_quiet_tail_elems(e0);
                    if has_data(e0) {
                        assert(quiet_tail(e0) + 1 >= w);
                        assert forall|k: int| j0 <= k < j0 + w implies !e[k] by {
                            if k < e0.len() {
                                assert(e0.len() - quiet_tail(e0) <= k);
                                assert(!e0[k]);
                            }
                        }
                    } else {
                        assert forall|k: int| 0 <= k < e0.len() implies !e0[k] by {
                            if e0[k] {
                                assert(has_data(e0));
                            }
                        }
                        assert forall|k: int| j0 <= k < j0 + w implies !e[k] by {
                            if k < e0.len() {
                                assert(!e0[k]);
                            }
                        }
                    }
                }
                assert(false);
            }
        }
    }
}

} // verus!
