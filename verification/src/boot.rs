use vstd::prelude::*;
use crate::net::{DeviceHandle, NetworkStack, StaticConfigV4};
use crate::sched::{is_blink, is_link, blink_of, link_of, BlinkTask, LinkTask, Scheduler, TaskProgram};
use crate::socket::{SocketState, TcpSocket};

verus! {

/// The task table holds exactly the blink task and the link task.
pub const TASK_SLOTS: usize = 2;

/// The stack's fixed table of concurrent socket resource slots.
pub const SOCKET_SLOTS: usize = 3;

/// Fixed receive-buffer capacity of the socket resource, in bytes.
pub const RX_BUFFER_BYTES: usize = 4096;

/// Fixed transmit-buffer capacity of the socket resource, in bytes.
pub const TX_BUFFER_BYTES: usize = 4096;

/// Idle seconds after which an established connection is torn down.
pub const IDLE_TIMEOUT_SECS: u64 = 10;

/// The composition root, short of hardware: build the network stack around
/// the device handle, spawn the blink task and the link task, and bind the
/// socket resource with its buffers and idle-timeout policy. The caller
/// hands the result to the scheduler's run loop and never takes it back.
///
/// The table sizes leave no room for failure here: both spawns and the
/// socket's slot claim are proved to succeed.
pub fn boot(device: DeviceHandle, config: StaticConfigV4, seed: u64, initial_led: bool) -> (r: (
    Scheduler,
    NetworkStack,
    TcpSocket,
))
    requires
        config.wf(),
    ensures
        r.0.capacity == TASK_SLOTS,
        r.0.now == 0,
        r.0.tasks@.len() == 2,
        is_blink(r.0.tasks@[0]),
        blink_of(r.0.tasks@[0]).led_on == initial_led,
        blink_of(r.0.tasks@[0]).toggles == 0,
        is_link(r.0.tasks@[1]),
        link_of(r.0.tasks@[1]).polls == 0,
        r.0.wf(),
        r.1.config == config,
        r.1.device == device,
        r.1.seed == seed,
        r.1.slots@ =~= seq![true, false, false],
        r.2.state == SocketState::Closed,
        r.2.slot == 0,
        r.2.rx_capacity == RX_BUFFER_BYTES,
        r.2.tx_capacity == TX_BUFFER_BYTES,
        r.2.timeout == Some(IDLE_TIMEOUT_SECS),
        r.2.idle == 0,
{
    let mut stack = NetworkStack::new(device, config, SOCKET_SLOTS, seed);
    let mut scheduler = Scheduler::new(TASK_SLOTS);
    let blink = TaskProgram::Blink(
        BlinkTask { led_on: initial_led, toggles: 0, next_wake: 0 },
    );
    let link = TaskProgram::Link(LinkTask { polls: 0 });
    scheduler.spawn(blink).unwrap();
    scheduler.spawn(link).unwrap();
    let ghost slots0 = stack.slots@;
    proof {
        assert(!slots0[0]);
        assert(!slots0[1]);
        assert(!slots0[2]);
    }
    let mut socket = TcpSocket::new(&mut stack, RX_BUFFER_BYTES, TX_BUFFER_BYTES).unwrap();
    proof {
        assert(socket.slot == 0);
        assert(stack.slots@ =~= seq![true, false, false]);
    }
    socket.set_timeout(Some(IDLE_TIMEOUT_SECS));
    (scheduler, stack, socket)
}

} // verus!
