use ap_firmware::net::{DeviceHandle, Ipv4Address, Ipv4Cidr, NetworkStack, StaticConfigV4};
use ap_firmware::sched::{
    BlinkTask, LinkTask, Scheduler, SpawnError, TaskProgram, TaskState,
};

fn test_stack() -> NetworkStack {
    let address = Ipv4Cidr::new(Ipv4Address::new(192, 168, 2, 1), 24);
    let gateway = Some(Ipv4Address::new(192, 168, 2, 1));
    let config = StaticConfigV4::new(address, gateway, Vec::new());
    NetworkStack::new(DeviceHandle::new(), config, 3, 1234)
}

fn blink() -> TaskProgram {
    TaskProgram::Blink(BlinkTask { led_on: false, toggles: 0, next_wake: 0 })
}

fn link() -> TaskProgram {
    TaskProgram::Link(LinkTask { polls: 0 })
}

#[test]
fn spawn_fills_table_then_fails() {
    let mut sched = Scheduler::new(3);
    assert_eq!(sched.spawn(blink()), Ok(0));
    assert_eq!(sched.spawn(link()), Ok(1));
    assert_eq!(sched.spawn(link()), Ok(2));
    assert_eq!(sched.spawn(link()), Err(SpawnError::TableFull));
    assert_eq!(sched.task_count(), 3);
}

#[test]
fn spawn_into_empty_capacity_fails_at_once() {
    let mut sched = Scheduler::new(0);
    assert_eq!(sched.spawn(blink()), Err(SpawnError::TableFull));
    assert_eq!(sched.task_count(), 0);
}

#[test]
fn spawn_exhaustion_for_several_capacities() {
    for cap in [1usize, 2, 5, 8] {
        let mut sched = Scheduler::new(cap);
        for k in 0..cap {
            assert_eq!(sched.spawn(link()), Ok(k));
        }
        assert_eq!(sched.spawn(link()), Err(SpawnError::TableFull));
        assert_eq!(sched.task_count(), cap);
    }
}

fn led_of(sched: &Scheduler, i: usize) -> bool {
    match sched.tasks[i].program {
        TaskProgram::Blink(b) => b.led_on,
        TaskProgram::Link(_) => panic!("not the blink task"),
    }
}

fn toggles_of(sched: &Scheduler, i: usize) -> u64 {
    match sched.tasks[i].program {
        TaskProgram::Blink(b) => b.toggles,
        TaskProgram::Link(_) => panic!("not the blink task"),
    }
}

fn polls_of(sched: &Scheduler, i: usize) -> u64 {
    match sched.tasks[i].program {
        TaskProgram::Link(l) => l.polls,
        TaskProgram::Blink(_) => panic!("not the link task"),
    }
}

#[test]
fn blink_toggles_once_per_second() {
    let mut stack = test_stack();
    let mut sched = Scheduler::new(2);
    sched.spawn(blink()).unwrap();
    sched.run_ticks(&mut stack, 7);
    assert_eq!(toggles_of(&sched, 0), 7);
    assert_eq!(led_of(&sched, 0), true);
    sched.run_ticks(&mut stack, 1);
    assert_eq!(toggles_of(&sched, 0), 8);
    assert_eq!(led_of(&sched, 0), false);
}

#[test]
fn blink_output_strictly_alternates() {
    let mut stack = test_stack();
    let mut sched = Scheduler::new(1);
    sched.spawn(blink()).unwrap();
    let mut prev = led_of(&sched, 0);
    for n in 1..=20u64 {
        sched.tick(&mut stack);
        let cur = led_of(&sched, 0);
        assert_ne!(cur, prev);
        assert_eq!(toggles_of(&sched, 0), n);
        prev = cur;
    }
}

#[test]
fn both_tasks_progress_without_starvation() {
    let mut stack = test_stack();
    let mut sched = Scheduler::new(2);
    sched.spawn(blink()).unwrap();
    sched.spawn(link()).unwrap();
    sched.run_ticks(&mut stack, 100);
    assert_eq!(toggles_of(&sched, 0), 100);
    assert_eq!(polls_of(&sched, 1), 100);
    assert_eq!(stack.polls, 100);
}

#[test]
fn tasks_suspend_between_runs() {
    let mut stack = test_stack();
    let mut sched = Scheduler::new(2);
    sched.spawn(blink()).unwrap();
    sched.spawn(link()).unwrap();
    assert_eq!(sched.tasks[0].state, TaskState::Ready);
    sched.tick(&mut stack);
    assert_eq!(sched.tasks[0].state, TaskState::Suspended);
    assert_eq!(sched.tasks[1].state, TaskState::Suspended);
}

#[test]
fn boot_wires_the_whole_core() {
    let address = Ipv4Cidr::new(Ipv4Address::new(192, 168, 2, 1), 24);
    let config = StaticConfigV4::new(address, Some(Ipv4Address::new(192, 168, 2, 1)), Vec::new());
    let (mut sched, mut stack, socket) =
        ap_firmware::boot::boot(DeviceHandle::new(), config, 1234, false);
    assert_eq!(sched.task_count(), 2);
    assert_eq!(stack.socket_capacity(), 3);
    assert_eq!(stack.free_slots(), 2);
    assert_eq!(socket.state, ap_firmware::socket::SocketState::Closed);
    assert_eq!(socket.rx_capacity, 4096);
    assert_eq!(socket.tx_capacity, 4096);
    assert_eq!(socket.timeout, Some(10));
    sched.run_ticks(&mut stack, 3);
    assert_eq!(toggles_of(&sched, 0), 3);
    assert_eq!(polls_of(&sched, 1), 3);
}

#[test]
fn completed_task_never_runs_again() {
    let mut stack = test_stack();
    let mut sched = Scheduler::new(1);
    sched.spawn(link()).unwrap();
    sched.tasks[0].state = TaskState::Completed;
    sched.run_ticks(&mut stack, 5);
    assert_eq!(polls_of(&sched, 0), 0);
    assert_eq!(stack.polls, 0);
}
