use std::collections::VecDeque;

use wlx_overlay_s::event_queue::SyncEventQueue;
use wlx_overlay_s::gen_vec::{GenVec, Handle};
use wlx_overlay_s::ipc::{Handshake, SerialGenerator, CONNECTION_MAGIC, PROTOCOL_VERSION};
use wlx_overlay_s::tasks::TaskContainer;

#[test]
fn tasks_due_now_run_in_submission_order() {
    let mut tasks: TaskContainer<&str> = TaskContainer::new();
    tasks.enqueue("first", 100);
    tasks.enqueue("second", 100);
    tasks.enqueue("third", 100);
    let mut out = VecDeque::new();
    tasks.retrieve_due(100, &mut out);
    assert_eq!(out, VecDeque::from(vec!["first", "second", "third"]));
}

#[test]
fn tasks_wait_for_their_time() {
    let mut tasks: TaskContainer<u32> = TaskContainer::new();
    tasks.enqueue_at(3, 300);
    tasks.enqueue_at(1, 100);
    tasks.enqueue_at(2, 200);
    let mut out = VecDeque::new();
    tasks.retrieve_due(150, &mut out);
    assert_eq!(out, VecDeque::from(vec![1]));
    tasks.retrieve_due(299, &mut out);
    assert_eq!(out, VecDeque::from(vec![1, 2]));
    tasks.retrieve_due(1000, &mut out);
    assert_eq!(out, VecDeque::from(vec![1, 2, 3]));
}

#[test]
fn task_due_in_the_past_runs_at_next_retrieval() {
    let mut tasks: TaskContainer<u32> = TaskContainer::new();
    tasks.enqueue_at(7, 5);
    let mut out = VecDeque::new();
    tasks.retrieve_due(50, &mut out);
    assert_eq!(out, VecDeque::from(vec![7]));
    tasks.retrieve_due(60, &mut out);
    assert_eq!(out.len(), 1);
}

#[test]
fn same_instant_order_survives_later_submissions() {
    let mut tasks: TaskContainer<u32> = TaskContainer::new();
    tasks.enqueue_at(1, 10);
    tasks.enqueue_at(9, 5);
    tasks.enqueue_at(2, 10);
    let mut out = VecDeque::new();
    tasks.retrieve_due(10, &mut out);
    assert_eq!(out, VecDeque::from(vec![9, 1, 2]));
}

#[test]
fn event_queue_is_first_in_first_out() {
    let mut q = SyncEventQueue::new();
    q.send(1);
    q.send(2);
    assert_eq!(q.read(), Some(1));
    q.send(3);
    assert_eq!(q.read(), Some(2));
    assert_eq!(q.read(), Some(3));
    assert_eq!(q.read(), None);
}

#[test]
fn gen_vec_handles_resolve_to_their_object() {
    let mut v: GenVec<&str> = GenVec::new();
    let a = v.add("a");
    let b = v.add("b");
    assert_eq!(v.get(&a), Some(&"a"));
    assert_eq!(v.get(&b), Some(&"b"));
    assert_ne!(a, b);
}

#[test]
fn gen_vec_removed_handle_stays_dead_after_slot_reuse() {
    let mut v: GenVec<u32> = GenVec::new();
    let a = v.add(1);
    v.remove(&a);
    assert_eq!(v.get(&a), None);
    let b = v.add(2);
    assert_eq!(b.id(), a.id());
    assert_eq!(v.get(&a), None);
    assert_eq!(v.get(&b), Some(&2));
}

#[test]
fn gen_vec_get_mut_changes_object() {
    let mut v: GenVec<u32> = GenVec::new();
    let a = v.add(1);
    if let Some(x) = v.get_mut(&a) {
        *x = 5;
    }
    assert_eq!(v.get(&a), Some(&5));
}

#[test]
fn handle_reset_unsets_it() {
    let mut h = Handle::new(3, 4);
    assert!(h.is_set());
    assert_eq!(h.id(), 3);
    h.reset();
    assert!(!h.is_set());
    assert_eq!(h.id(), 3);
}

#[test]
fn serials_count_up_from_zero() {
    let mut g = SerialGenerator::new();
    assert_eq!(g.increment_get(), 0);
    assert_eq!(g.increment_get(), 1);
    assert_eq!(g.increment_get(), 2);
}

#[test]
fn handshake_carries_version_and_magic() {
    let h = Handshake::new();
    assert_eq!(h.protocol_version, PROTOCOL_VERSION);
    assert_eq!(h.magic, CONNECTION_MAGIC);
    assert_eq!(h.magic, 0xfadedc0ffee);
    let d = Handshake::default();
    assert_eq!(d.protocol_version, 0);
    assert_eq!(d.magic, 0);
}
