use kernel_core::abi::{EAGAIN, EINVAL, SUCCESS};
use kernel_core::ipc::{recv, send, Mailbox, Mailboxes, Message, MAILBOX_CAP};
use kernel_core::kernel::Kernel;
use kernel_core::task::{PrivilegeLevel, ThreadId, MAX_THREADS};

fn two_threads() -> (ThreadId, ThreadId) {
    let mut k = Kernel::new();
    let pid = k.create_process("p", PrivilegeLevel::User, None, 0).unwrap();
    let a = k.create_thread(pid, "a", 0, 0x1000, 0x1000).unwrap();
    let b = k.create_thread(pid, "b", 0, 0x2000, 0x1000).unwrap();
    (a, b)
}

#[test]
fn mailbox_push_pop_fifo() {
    let mut m = Mailbox::new();
    assert_eq!(m.len(), 0);
    assert_eq!(m.pop(), None);
    assert!(m.push(Message { from: 1, value: 10 }).is_ok());
    assert!(m.push(Message { from: 2, value: 20 }).is_ok());
    assert_eq!(m.pop(), Some(Message { from: 1, value: 10 }));
    assert_eq!(m.pop(), Some(Message { from: 2, value: 20 }));
    assert_eq!(m.pop(), None);
}

#[test]
fn mailbox_wraps_around_its_buffer() {
    let mut m = Mailbox::new();
    for round in 0..3u64 {
        for i in 0..MAILBOX_CAP as u64 {
            assert!(m.push(Message { from: round, value: i }).is_ok());
        }
        assert!(m.push(Message::empty()).is_err());
        for i in 0..MAILBOX_CAP as u64 {
            assert_eq!(m.pop(), Some(Message { from: round, value: i }));
        }
    }
}

#[test]
fn send_then_receive_in_order() {
    let (a, b) = two_threads();
    let mut boxes = Mailboxes::new();
    assert_eq!(send(&mut boxes, Some(a), b.as_u64(), 11), SUCCESS);
    assert_eq!(send(&mut boxes, Some(a), b.as_u64(), 22), SUCCESS);
    assert_eq!(send(&mut boxes, Some(a), b.as_u64(), 33), SUCCESS);
    let from = a.as_u64();
    assert_eq!(recv(&mut boxes, Some(b)), Ok(Message { from, value: 11 }));
    assert_eq!(recv(&mut boxes, Some(b)), Ok(Message { from, value: 22 }));
    assert_eq!(recv(&mut boxes, Some(b)), Ok(Message { from, value: 33 }));
    assert_eq!(recv(&mut boxes, Some(b)), Err(EAGAIN));
}

#[test]
fn sixty_fifth_send_is_refused_until_a_receive() {
    let (a, b) = two_threads();
    let mut boxes = Mailboxes::new();
    for i in 0..64u64 {
        assert_eq!(send(&mut boxes, Some(a), b.as_u64(), i), SUCCESS);
    }
    assert_eq!(send(&mut boxes, Some(a), b.as_u64(), 64), EAGAIN);
    assert_eq!(recv(&mut boxes, Some(b)).unwrap().value, 0);
    assert_eq!(send(&mut boxes, Some(a), b.as_u64(), 64), SUCCESS);
}

#[test]
fn send_and_recv_without_current_thread_fail() {
    let (_a, b) = two_threads();
    let mut boxes = Mailboxes::new();
    assert_eq!(send(&mut boxes, None, b.as_u64(), 1), EINVAL);
    assert_eq!(recv(&mut boxes, None), Err(EINVAL));
    assert_eq!(recv(&mut boxes, Some(b)), Err(EAGAIN));
}

#[test]
fn send_to_bad_destination_fails() {
    let (a, _b) = two_threads();
    let mut boxes = Mailboxes::new();
    assert_eq!(send(&mut boxes, Some(a), 0, 1), EINVAL);
    assert_eq!(send(&mut boxes, Some(a), MAX_THREADS as u64 + 1, 1), EINVAL);
    assert_eq!(send(&mut boxes, Some(a), MAX_THREADS as u64, 1), SUCCESS);
}

#[test]
fn full_mailbox_of_one_slot_leaves_others_free() {
    let (a, b) = two_threads();
    let mut boxes = Mailboxes::new();
    for i in 0..MAILBOX_CAP as u64 {
        assert_eq!(send(&mut boxes, Some(a), b.as_u64(), i), SUCCESS);
    }
    assert_eq!(send(&mut boxes, Some(b), a.as_u64(), 5), SUCCESS);
    assert_eq!(recv(&mut boxes, Some(a)), Ok(Message { from: b.as_u64(), value: 5 }));
}
