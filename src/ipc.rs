//! Fixed-capacity mailboxes for thread-to-thread messages.
use vstd::prelude::*;
use crate::abi::{EAGAIN, EINVAL, SUCCESS};
use crate::task::{ThreadId, MAX_THREADS};

verus! {

/// Number of messages that one mailbox holds.
pub const MAILBOX_CAP: usize = 64;

/// A message: the sending thread's identifier and a 64-bit payload.
#[derive(Debug, Clone, Copy, PartialEq, Eq, Structural)]
pub struct Message {
    pub from: u64,
    pub value: u64,
}

impl Message {
    /// The zero message that fills unused slots.
    pub fn empty() -> (r: Message)
        ensures
            r.from == 0 && r.value == 0,
    {
        Message { from: 0, value: 0 }
    }
}

/// A bounded FIFO queue of messages, kept in a circular buffer.
pub struct Mailbox {
    head: usize,
    tail: usize,
    count: usize,
    buf: Vec<Message>,
}

impl View for Mailbox {
    type V = Seq<Message>;

    /// The queued messages, oldest first.
    closed spec fn view(&self) -> Seq<Message> {
        Seq::new(self.count as nat, |i: int| self.buf@[(self.head + i) % (MAILBOX_CAP as int)])
    }
}

impl Mailbox {
    /// The buffer has its fixed size and the indices agree with the count.
    pub closed spec fn wf(&self) -> bool {
        &&& self.buf@.len() == MAILBOX_CAP
        &&& self.head < MAILBOX_CAP
        &&& self.tail < MAILBOX_CAP
        &&& self.count <= MAILBOX_CAP
        &&& self.tail == (self.head + self.count) % (MAILBOX_CAP as int)
    }

    /// The number of queued messages never exceeds the capacity.
    pub proof fn lemma_len_bounded(&self)
        requires
            self.wf(),
        ensures
            self@.len() <= MAILBOX_CAP,
    {
    }

    /// An empty mailbox.
    pub fn new() -> (r: Mailbox)
        ensures
            r.wf(),
            r@ == Seq::<Message>::empty(),
    {
        let mut buf: Vec<Message> = Vec::new();
        let mut i: usize = 0;
        while i < MAILBOX_CAP
            invariant
                i <= MAILBOX_CAP,
                buf@.len() == i,
            decreases MAILBOX_CAP - i,
        {
            buf.push(Message::empty());
            i = i + 1;
        }
        let r = Mailbox { head: 0, tail: 0, count: 0, buf };
        assert(r@ =~= Seq::<Message>::empty());
        r
    }

    /// The number of queued messages.
    pub fn len(&self) -> (r: usize)
        requires
            self.wf(),
        ensures
            r == self@.len(),
    {
        self.count
    }

    /// Appends `msg` at the back. A full mailbox is left unchanged and the
    /// call fails.
    pub fn push(&mut self, msg: Message) -> (r: Result<(), ()>)
        requires
            old(self).wf(),
        ensures
            final(self).wf(),
            old(self)@.len() >= MAILBOX_CAP ==> r is Err && final(self)@ == old(self)@,
            old(self)@.len() < MAILBOX_CAP ==> r is Ok && final(self)@ == old(self)@.push(msg),
    {
        if self.count >= MAILBOX_CAP {
            return Err(());
        }
        let ghost old_view = self@;
        self.buf.set(self.tail, msg);
        self.tail = (self.tail + 1) % MAILBOX_CAP;
        self.count = self.count + 1;
        assert(self@ =~= old_view.push(msg));
        Ok(())
    }

    /// Removes and returns the oldest message; `None` when empty.
    pub fn pop(&mut self) -> (r: Option<Message>)
        requires
            old(self).wf(),
        ensures
            final(self).wf(),
            old(self)@.len() == 0 ==> r is None && final(self)@ == old(self)@,
            old(self)@.len() > 0 ==> r == Some(old(self)@[0]) && final(self)@ == old(self)@.drop_first(),
    {
        if self.count == 0 {
            return None;
        }
        let ghost old_view = self@;
        let msg = self.buf[self.head];
        self.head = (self.head + 1) % MAILBOX_CAP;
        self.count = self.count - 1;
        assert(self@ =~= old_view.drop_first());
        Some(msg)
    }
}

/// One mailbox per thread slot; the thread with identifier `n` owns slot `n - 1`.
pub struct Mailboxes {
    boxes: Vec<Mailbox>,
}

impl View for Mailboxes {
    type V = Seq<Seq<Message>>;

    closed spec fn view(&self) -> Seq<Seq<Message>> {
        Seq::new(self.boxes@.len(), |i: int| self.boxes@[i]@)
    }
}

impl Mailboxes {
    pub closed spec fn wf(&self) -> bool {
        &&& self.boxes@.len() == MAX_THREADS
        &&& forall|i: int| 0 <= i < self.boxes@.len() ==> #[trigger] self.boxes@[i].wf()
    }

    /// There is one slot per thread slot, and each holds at most
    /// `MAILBOX_CAP` messages.
    pub proof fn lemma_slots(&self)
        requires
            self.wf(),
        ensures
            self@.len() == MAX_THREADS,
            forall|i: int| 0 <= i < self@.len() ==> (#[trigger] self@[i]).len() <= MAILBOX_CAP,
    {
        assert forall|i: int| 0 <= i < self@.len() implies (#[trigger] self@[i]).len() <= MAILBOX_CAP by {
            self.boxes@[i].lemma_len_bounded();
        }
    }

    /// `MAX_THREADS` empty mailboxes.
    pub fn new() -> (r: Mailboxes)
        ensures
            r.wf(),
            r@ == Seq::new(MAX_THREADS as nat, |i: int| Seq::<Message>::empty()),
    {
        let mut boxes: Vec<Mailbox> = Vec::new();
        let mut i: usize = 0;
        while i < MAX_THREADS
            invariant
                i <= MAX_THREADS,
                boxes@.len() == i,
                forall|k: int| 0 <= k < i ==> #[trigger] boxes@[k].wf() && boxes@[k]@ == Seq::<Message>::empty(),
            decreases MAX_THREADS - i,
        {
            boxes.push(Mailbox::new());
            i = i + 1;
        }
        let r = Mailboxes { boxes };
        assert forall|k: int| 0 <= k < MAX_THREADS implies #[trigger] r@[k] == Seq::<Message>::empty() by {
            assert(r.boxes@[k].wf());
        }
        assert(r@ =~= Seq::new(MAX_THREADS as nat, |i: int| Seq::<Message>::empty()));
        r
    }

    /// Appends `msg` to slot `idx`; fails and changes nothing when that slot is full.
    pub fn push(&mut self, idx: usize, msg: Message) -> (r: Result<(), ()>)
        requires
            old(self).wf(),
            idx < MAX_THREADS,
        ensures
            final(self).wf(),
            old(self)@[idx as int].len() >= MAILBOX_CAP ==> r is Err && final(self)@ == old(self)@,
            old(self)@[idx as int].len() < MAILBOX_CAP ==> r is Ok
                && final(self)@ == old(self)@.update(idx as int, old(self)@[idx as int].push(msg)),
    {
        let ghost old_view = self@;
        let r = self.boxes[idx].push(msg);
        assert(self@ =~= old_view.update(idx as int, self.boxes@[idx as int]@));
        r
    }

    /// Removes the oldest message of slot `idx`; `None` and no change when it is empty.
    pub fn pop(&mut self, idx: usize) -> (r: Option<Message>)
        requires
            old(self).wf(),
            idx < MAX_THREADS,
        ensures
            final(self).wf(),
            old(self)@[idx as int].len() == 0 ==> r is None && final(self)@ == old(self)@,
            old(self)@[idx as int].len() > 0 ==> r == Some(old(self)@[idx as int][0])
                && final(self)@ == old(self)@.update(idx as int, old(self)@[idx as int].drop_first()),
    {
        let ghost old_view = self@;
        let r = self.boxes[idx].pop();
        assert(self@ =~= old_view.update(idx as int, self.boxes@[idx as int]@));
        r
    }
}

/// The mailbox slot of a thread identifier, when it has one.
pub open spec fn slot_of(thread_id: u64) -> Option<int> {
    if 1 <= thread_id <= MAX_THREADS {
        Some(thread_id - 1)
    } else {
        None
    }
}

/// The result of `send` and the mailboxes after it.
pub open spec fn send_outcome(boxes: Seq<Seq<Message>>, current: Option<ThreadId>, dest_thread_id: u64, value: u64) -> (u64, Seq<Seq<Message>>) {
    if dest_thread_id == 0 || current is None || slot_of(dest_thread_id) is None {
        (EINVAL, boxes)
    } else {
        let slot = dest_thread_id - 1;
        if boxes[slot].len() >= MAILBOX_CAP {
            (EAGAIN, boxes)
        } else {
            (SUCCESS, boxes.update(slot, boxes[slot].push(Message { from: current.unwrap().value(), value })))
        }
    }
}

/// The result of `recv` and the mailboxes after it.
pub open spec fn recv_outcome(boxes: Seq<Seq<Message>>, current: Option<ThreadId>) -> (Result<Message, u64>, Seq<Seq<Message>>) {
    if current is None || slot_of(current.unwrap().value()) is None {
        (Err(EINVAL), boxes)
    } else {
        let slot = current.unwrap().value() - 1;
        if boxes[slot].len() == 0 {
            (Err(EAGAIN), boxes)
        } else {
            (Ok(boxes[slot][0]), boxes.update(slot, boxes[slot].drop_first()))
        }
    }
}

/// Sends `value` from the current thread to thread `dest_thread_id`.
/// EINVAL when the destination is 0 or has no slot, or when no thread is
/// current; EAGAIN when the destination's mailbox is full; otherwise the
/// message is queued and the result is SUCCESS.
pub fn send(boxes: &mut Mailboxes, current: Option<ThreadId>, dest_thread_id: u64, value: u64) -> (r: u64)
    requires
        old(boxes).wf(),
    ensures
        final(boxes).wf(),
        (r, final(boxes)@) == send_outcome(old(boxes)@, current, dest_thread_id, value),
        (dest_thread_id == 0 || current is None || slot_of(dest_thread_id) is None)
            ==> r == EINVAL && final(boxes)@ == old(boxes)@,
        dest_thread_id != 0 && current is Some && slot_of(dest_thread_id) is Some ==> {
            let slot = (dest_thread_id - 1) as int;
            let msg = Message { from: current.unwrap().value(), value };
            if old(boxes)@[slot].len() >= MAILBOX_CAP {
                r == EAGAIN && final(boxes)@ == old(boxes)@
            } else {
                r == SUCCESS && final(boxes)@ == old(boxes)@.update(slot, old(boxes)@[slot].push(msg))
            }
        },
{
    if dest_thread_id == 0 {
        return EINVAL;
    }
    let sender = match current {
        Some(id) => id.as_u64(),
        None => {
            return EINVAL;
        },
    };
    let idx = dest_thread_id - 1;
    if idx >= MAX_THREADS as u64 {
        return EINVAL;
    }
    match boxes.push(idx as usize, Message { from: sender, value }) {
        Ok(()) => SUCCESS,
        Err(()) => EAGAIN,
    }
}

/// Takes the oldest message from the current thread's mailbox.
/// `Err(EINVAL)` when no thread is current or it has no slot; `Err(EAGAIN)`
/// when its mailbox is empty.
pub fn recv(boxes: &mut Mailboxes, current: Option<ThreadId>) -> (r: Result<Message, u64>)
    requires
        old(boxes).wf(),
    ensures
        final(boxes).wf(),
        (r, final(boxes)@) == recv_outcome(old(boxes)@, current),
        (current is None || slot_of(current.unwrap().value()) is None)
            ==> r == Err::<Message, u64>(EINVAL) && final(boxes)@ == old(boxes)@,
        current is Some && slot_of(current.unwrap().value()) is Some ==> {
            let slot = (current.unwrap().value() - 1) as int;
            if old(boxes)@[slot].len() == 0 {
                r == Err::<Message, u64>(EAGAIN) && final(boxes)@ == old(boxes)@
            } else {
                r == Ok::<Message, u64>(old(boxes)@[slot][0])
                    && final(boxes)@ == old(boxes)@.update(slot, old(boxes)@[slot].drop_first())
            }
        },
{
    let receiver = match current {
        Some(id) => id.as_u64(),
        None => {
            return Err(EINVAL);
        },
    };
    if receiver == 0 || receiver - 1 >= MAX_THREADS as u64 {
        return Err(EINVAL);
    }
    match boxes.pop((receiver - 1) as usize) {
        Some(msg) => Ok(msg),
        None => Err(EAGAIN),
    }
}

/// Three messages sent to an empty mailbox, by any senders, come out at
/// its owner in the order in which they were sent; the mailbox is then
/// empty again, and a fourth receive fails with EAGAIN.
pub proof fn lemma_mailbox_fifo(
    boxes: Seq<Seq<Message>>,
    s1: ThreadId,
    s2: ThreadId,
    s3: ThreadId,
    receiver: ThreadId,
    v1: u64,
    v2: u64,
    v3: u64,
)
    requires
        boxes.len() == MAX_THREADS,
        slot_of(receiver.value()) is Some,
        boxes[receiver.value() - 1].len() == 0,
    ensures
        ({
            let dest = receiver.value();
            let (r1, b1) = send_outcome(boxes, Some(s1), dest, v1);
            let (r2, b2) = send_outcome(b1, Some(s2), dest, v2);
            let (r3, b3) = send_outcome(b2, Some(s3), dest, v3);
            let (q1, c1) = recv_outcome(b3, Some(receiver));
            let (q2, c2) = recv_outcome(c1, Some(receiver));
            let (q3, c3) = recv_outcome(c2, Some(receiver));
            let (q4, c4) = recv_outcome(c3, Some(receiver));
            &&& r1 == SUCCESS && r2 == SUCCESS && r3 == SUCCESS
            &&& q1 == Ok::<Message, u64>(Message { from: s1.value(), value: v1 })
            &&& q2 == Ok::<Message, u64>(Message { from: s2.value(), value: v2 })
            &&& q3 == Ok::<Message, u64>(Message { from: s3.value(), value: v3 })
            &&& c3 == boxes
            &&& q4 == Err::<Message, u64>(EAGAIN) && c4 == boxes
        }),
{
    let dest = receiver.value();
    let slot = dest - 1;
    let m1 = Message { from: s1.value(), value: v1 };
    let m2 = Message { from: s2.value(), value: v2 };
    let m3 = Message { from: s3.value(), value: v3 };
    let (r1, b1) = send_outcome(boxes, Some(s1), dest, v1);
    let (r2, b2) = send_outcome(b1, Some(s2), dest, v2);
    let (r3, b3) = send_outcome(b2, Some(s3), dest, v3);
    assert(b3[slot] =~= seq![m1, m2, m3]);
    let (q1, c1) = recv_outcome(b3, Some(receiver));
    assert(c1[slot] =~= seq![m2, m3]);
    let (q2, c2) = recv_outcome(c1, Some(receiver));
    assert(c2[slot] =~= seq![m3]);
    let (q3, c3) = recv_outcome(c2, Some(receiver));
    assert(c3[slot] =~= Seq::<Message>::empty());
    assert(boxes[slot] =~= Seq::<Message>::empty());
    assert(c3 =~= boxes);
}

/// The results and mailboxes of sending each of `values`, in order, from
/// `sender` to `dest`.
pub open spec fn send_each(boxes: Seq<Seq<Message>>, sender: ThreadId, dest: u64, values: Seq<u64>) -> (Seq<u64>, Seq<Seq<Message>>)
    decreases values.len(),
{
    if values.len() == 0 {
        (Seq::empty(), boxes)
    } else {
        let (rs, b) = send_each(boxes, sender, dest, values.drop_last());
        let (r, b2) = send_outcome(b, Some(sender), dest, values.last());
        (rs.push(r), b2)
    }
}

/// The messages that `sender` sends with `values`, in order.
pub open spec fn messages_of(sender: ThreadId, values: Seq<u64>) -> Seq<Message> {
    Seq::new(values.len(), |i: int| Message { from: sender.value(), value: values[i] })
}

/// Sending up to `MAILBOX_CAP` messages to an empty mailbox queues them all,
/// in order.
proof fn lemma_send_each_fills(boxes: Seq<Seq<Message>>, sender: ThreadId, dest: u64, values: Seq<u64>)
    requires
        boxes.len() == MAX_THREADS,
        slot_of(dest) is Some,
        boxes[dest - 1].len() == 0,
        values.len() <= MAILBOX_CAP,
    ensures
        ({
            let (rs, b) = send_each(boxes, sender, dest, values);
            &&& rs.len() == values.len()
            &&& forall|i: int| 0 <= i < rs.len() ==> rs[i] == SUCCESS
            &&& b.len() == MAX_THREADS
            &&& b[dest - 1] == messages_of(sender, values)
            &&& forall|j: int| 0 <= j < b.len() && j != dest - 1 ==> b[j] == boxes[j]
        }),
    decreases values.len(),
{
    if values.len() > 0 {
        lemma_send_each_fills(boxes, sender, dest, values.drop_last());
        let (rs, b) = send_each(boxes, sender, dest, values.drop_last());
        let (r, b2) = send_outcome(b, Some(sender), dest, values.last());
        assert(r == SUCCESS);
        assert forall|i: int| 0 <= i < rs.push(r).len() implies rs.push(r)[i] == SUCCESS by {
            if i < rs.len() {
                assert(rs.push(r)[i] == rs[i]);
            }
        }
        assert(messages_of(sender, values.drop_last()).push(Message { from: sender.value(), value: values.last() })
            =~= messages_of(sender, values));
    } else {
        assert(boxes[dest - 1] =~= messages_of(sender, values));
    }
}

/// A mailbox holds `MAILBOX_CAP` messages: that many sends to an empty one
/// all succeed and queue the messages in order; the next send fails with
/// EAGAIN and changes nothing; once its owner has received the oldest
/// message, a send succeeds again and queues its message after the
/// remaining ones.
pub proof fn lemma_mailbox_bounds(
    boxes: Seq<Seq<Message>>,
    sender: ThreadId,
    receiver: ThreadId,
    values: Seq<u64>,
    extra: u64,
)
    requires
        boxes.len() == MAX_THREADS,
        slot_of(receiver.value()) is Some,
        boxes[receiver.value() - 1].len() == 0,
        values.len() == MAILBOX_CAP,
    ensures
        ({
            let dest = receiver.value();
            let slot = dest - 1;
            let (rs, full) = send_each(boxes, sender, dest, values);
            let (over, after_over) = send_outcome(full, Some(sender), dest, extra);
            let (got, freed) = recv_outcome(full, Some(receiver));
            let (again, refilled) = send_outcome(freed, Some(sender), dest, extra);
            &&& forall|i: int| 0 <= i < rs.len() ==> rs[i] == SUCCESS
            &&& rs.len() == MAILBOX_CAP
            &&& full[slot] == messages_of(sender, values)
            &&& over == EAGAIN && after_over == full
            &&& got == Ok::<Message, u64>(Message { from: sender.value(), value: values[0] })
            &&& freed[slot] == messages_of(sender, values).drop_first()
            &&& again == SUCCESS
            &&& refilled[slot] == messages_of(sender, values).drop_first().push(Message { from: sender.value(), value: extra })
        }),
{
    lemma_send_each_fills(boxes, sender, receiver.value(), values);
}

} // verus!
