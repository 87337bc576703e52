//! The rendezvous between the thread that asks for a layout pass and the
//! worker that computes it.
//!
//! At most one request is under way at a time. Each side has a lock that is
//! either `LOCKED` or `UNLOCKED`, and sleeps while its own lock is `LOCKED`.
//! Sending a request puts the sender to sleep and wakes the worker; serving it
//! puts the worker to sleep and wakes the sender, which then finds the height
//! of the container in the mailbox. The mailbox holds this state and decides
//! each step; to sleep and to wake is left to whoever drives it.

use crate::data::{execute, Computation};
use crate::layout::Layout;
use crate::model::LayoutView;
use vstd::prelude::*;

verus! {

/// The lock of a side that sleeps.
pub const LOCKED: i32 = 0;

/// The lock of a side that runs.
pub const UNLOCKED: i32 = 1;

/// The value of a mailbox.
pub struct MailboxView {
    pub main_thread: i32,
    pub worker_thread: i32,
    pub input: Option<Computation>,
    pub output: u32,
}

impl MailboxView {
    /// The mailbox before any request: the sender runs, the worker sleeps.
    pub open spec fn idle(output: u32) -> MailboxView {
        MailboxView { main_thread: UNLOCKED, worker_thread: LOCKED, input: None, output }
    }

    /// The mailbox after `send_computation(computation)`: the request waits,
    /// the sender sleeps and the worker runs.
    pub open spec fn sent(self, computation: Computation) -> MailboxView {
        MailboxView {
            main_thread: LOCKED,
            worker_thread: UNLOCKED,
            input: Some(computation),
            output: self.output,
        }
    }

    /// Whether a call of `run` serves the mailbox: the worker is awake.
    pub open spec fn worker_awake(self) -> bool {
        self.worker_thread != LOCKED
    }

    /// The mailbox after `run` on a store of value `layout`. A worker that
    /// sleeps does nothing. One that is awake takes the request, if there is
    /// one, and leaves the height it computed; then it goes to sleep and the
    /// sender runs.
    pub open spec fn served(self, layout: LayoutView) -> MailboxView {
        if self.worker_awake() {
            MailboxView::idle(
                match self.input {
                    Some(computation) => layout.executed_height(computation) as u32,
                    None => self.output,
                },
            )
        } else {
            self
        }
    }

    /// The store after `run`: laid out as the request asks, if the worker is
    /// awake and finds one.
    pub open spec fn served_layout(self, layout: LayoutView) -> LayoutView {
        match self.input {
            Some(computation) if self.worker_awake() => layout.executed(computation),
            _ => layout,
        }
    }
}

/// The mailbox between the sender of requests and the worker.
pub struct Mailbox {
    main_thread: i32,
    worker_thread: i32,
    input: Option<Computation>,
    output: u32,
}

impl View for Mailbox {
    type V = MailboxView;

    closed spec fn view(&self) -> MailboxView {
        MailboxView {
            main_thread: self.main_thread,
            worker_thread: self.worker_thread,
            input: self.input,
            output: self.output,
        }
    }
}

impl Mailbox {
    /// A mailbox without a request and with the output 0.
    pub fn new() -> (mailbox: Mailbox)
        ensures
            mailbox@ == MailboxView::idle(0),
    {
        Mailbox { main_thread: UNLOCKED, worker_thread: LOCKED, input: None, output: 0 }
    }

    /// The lock of the sender.
    pub fn main_thread(&self) -> (lock: i32)
        ensures
            lock == self@.main_thread,
    {
        self.main_thread
    }

    /// The lock of the worker.
    pub fn worker_thread(&self) -> (lock: i32)
        ensures
            lock == self@.worker_thread,
    {
        self.worker_thread
    }

    /// Leaves a request for the worker: the worker is to be woken, and the
    /// sender sleeps until the request is served.
    pub fn send_computation(&mut self, computation: Computation)
        ensures
            final(self)@ == old(self)@.sent(computation),
    {
        self.input = Some(computation);
        // Wake up the worker and make the sender wait for it.
        self.main_thread = LOCKED;
        self.worker_thread = UNLOCKED;
    }

    /// The height of the container from the request that was served last.
    pub fn receive_output(&self) -> (output: u32)
        ensures
            output == self@.output,
    {
        self.output
    }

    /// One turn of the worker. If it is awake, it serves the request that it
    /// finds, on `layout`, puts itself back to sleep and lets the sender run.
    /// Returns whether it was awake: the sender is then to be woken.
    pub fn run(&mut self, layout: &mut Layout) -> (served: bool)
        requires
            old(layout).wf(),
        ensures
            final(layout).wf(),
            served == old(self)@.worker_awake(),
            final(self)@ == old(self)@.served(old(layout)@),
            final(layout)@ == old(self)@.served_layout(old(layout)@),
    {
        if self.worker_thread == LOCKED {
            return false;
        }
        let input = self.input;
        self.input = None;
        if let Some(computation) = input {
            self.output = execute(computation, layout);
        }
        // Put the worker back to sleep; the work is finished.
        self.worker_thread = LOCKED;
        self.main_thread = UNLOCKED;
        true
    }
}

/// A request that is sent and served leaves the store laid out as it asks
/// and its height in the mailbox; the sender runs again, the worker sleeps,
/// and no request is left.
pub proof fn lemma_request_is_served(
    mailbox: MailboxView,
    layout: LayoutView,
    computation: Computation,
)
    ensures
        mailbox.sent(computation).served(layout) == MailboxView::idle(
            layout.executed_height(computation) as u32,
        ),
        mailbox.sent(computation).served_layout(layout) == layout.executed(computation),
{
}

/// The height in the mailbox changes only when a request is served: while
/// the sender waits for the worker, it is the one that was there before.
pub proof fn lemma_output_waits_for_the_worker(mailbox: MailboxView, computation: Computation)
    ensures
        mailbox.sent(computation).output == mailbox.output,
        mailbox.sent(computation).main_thread == LOCKED,
        !MailboxView::idle(mailbox.output).worker_awake(),
{
}

} // verus!
