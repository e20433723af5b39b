//! Decisions of the capture worker: what to do on each wake-up of the
//! readiness wait, and how each received datagram is recorded. The worker
//! that owns the socket performs the waits and reads and reports them here.
use crate::byte_count::UdpByteCount;
use vstd::prelude::*;

verus! {

/// What one return of the readiness wait over the socket and the control
/// channel reported.
#[derive(Debug, Clone, Copy, PartialEq, Eq, Structural)]
pub enum Wake {
    /// The wait returned; the flags say which descriptors are readable.
    Ready { socket: bool, control: bool },
    /// The wait itself failed.
    Failed,
}

/// What the worker does after one wake-up.
#[derive(Debug, Clone, Copy, PartialEq, Eq, Structural)]
pub struct WakePlan {
    /// Drain the datagrams queued on the socket now.
    pub drain_socket: bool,
    /// Consume the stop signal waiting on the control channel.
    pub consume_control: bool,
    /// Leave the wait loop; one last drain of the socket follows.
    pub finish: bool,
}

/// The outcome of one non-blocking read of the socket.
#[derive(Debug, Clone, Copy, PartialEq, Eq, Structural)]
pub enum Recv {
    /// A datagram with this many payload bytes was read.
    Datagram(usize),
    /// Nothing more to read now (the read would block or failed).
    Empty,
}

/// The plan for a wake-up: drain the socket whenever it is readable; on a
/// stop signal consume it and finish; on a failed wait finish at once.
pub open spec fn plan_spec(w: Wake) -> WakePlan {
    match w {
        Wake::Ready { socket, control } => WakePlan {
            drain_socket: socket,
            consume_control: control,
            finish: control,
        },
        Wake::Failed => WakePlan { drain_socket: false, consume_control: false, finish: true },
    }
}

/// Decides what to do after one wake-up.
pub fn plan_wake(w: Wake) -> (r: WakePlan)
    ensures
        r == plan_spec(w),
{
    match w {
        Wake::Ready { socket, control } => WakePlan {
            drain_socket: socket,
            consume_control: control,
            finish: control,
        },
        Wake::Failed => WakePlan { drain_socket: false, consume_control: false, finish: true },
    }
}

/// State of one capture: the datagrams recorded so far and whether the wait
/// loop has ended.
pub struct Capture {
    pub received: UdpByteCount,
    pub finished: bool,
}

impl Capture {
    /// A capture that has recorded nothing and still waits.
    pub fn new() -> (r: Capture)
        ensures
            r.received@ == Seq::<usize>::empty(),
            !r.finished,
    {
        Capture { received: UdpByteCount::default(), finished: false }
    }

    /// Takes in one wake-up and returns the plan for it; the capture is
    /// finished from the first plan that finishes on.
    pub fn on_wake(&mut self, w: Wake) -> (r: WakePlan)
        ensures
            r == plan_spec(w),
            final(self).received@ == old(self).received@,
            final(self).finished == (old(self).finished || r.finish),
    {
        let r = plan_wake(w);
        if r.finish {
            self.finished = true;
        }
        r
    }

    /// Records the outcome of one read; returns whether the drain goes on.
    pub fn on_recv(&mut self, r: Recv) -> (more: bool)
        ensures
            final(self).finished == old(self).finished,
            match r {
                Recv::Datagram(n) => {
                    &&& more
                    &&& final(self).received@ == old(self).received@.push(n)
                },
                Recv::Empty => {
                    &&& !more
                    &&& final(self).received@ == old(self).received@
                },
            },
    {
        match r {
            Recv::Datagram(n) => {
                self.received.add_assign_l7(n);
                true
            },
            Recv::Empty => false,
        }
    }

    /// The datagrams recorded by the capture.
    pub fn into_received(self) -> (r: UdpByteCount)
        ensures
            r@ == self.received@,
    {
        self.received
    }
}

} // verus!
