use vstd::prelude::*;
use crate::stats::Stats;

verus! {

/// The I/O steps of one request, in the order they are performed.
#[derive(Clone, Copy, Debug, PartialEq, Eq)]
pub enum Step {
    /// Open the TCP connection.
    Connect,
    /// Run the TLS handshake over the connection.
    Handshake,
    /// Write the whole request.
    Write,
    /// Wait for the first byte of the response.
    FirstByte,
    /// Read until the peer closes the connection.
    Drain,
}

/// A failed request: the step that failed and what the transport reported.
#[derive(Debug)]
pub struct TransportError {
    pub step: Step,
    pub cause: String,
}

/// Whether the instants at which the steps ended are in order.
pub open spec fn marks_ordered(connected: u64, secured: u64, written: u64, first_byte: u64, done: u64) -> bool {
    connected <= secured <= written <= first_byte <= done
}

/// The timings of one request from the instants, in milliseconds since the
/// dial started, at which the connection was open, the handshake done
/// (equal to the first for plaintext), the request written, the first
/// response byte read and the response drained.
pub open spec fn phases_from_marks(
    connected: u64,
    secured: u64,
    written: u64,
    first_byte: u64,
    done: u64,
    length: usize,
) -> Stats {
    Stats {
        connect: connected,
        handshake: (secured - connected) as u64,
        writing: (written - secured) as u64,
        waiting: (first_byte - written) as u64,
        read: (done - first_byte) as u64,
        complete: done,
        length,
    }
}

/// Computes the phase timings from the instants at which the steps ended.
pub fn phases(connected: u64, secured: u64, written: u64, first_byte: u64, done: u64, length: usize) -> (r: Stats)
    requires
        marks_ordered(connected, secured, written, first_byte, done),
    ensures
        r == phases_from_marks(connected, secured, written, first_byte, done, length),
{
    Stats {
        connect: connected,
        handshake: secured - connected,
        writing: written - secured,
        waiting: first_byte - written,
        read: done - first_byte,
        complete: done,
        length,
    }
}

/// The phases partition the total time exactly, and a plaintext request
/// (no time between connect and handshake end) has a zero handshake.
pub proof fn lemma_phases_partition(
    connected: u64,
    secured: u64,
    written: u64,
    first_byte: u64,
    done: u64,
    length: usize,
)
    requires
        marks_ordered(connected, secured, written, first_byte, done),
    ensures
        ({
            let s = phases_from_marks(connected, secured, written, first_byte, done, length);
            &&& s.complete == s.connect + s.handshake + s.writing + s.waiting + s.read
            &&& secured == connected ==> s.handshake == 0
        }),
{
}

/// What the driver of a request does after a step.
#[derive(Clone, Copy, Debug, PartialEq, Eq)]
pub enum Progress {
    /// Perform this step next.
    Next(Step),
    /// The request is complete, with these timings.
    Done(Stats),
}

/// One request over a fresh connection, as a sequence of steps whose end
/// instants are handed in by the driver that performs the I/O.
#[derive(Clone, Copy, Debug, PartialEq, Eq)]
pub struct Exchange {
    pub tls: bool,
    /// The step to perform now; `None` once the request is complete.
    pub next: Option<Step>,
    pub connected: u64,
    pub secured: u64,
    pub written: u64,
    pub first_byte: u64,
    pub received: usize,
}

impl Exchange {
    /// The instant at which the last finished step ended.
    pub open spec fn last_mark(self) -> u64 {
        match self.next {
            Some(Step::Connect) => 0,
            Some(Step::Handshake) => self.connected,
            Some(Step::Write) => self.secured,
            Some(Step::FirstByte) => self.written,
            Some(Step::Drain) => self.first_byte,
            None => self.first_byte,
        }
    }

    pub open spec fn wf(self) -> bool {
        &&& self.next == Some(Step::Handshake) ==> self.tls
        &&& !self.tls ==> self.secured == self.connected
        &&& self.connected <= self.secured
        &&& (self.next == Some(Step::FirstByte) || self.next == Some(Step::Drain)) ==> self.secured <= self.written
        &&& self.next == Some(Step::Drain) ==> self.written <= self.first_byte
    }

    /// The state after the current step ended at `at` having read `bytes` bytes,
    /// and what the driver does next.
    pub open spec fn stepped(self, at: u64, bytes: usize) -> (Exchange, Progress) {
        match self.next {
            Some(Step::Connect) => {
                let e = Exchange { connected: at, secured: at, ..self };
                if self.tls {
                    (Exchange { next: Some(Step::Handshake), ..e }, Progress::Next(Step::Handshake))
                } else {
                    (Exchange { next: Some(Step::Write), ..e }, Progress::Next(Step::Write))
                }
            },
            Some(Step::Handshake) => (
                Exchange { secured: at, next: Some(Step::Write), ..self },
                Progress::Next(Step::Write),
            ),
            Some(Step::Write) => (
                Exchange { written: at, next: Some(Step::FirstByte), ..self },
                Progress::Next(Step::FirstByte),
            ),
            Some(Step::FirstByte) => (
                Exchange { first_byte: at, received: bytes, next: Some(Step::Drain), ..self },
                Progress::Next(Step::Drain),
            ),
            _ => {
                let total = (self.received + bytes) as usize;
                (
                    Exchange { received: total, next: None, ..self },
                    Progress::Done(
                        phases_from_marks(
                            self.connected,
                            self.secured,
                            self.written,
                            self.first_byte,
                            at,
                            total,
                        ),
                    ),
                )
            },
        }
    }

    /// A request that has not started: the first step is to connect.
    pub fn start(tls: bool) -> (r: Exchange)
        ensures
            r.wf(),
            r.tls == tls,
            r.next == Some(Step::Connect),
            r.received == 0,
    {
        Exchange { tls, next: Some(Step::Connect), connected: 0, secured: 0, written: 0, first_byte: 0, received: 0 }
    }

    /// Records that the current step ended `at` milliseconds after the dial
    /// started, having read `bytes` response bytes, and says what comes next.
    pub fn advance(&mut self, at: u64, bytes: usize) -> (p: Progress)
        requires
            old(self).wf(),
            old(self).next is Some,
            old(self).last_mark() <= at,
            old(self).next == Some(Step::Drain) ==> old(self).received + bytes <= usize::MAX,
        ensures
            final(self).wf(),
            (*final(self), p) == old(self).stepped(at, bytes),
            p matches Progress::Done(s) ==> {
                &&& s.complete == s.connect + s.handshake + s.writing + s.waiting + s.read
                &&& !old(self).tls ==> s.handshake == 0
            },
    {
        match self.next {
            Some(Step::Connect) => {
                self.connected = at;
                self.secured = at;
                if self.tls {
                    self.next = Some(Step::Handshake);
                    Progress::Next(Step::Handshake)
                } else {
                    self.next = Some(Step::Write);
                    Progress::Next(Step::Write)
                }
            },
            Some(Step::Handshake) => {
                self.secured = at;
                self.next = Some(Step::Write);
                Progress::Next(Step::Write)
            },
            Some(Step::Write) => {
                self.written = at;
                self.next = Some(Step::FirstByte);
                Progress::Next(Step::FirstByte)
            },
            Some(Step::FirstByte) => {
                self.first_byte = at;
                self.received = bytes;
                self.next = Some(Step::Drain);
                Progress::Next(Step::Drain)
            },
            _ => {
                self.received = self.received + bytes;
                self.next = None;
                proof {
                    lemma_phases_partition(
                        self.connected,
                        self.secured,
                        self.written,
                        self.first_byte,
                        at,
                        self.received,
                    );
                }
                Progress::Done(
                    phases(self.connected, self.secured, self.written, self.first_byte, at, self.received),
                )
            },
        }
    }

    /// The failure of the current step, carrying the transport's cause.
    pub fn fail(&self, cause: String) -> (r: TransportError)
        requires
            self.next is Some,
        ensures
            r.step == self.next->Some_0,
            r.cause == cause,
    {
        match self.next {
            Some(step) => TransportError { step, cause },
            None => TransportError { step: Step::Drain, cause },
        }
    }
}

} // verus!
