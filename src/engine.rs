use vstd::prelude::*;
use crate::error::{Error, Status, status_error};
use crate::frame::{
    Command,
    Operation,
    count,
    receptions,
    frame,
    write_frame,
    read_frame,
    write_read_frame,
    frame_transaction,
    frame_write,
    frame_read,
    frame_write_read,
};

verus! {

/// Polling budgets, in ticks of the delay source.
#[derive(Clone, Copy, Debug, PartialEq, Eq, Structural)]
pub struct Timeouts {
    /// For a start condition to be generated.
    pub start: u32,
    /// For the address phase.
    pub address: u32,
    /// For each data byte, and for the stop condition.
    pub data: u32,
    /// For the whole transaction.
    pub overall: u32,
}

/// What the engine asks of the controller after each step.
#[derive(Clone, Copy, Debug, PartialEq, Eq, Structural)]
pub enum Action {
    /// Perform this command, then poll the status.
    Issue(Command),
    /// Wait one tick, then poll the status again.
    Poll,
    /// The transaction completed.
    Done,
    /// The transaction failed: force a stop condition so that the bus is
    /// left idle, and report the error.
    Abort(Error),
}

/// The bus phase the engine is in.
#[derive(Clone, Copy, Debug, PartialEq, Eq, Structural)]
pub enum Phase {
    Idle,
    Starting,
    Addressing,
    Transferring,
    Stopping,
}

/// The engine as a mathematical value.
pub struct EngineView {
    pub timeouts: Timeouts,
    /// The commands of the current (or last) transaction.
    pub plan: Seq<Command>,
    /// The command that has been issued and is awaited.
    pub pc: nat,
    /// Whether a transaction is in progress.
    pub busy: bool,
    /// Ticks spent waiting for the awaited command.
    pub waited: nat,
    /// Ticks spent waiting in the whole transaction.
    pub elapsed: nat,
    /// The bytes received so far, in order.
    pub received: Seq<u8>,
}

/// The blocking transaction engine: it walks the commands of one
/// transaction, issuing each and awaiting its completion flag.
pub struct Engine {
    timeouts: Timeouts,
    plan: Vec<Command>,
    pc: usize,
    busy: bool,
    waited: u32,
    elapsed: u32,
    received: Vec<u8>,
}

impl View for Engine {
    type V = EngineView;

    closed spec fn view(&self) -> EngineView {
        EngineView {
            timeouts: self.timeouts,
            plan: self.plan@,
            pc: self.pc as nat,
            busy: self.busy,
            waited: self.waited as nat,
            elapsed: self.elapsed as nat,
            received: self.received@,
        }
    }
}

/// The budget for awaiting command `c`.
pub open spec fn budget(t: Timeouts, c: Command) -> u32 {
    match c {
        Command::Start => t.start,
        Command::Address(_) => t.address,
        _ => t.data,
    }
}

/// Whether status `s` shows that command `c` has completed.
pub open spec fn completes(c: Command, s: Status) -> bool {
    match c {
        Command::Start => s.start_sent,
        Command::Address(_) => s.address_sent,
        Command::Send(_) => s.byte_transferred,
        Command::Receive { .. } => s.byte_received,
        Command::Stop => !s.busy,
    }
}

/// The engine's invariant: the awaited command lies in the plan, and one
/// byte has been received for each reception already done.
pub open spec fn inv(v: EngineView) -> bool {
    &&& v.busy ==> v.pc < v.plan.len()
    &&& v.pc <= v.plan.len()
    &&& v.received.len() == count(v.plan.subrange(0, v.pc as int), receptions())
    &&& v.waited <= u32::MAX
    &&& v.elapsed <= u32::MAX
}

pub open spec fn phase_of(v: EngineView) -> Phase {
    if !v.busy {
        Phase::Idle
    } else {
        match v.plan[v.pc as int] {
            Command::Start => Phase::Starting,
            Command::Address(_) => Phase::Addressing,
            Command::Stop => Phase::Stopping,
            _ => Phase::Transferring,
        }
    }
}

/// A new engine with budgets `t`.
pub open spec fn fresh(t: Timeouts) -> EngineView {
    EngineView {
        timeouts: t,
        plan: Seq::empty(),
        pc: 0,
        busy: false,
        waited: 0,
        elapsed: 0,
        received: Seq::empty(),
    }
}

/// Starting the transaction `plan`: the first command is issued at once; an
/// empty plan is done at once. Nothing of the engine's past carries over but
/// its budgets.
pub open spec fn begin_spec(v: EngineView, plan: Seq<Command>) -> (EngineView, Action) {
    let next = EngineView {
        timeouts: v.timeouts,
        plan,
        pc: 0,
        busy: plan.len() > 0,
        waited: 0,
        elapsed: 0,
        received: Seq::empty(),
    };
    (next, if plan.len() > 0 { Action::Issue(plan[0]) } else { Action::Done })
}

/// One poll of status `s`, with `data` the byte in the data register.
/// An error flag aborts at once, ahead of any timeout. A completed command
/// moves on to the next, or finishes the transaction. Otherwise the engine
/// waits one more tick, unless the command's budget or the overall budget
/// is spent, which aborts with a timeout.
pub open spec fn step_spec(v: EngineView, s: Status, data: u8) -> (EngineView, Action) {
    if !v.busy {
        (v, Action::Done)
    } else {
        let c = v.plan[v.pc as int];
        match status_error(s) {
            Some(e) => (EngineView { busy: false, ..v }, Action::Abort(e)),
            None => if completes(c, s) {
                let received = if c is Receive {
                    v.received.push(data)
                } else {
                    v.received
                };
                let more = v.pc + 1 < v.plan.len();
                (
                    EngineView { pc: v.pc + 1, busy: more, waited: 0, received, ..v },
                    if more {
                        Action::Issue(v.plan[v.pc + 1int])
                    } else {
                        Action::Done
                    },
                )
            } else if v.waited >= budget(v.timeouts, c) || v.elapsed >= v.timeouts.overall {
                (EngineView { busy: false, ..v }, Action::Abort(Error::Timeout))
            } else {
                (EngineView { waited: v.waited + 1, elapsed: v.elapsed + 1, ..v }, Action::Poll)
            },
        }
    }
}

impl Engine {
    /// An idle engine with budgets `timeouts`.
    pub fn new(timeouts: Timeouts) -> (r: Engine)
        ensures
            r@ == fresh(timeouts),
    {
        Engine {
            timeouts,
            plan: Vec::new(),
            pc: 0,
            busy: false,
            waited: 0,
            elapsed: 0,
            received: Vec::new(),
        }
    }

    /// Starts the transaction of the commands `plan`.
    pub fn begin(&mut self, plan: Vec<Command>) -> (r: Action)
        ensures
            (final(self)@, r) == begin_spec(old(self)@, plan@),
            inv(final(self)@),
    {
        self.plan = plan;
        self.pc = 0;
        self.busy = self.plan.len() > 0;
        self.waited = 0;
        self.elapsed = 0;
        self.received = Vec::new();
        assert(self.plan@.subrange(0, 0) =~= Seq::<Command>::empty());
        if self.plan.len() > 0 {
            Action::Issue(self.plan[0])
        } else {
            Action::Done
        }
    }

    /// Starts a write of `bytes` to `addr`.
    pub fn write(&mut self, addr: u8, bytes: &[u8]) -> (r: Action)
        ensures
            (final(self)@, r) == begin_spec(old(self)@, write_frame(addr, bytes@)),
            inv(final(self)@),
    {
        self.begin(frame_write(addr, bytes))
    }

    /// Starts a read of `len` bytes from `addr`.
    pub fn read(&mut self, addr: u8, len: usize) -> (r: Action)
        ensures
            (final(self)@, r) == begin_spec(old(self)@, read_frame(addr, len as nat)),
            inv(final(self)@),
    {
        self.begin(frame_read(addr, len))
    }

    /// Starts a write of `bytes` to `addr` followed, after a repeated start,
    /// by a read of `len` bytes.
    pub fn write_read(&mut self, addr: u8, bytes: &[u8], len: usize) -> (r: Action)
        ensures
            (final(self)@, r) == begin_spec(
                old(self)@,
                write_read_frame(addr, bytes@, len as nat),
            ),
            inv(final(self)@),
    {
        self.begin(frame_write_read(addr, bytes, len))
    }

    /// Starts a transaction of the legs `ops`, in order, on `addr`.
    pub fn transaction(&mut self, addr: u8, ops: &[Operation]) -> (r: Action)
        ensures
            (final(self)@, r) == begin_spec(old(self)@, frame(addr, ops@)),
            inv(final(self)@),
    {
        self.begin(frame_transaction(addr, ops))
    }

    /// Handles one poll of the controller's status `s`, with `data` the byte
    /// in its data register.
    pub fn step(&mut self, s: Status, data: u8) -> (r: Action)
        requires
            inv(old(self)@),
        ensures
            (final(self)@, r) == step_spec(old(self)@, s, data),
            inv(final(self)@),
    {
        if !self.busy {
            return Action::Done;
        }
        let c = self.plan[self.pc];
        match s.error() {
            Some(e) => {
                self.busy = false;
                Action::Abort(e)
            },
            None => {
                let done = match c {
                    Command::Start => s.start_sent,
                    Command::Address(_) => s.address_sent,
                    Command::Send(_) => s.byte_transferred,
                    Command::Receive { .. } => s.byte_received,
                    Command::Stop => !s.busy,
                };
                if done {
                    if let Command::Receive { .. } = c {
                        self.received.push(data);
                    }
                    let n = self.plan.len();
                    assert(self.pc < n);
                    assert(self.plan@.subrange(0, self.pc + 1).drop_last() =~= self.plan@.subrange(
                        0,
                        self.pc as int,
                    ));
                    self.pc = self.pc + 1;
                    self.waited = 0;
                    if self.pc < self.plan.len() {
                        Action::Issue(self.plan[self.pc])
                    } else {
                        self.busy = false;
                        Action::Done
                    }
                } else {
                    let limit = match c {
                        Command::Start => self.timeouts.start,
                        Command::Address(_) => self.timeouts.address,
                        _ => self.timeouts.data,
                    };
                    if self.waited >= limit || self.elapsed >= self.timeouts.overall {
                        self.busy = false;
                        Action::Abort(Error::Timeout)
                    } else {
                        self.waited = self.waited + 1;
                        self.elapsed = self.elapsed + 1;
                        Action::Poll
                    }
                }
            },
        }
    }

    /// The bus phase the engine is in.
    pub fn phase(&self) -> (r: Phase)
        requires
            inv(self@),
        ensures
            r == phase_of(self@),
    {
        if !self.busy {
            Phase::Idle
        } else {
            match self.plan[self.pc] {
                Command::Start => Phase::Starting,
                Command::Address(_) => Phase::Addressing,
                Command::Stop => Phase::Stopping,
                _ => Phase::Transferring,
            }
        }
    }

    /// Whether no transaction is in progress.
    pub fn is_idle(&self) -> (r: bool)
        ensures
            r == !self@.busy,
    {
        !self.busy
    }

    /// The bytes received in the current (or last) transaction, in order.
    pub fn received(&self) -> (r: &Vec<u8>)
        ensures
            r@ == self@.received,
    {
        &self.received
    }

    pub fn timeouts(&self) -> (r: Timeouts)
        ensures
            r == self@.timeouts,
    {
        self.timeouts
    }
}

/// A NACK seen while an address or a data byte is awaited fails the
/// transaction with `NoAcknowledge`, never with a timeout, however long the
/// phase has waited; the engine is then idle.
pub proof fn lemma_nack_is_not_timeout(v: EngineView, s: Status, data: u8)
    requires
        inv(v),
        v.busy,
        v.plan[v.pc as int] is Address || v.plan[v.pc as int] is Send,
        s.nack,
        !s.bus_error,
        !s.arbitration_lost,
    ensures
        step_spec(v, s, data).1 == Action::Abort(Error::NoAcknowledge),
        !step_spec(v, s, data).0.busy,
{
}

/// A byte that is not acknowledged (or not received) within the data budget
/// fails the transaction with a timeout and leaves the engine idle; a new
/// transaction then starts exactly as it would on a new engine with the same
/// budgets. Within the budgets the engine keeps polling.
pub proof fn lemma_stall_times_out_then_recovers(
    v: EngineView,
    s: Status,
    data: u8,
    plan: Seq<Command>,
)
    requires
        inv(v),
        v.busy,
        v.plan[v.pc as int] is Send || v.plan[v.pc as int] is Receive,
        status_error(s).is_none(),
        !completes(v.plan[v.pc as int], s),
    ensures
        v.waited >= v.timeouts.data ==> {
            let (next, act) = step_spec(v, s, data);
            &&& act == Action::Abort(Error::Timeout)
            &&& !next.busy
            &&& phase_of(next) == Phase::Idle
            &&& begin_spec(next, plan) == begin_spec(fresh(v.timeouts), plan)
        },
        v.waited < v.timeouts.data && v.elapsed < v.timeouts.overall ==> step_spec(v, s, data).1
            == Action::Poll,
{
}

/// With nothing to send or receive, a write (or a read) probes for a
/// device: once the start is made and the address is issued, an
/// acknowledged address leads straight to the stop, and a NACK fails the
/// transaction with `NoAcknowledge`.
pub proof fn lemma_probe(v: EngineView, s: Status, data: u8, addr: u8, read: bool)
    requires
        inv(v),
        v.busy,
        v.plan == (if read {
            read_frame(addr, 0)
        } else {
            write_frame(addr, Seq::empty())
        }),
        v.pc == 1,
        !s.bus_error,
        !s.arbitration_lost,
    ensures
        s.nack ==> step_spec(v, s, data).1 == Action::Abort(Error::NoAcknowledge),
        !s.nack && status_error(s).is_none() && s.address_sent ==> {
            &&& step_spec(v, s, data).1 == Action::Issue(Command::Stop)
            &&& phase_of(step_spec(v, s, data).0) == Phase::Stopping
        },
{
    crate::frame::lemma_single_leg_empty(addr);
}

/// When a transaction finishes, one byte has been received for each
/// reception in its plan: a read of `n` bytes leaves exactly `n`.
pub proof fn lemma_done_received_all(v: EngineView, s: Status, data: u8)
    requires
        inv(v),
        v.busy,
        step_spec(v, s, data).1 == Action::Done,
    ensures
        step_spec(v, s, data).0.received.len() == count(v.plan, receptions()),
        inv(step_spec(v, s, data).0),
{
    let next = step_spec(v, s, data).0;
    assert(v.plan.subrange(0, v.pc + 1int).drop_last() =~= v.plan.subrange(0, v.pc as int));
    assert(next.pc == v.plan.len());
    assert(v.plan.subrange(0, v.plan.len() as int) =~= v.plan);
}

} // verus!
