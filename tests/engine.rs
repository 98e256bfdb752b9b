use blocking_i2c::engine::{Action, Engine, Phase, Timeouts};
use blocking_i2c::error::{Error, Status};
use blocking_i2c::frame::{address, frame_transaction, frame_write_read, Command, Operation};

/// A bus with one device on it, answering the controller's commands.
struct Bus {
    device: Option<u8>,
    /// Polls for which each data byte stays unacknowledged.
    stall: u32,
    /// Bytes the device sends back on reads.
    reply: Vec<u8>,
    /// Flags forced into every status.
    fault: Status,
    pending: Option<Command>,
    waited: u32,
    sent: usize,
    trace: Vec<Command>,
    forced_stops: u32,
}

impl Bus {
    fn new(device: Option<u8>) -> Bus {
        Bus {
            device,
            stall: 0,
            reply: Vec::new(),
            fault: Status::clear(),
            pending: None,
            waited: 0,
            sent: 0,
            trace: Vec::new(),
            forced_stops: 0,
        }
    }

    fn issue(&mut self, c: Command) {
        self.trace.push(c);
        self.pending = Some(c);
        self.waited = 0;
    }

    fn poll(&mut self) -> (Status, u8) {
        let mut s = self.fault;
        s.busy = true;
        let mut data = 0u8;
        match self.pending {
            Some(Command::Start) => s.start_sent = true,
            Some(Command::Address(b)) => {
                if self.device == Some(b >> 1) {
                    s.address_sent = true;
                } else {
                    s.nack = true;
                }
            }
            Some(Command::Send(_)) => {
                if self.waited >= self.stall {
                    s.byte_transferred = true;
                } else {
                    self.waited += 1;
                }
            }
            Some(Command::Receive { .. }) => {
                s.byte_received = true;
                data = self.reply.get(self.sent).copied().unwrap_or(0xff);
                self.sent += 1;
            }
            Some(Command::Stop) => s.busy = false,
            None => {}
        }
        (s, data)
    }

    fn run(&mut self, engine: &mut Engine, first: Action) -> Result<(), Error> {
        let mut act = first;
        for _ in 0..100_000 {
            match act {
                Action::Issue(c) => self.issue(c),
                Action::Poll => {}
                Action::Done => return Ok(()),
                Action::Abort(e) => {
                    self.forced_stops += 1;
                    self.pending = None;
                    return Err(e);
                }
            }
            let (s, d) = self.poll();
            act = engine.step(s, d);
        }
        panic!("the engine did not finish");
    }
}

fn budgets() -> Timeouts {
    Timeouts { start: 1000, address: 10, data: 1000, overall: 1000 }
}

fn stops(trace: &[Command]) -> usize {
    trace.iter().filter(|c| **c == Command::Stop).count()
}

fn addresses(trace: &[Command]) -> usize {
    trace.iter().filter(|c| matches!(c, Command::Address(_))).count()
}

#[test]
fn write_sends_every_byte_then_stops() {
    let mut e = Engine::new(budgets());
    let mut bus = Bus::new(Some(0x38));
    let a = e.write(0x38, &[0xbe, 0x08, 0x00]);
    assert_eq!(bus.run(&mut e, a), Ok(()));
    assert_eq!(
        bus.trace,
        vec![
            Command::Start,
            Command::Address(0x70),
            Command::Send(0xbe),
            Command::Send(0x08),
            Command::Send(0x00),
            Command::Stop
        ]
    );
    assert!(e.is_idle());
}

#[test]
fn read_nacks_only_the_last_byte() {
    let mut e = Engine::new(budgets());
    let mut bus = Bus::new(Some(0x38));
    bus.reply = vec![0x1c, 0x6b, 0x20];
    let a = e.read(0x38, 3);
    assert_eq!(bus.run(&mut e, a), Ok(()));
    assert_eq!(
        bus.trace,
        vec![
            Command::Start,
            Command::Address(0x71),
            Command::Receive { ack: true },
            Command::Receive { ack: true },
            Command::Receive { ack: false },
            Command::Stop
        ]
    );
    assert_eq!(e.received(), &vec![0x1c, 0x6b, 0x20]);
}

#[test]
fn absent_device_is_no_acknowledge_not_timeout() {
    let mut e = Engine::new(budgets());
    let mut bus = Bus::new(None);
    let a = e.write(0x44, &[0x24, 0x00]);
    assert_eq!(bus.run(&mut e, a), Err(Error::NoAcknowledge));
    let a = e.read(0x44, 6);
    assert_eq!(bus.run(&mut e, a), Err(Error::NoAcknowledge));
    assert_eq!(bus.forced_stops, 2);
    assert!(e.is_idle());
}

#[test]
fn nack_wins_over_a_spent_budget() {
    let t = Timeouts { start: 1000, address: 0, data: 1000, overall: 0 };
    let mut e = Engine::new(t);
    let mut bus = Bus::new(None);
    let a = e.write(0x10, &[]);
    assert_eq!(bus.run(&mut e, a), Err(Error::NoAcknowledge));
}

#[test]
fn write_read_is_write_then_read_with_one_stop() {
    let mut e = Engine::new(budgets());
    let mut bus = Bus::new(Some(0x44));
    bus.reply = vec![1, 2];
    let a = e.write_read(0x44, &[0xe0, 0x00], 2);
    assert_eq!(bus.run(&mut e, a), Ok(()));
    let combined = bus.trace.clone();

    let mut e2 = Engine::new(budgets());
    let mut bus2 = Bus::new(Some(0x44));
    bus2.reply = vec![1, 2];
    let a = e2.write(0x44, &[0xe0, 0x00]);
    assert_eq!(bus2.run(&mut e2, a), Ok(()));
    let a = e2.read(0x44, 2);
    assert_eq!(bus2.run(&mut e2, a), Ok(()));
    let separate = bus2.trace.clone();

    assert_eq!(addresses(&combined), addresses(&separate));
    assert_eq!(stops(&combined), 1);
    assert_eq!(stops(&separate), 2);
    let stop_at = separate.iter().position(|c| *c == Command::Stop).unwrap();
    let mut without_first_stop = separate.clone();
    without_first_stop.remove(stop_at);
    assert_eq!(combined, without_first_stop);
    assert_eq!(e.received(), e2.received());
}

#[test]
fn transaction_of_write_and_read_frames_as_write_read() {
    let ops = vec![Operation::Write(vec![0xac, 0x33]), Operation::Read(4)];
    assert_eq!(frame_transaction(0x38, &ops), frame_write_read(0x38, &[0xac, 0x33], 4));

    let mut e = Engine::new(budgets());
    let mut bus = Bus::new(Some(0x38));
    bus.reply = vec![9, 8, 7, 6];
    let a = e.transaction(0x38, &ops);
    assert_eq!(bus.run(&mut e, a), Ok(()));
    let mut e2 = Engine::new(budgets());
    let mut bus2 = Bus::new(Some(0x38));
    bus2.reply = vec![9, 8, 7, 6];
    let a = e2.write_read(0x38, &[0xac, 0x33], 4);
    assert_eq!(bus2.run(&mut e2, a), Ok(()));
    assert_eq!(bus.trace, bus2.trace);
    assert_eq!(e.received(), &vec![9, 8, 7, 6]);
}

#[test]
fn multi_leg_transaction_repeats_the_address_phase() {
    let ops = vec![
        Operation::Write(vec![1]),
        Operation::Write(vec![2]),
        Operation::Read(1),
    ];
    let mut e = Engine::new(budgets());
    let mut bus = Bus::new(Some(0x20));
    bus.reply = vec![0x5a];
    let a = e.transaction(0x20, &ops);
    assert_eq!(bus.run(&mut e, a), Ok(()));
    assert_eq!(
        bus.trace,
        vec![
            Command::Start,
            Command::Address(0x40),
            Command::Send(1),
            Command::Start,
            Command::Address(0x40),
            Command::Send(2),
            Command::Start,
            Command::Address(0x41),
            Command::Receive { ack: false },
            Command::Stop
        ]
    );
}

#[test]
fn empty_transaction_touches_nothing() {
    let mut e = Engine::new(budgets());
    assert_eq!(e.transaction(0x20, &[]), Action::Done);
    assert!(e.is_idle());
}

#[test]
fn stalled_byte_times_out_and_engine_recovers() {
    let t = Timeouts { start: 1000, address: 10, data: 5, overall: 1000 };
    let mut e = Engine::new(t);
    let mut bus = Bus::new(Some(0x38));
    bus.stall = 6;
    let a = e.write(0x38, &[1, 2]);
    assert_eq!(bus.run(&mut e, a), Err(Error::Timeout));
    assert_eq!(e.phase(), Phase::Idle);
    assert_eq!(bus.forced_stops, 1);

    bus.stall = 5;
    bus.trace.clear();
    let a = e.write(0x38, &[1, 2]);
    assert_eq!(bus.run(&mut e, a), Ok(()));
    assert_eq!(stops(&bus.trace), 1);
}

#[test]
fn overall_budget_bounds_the_transaction() {
    let t = Timeouts { start: 1000, address: 10, data: 5, overall: 8 };
    let mut e = Engine::new(t);
    let mut bus = Bus::new(Some(0x38));
    bus.stall = 3;
    let a = e.write(0x38, &[1, 2, 3]);
    assert_eq!(bus.run(&mut e, a), Err(Error::Timeout));
}

#[test]
fn zero_length_legs_probe_for_a_device() {
    let mut e = Engine::new(budgets());
    let mut bus = Bus::new(Some(0x38));
    let a = e.write(0x38, &[]);
    assert_eq!(bus.run(&mut e, a), Ok(()));
    assert_eq!(bus.trace, vec![Command::Start, Command::Address(0x70), Command::Stop]);
    let a = e.read(0x38, 0);
    assert_eq!(bus.run(&mut e, a), Ok(()));
    let a = e.write(0x39, &[]);
    assert_eq!(bus.run(&mut e, a), Err(Error::NoAcknowledge));
    let a = e.read(0x39, 0);
    assert_eq!(bus.run(&mut e, a), Err(Error::NoAcknowledge));
}

#[test]
fn error_flags_abort_with_their_error() {
    let cases = [
        (0, Error::Bus),
        (1, Error::ArbitrationLoss),
        (2, Error::Overrun),
        (3, Error::Crc),
    ];
    for (flag, want) in cases {
        let mut e = Engine::new(budgets());
        let mut bus = Bus::new(Some(0x38));
        match flag {
            0 => bus.fault.bus_error = true,
            1 => bus.fault.arbitration_lost = true,
            2 => bus.fault.overrun = true,
            _ => bus.fault.pec_error = true,
        }
        let a = e.write(0x38, &[1]);
        assert_eq!(bus.run(&mut e, a), Err(want));
        assert_eq!(bus.trace, vec![Command::Start]);
        assert!(e.is_idle());
    }
}

#[test]
fn error_flag_priority() {
    let mut s = Status::clear();
    assert_eq!(s.error(), None);
    s.pec_error = true;
    assert_eq!(s.error(), Some(Error::Crc));
    s.overrun = true;
    assert_eq!(s.error(), Some(Error::Overrun));
    s.nack = true;
    assert_eq!(s.error(), Some(Error::NoAcknowledge));
    s.arbitration_lost = true;
    assert_eq!(s.error(), Some(Error::ArbitrationLoss));
    s.bus_error = true;
    assert_eq!(s.error(), Some(Error::Bus));
}

#[test]
fn phases_follow_the_commands() {
    let mut e = Engine::new(budgets());
    assert_eq!(e.phase(), Phase::Idle);
    assert_eq!(e.write(0x38, &[7]), Action::Issue(Command::Start));
    assert_eq!(e.phase(), Phase::Starting);
    let mut s = Status::clear();
    s.busy = true;
    assert_eq!(e.step(s, 0), Action::Poll);
    s.start_sent = true;
    assert_eq!(e.step(s, 0), Action::Issue(Command::Address(0x70)));
    assert_eq!(e.phase(), Phase::Addressing);
    s.address_sent = true;
    assert_eq!(e.step(s, 0), Action::Issue(Command::Send(7)));
    assert_eq!(e.phase(), Phase::Transferring);
    s.byte_transferred = true;
    assert_eq!(e.step(s, 0), Action::Issue(Command::Stop));
    assert_eq!(e.phase(), Phase::Stopping);
    s.busy = false;
    assert_eq!(e.step(s, 0), Action::Done);
    assert_eq!(e.phase(), Phase::Idle);
    assert_eq!(e.step(s, 0), Action::Done);
}

#[test]
fn address_byte_carries_direction() {
    assert_eq!(address(0x38, false), 0x70);
    assert_eq!(address(0x38, true), 0x71);
    assert_eq!(address(0x7f, true), 0xff);
    assert_eq!(address(0x00, false), 0x00);
    assert_eq!(address(0xb8, false), 0x70);
}

#[test]
fn budgets_are_kept() {
    let e = Engine::new(budgets());
    assert_eq!(e.timeouts(), budgets());
}
