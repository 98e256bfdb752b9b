use vstd::prelude::*;

verus! {

/// The ways a bus transaction can fail.
#[derive(Clone, Copy, Debug, PartialEq, Eq, Structural)]
pub enum Error {
    /// A misplaced start or stop condition was detected on the bus.
    Bus,
    /// Another master won arbitration; the controller stopped driving the bus.
    ArbitrationLoss,
    /// The addressed device did not acknowledge the address or a data byte.
    NoAcknowledge,
    /// A received byte was lost because the previous one had not been read.
    Overrun,
    /// A phase did not complete within its timeout budget.
    Timeout,
    /// Packet error checking found a mismatch.
    Crc,
}

/// A snapshot of the controller's status flags, as polled by the engine.
#[derive(Clone, Copy, Debug, PartialEq, Eq, Structural)]
pub struct Status {
    /// A start condition has been generated.
    pub start_sent: bool,
    /// The address byte has been sent and acknowledged.
    pub address_sent: bool,
    /// The last data byte has been shifted out and acknowledged.
    pub byte_transferred: bool,
    /// A data byte has been received.
    pub byte_received: bool,
    /// The bus is busy (no stop condition seen since the last start).
    pub busy: bool,
    pub bus_error: bool,
    pub arbitration_lost: bool,
    /// The device answered with a NACK.
    pub nack: bool,
    pub overrun: bool,
    pub pec_error: bool,
}

/// The error that a status snapshot reports, if any. Several error flags may
/// be set at once: a bus error outranks arbitration loss, which outranks a
/// NACK, then overrun, then a checksum error.
pub open spec fn status_error(s: Status) -> Option<Error> {
    if s.bus_error {
        Some(Error::Bus)
    } else if s.arbitration_lost {
        Some(Error::ArbitrationLoss)
    } else if s.nack {
        Some(Error::NoAcknowledge)
    } else if s.overrun {
        Some(Error::Overrun)
    } else if s.pec_error {
        Some(Error::Crc)
    } else {
        None
    }
}

impl Status {
    /// A snapshot with no flag set.
    pub fn clear() -> (r: Status)
        ensures
            !r.start_sent && !r.address_sent && !r.byte_transferred && !r.byte_received,
            !r.busy && status_error(r).is_none(),
    {
        Status {
            start_sent: false,
            address_sent: false,
            byte_transferred: false,
            byte_received: false,
            busy: false,
            bus_error: false,
            arbitration_lost: false,
            nack: false,
            overrun: false,
            pec_error: false,
        }
    }

    /// Classifies the error flags of this snapshot.
    pub fn error(&self) -> (r: Option<Error>)
        ensures
            r == status_error(*self),
    {
        if self.bus_error {
            Some(Error::Bus)
        } else if self.arbitration_lost {
            Some(Error::ArbitrationLoss)
        } else if self.nack {
            Some(Error::NoAcknowledge)
        } else if self.overrun {
            Some(Error::Overrun)
        } else if self.pec_error {
            Some(Error::Crc)
        } else {
            None
        }
    }
}

} // verus!
