use vstd::prelude::*;

verus! {

/// One step that the controller performs on the bus.
#[derive(Clone, Copy, Debug, PartialEq, Eq, Structural)]
pub enum Command {
    /// Generate a start condition (a repeated start when the bus is held).
    Start,
    /// Send an address byte: the 7-bit address and the direction bit.
    Address(u8),
    /// Send one data byte; the device must acknowledge it.
    Send(u8),
    /// Clock in one data byte, answering with an ACK or a NACK.
    Receive { ack: bool },
    /// Generate a stop condition and release the bus.
    Stop,
}

/// One leg of a transaction: read a number of bytes, or write bytes.
#[derive(Clone, Debug)]
pub enum Operation {
    Read(usize),
    Write(Vec<u8>),
}

/// The address byte for a 7-bit address: the address shifted left by one,
/// with the low bit set for a read.
pub open spec fn address_byte(addr: u8, read: bool) -> u8 {
    ((addr as int % 128) * 2 + if read { 1int } else { 0 }) as u8
}

pub open spec fn sends(bytes: Seq<u8>) -> Seq<Command> {
    bytes.map_values(|b: u8| Command::Send(b))
}

/// `n` receptions; every byte is acknowledged but the last, which is NACKed.
pub open spec fn receives(n: nat) -> Seq<Command> {
    Seq::new(n, |i: int| Command::Receive { ack: i + 1 < n })
}

/// A leg as it appears on the bus: a start, the address phase, the data.
pub open spec fn leg_frame(addr: u8, op: Operation) -> Seq<Command> {
    match op {
        Operation::Read(n) => seq![Command::Start, Command::Address(address_byte(addr, true))]
            + receives(n as nat),
        Operation::Write(bytes) => seq![
            Command::Start,
            Command::Address(address_byte(addr, false)),
        ] + sends(bytes@),
    }
}

pub open spec fn legs_frame(addr: u8, ops: Seq<Operation>) -> Seq<Command>
    decreases ops.len(),
{
    if ops.len() == 0 {
        seq![]
    } else {
        legs_frame(addr, ops.drop_last()) + leg_frame(addr, ops.last())
    }
}

/// A transaction on the bus: its legs joined by repeated starts, then one
/// stop. No operation at all puts nothing on the bus.
pub open spec fn frame(addr: u8, ops: Seq<Operation>) -> Seq<Command> {
    if ops.len() == 0 {
        seq![]
    } else {
        legs_frame(addr, ops).push(Command::Stop)
    }
}

pub open spec fn write_frame(addr: u8, bytes: Seq<u8>) -> Seq<Command> {
    seq![Command::Start, Command::Address(address_byte(addr, false))] + sends(bytes) + seq![
        Command::Stop,
    ]
}

pub open spec fn read_frame(addr: u8, n: nat) -> Seq<Command> {
    seq![Command::Start, Command::Address(address_byte(addr, true))] + receives(n) + seq![
        Command::Stop,
    ]
}

/// The combined format: write, repeated start, read, one stop.
pub open spec fn write_read_frame(addr: u8, bytes: Seq<u8>, n: nat) -> Seq<Command> {
    seq![Command::Start, Command::Address(address_byte(addr, false))] + sends(bytes) + seq![
        Command::Start,
        Command::Address(address_byte(addr, true)),
    ] + receives(n) + seq![Command::Stop]
}

/// How many commands of `s` satisfy `p`.
pub open spec fn count(s: Seq<Command>, p: spec_fn(Command) -> bool) -> nat
    decreases s.len(),
{
    if s.len() == 0 {
        0
    } else {
        count(s.drop_last(), p) + if p(s.last()) { 1nat } else { 0 }
    }
}

pub open spec fn stops() -> spec_fn(Command) -> bool {
    |c: Command| c is Stop
}

pub open spec fn starts() -> spec_fn(Command) -> bool {
    |c: Command| c is Start
}

pub open spec fn addresses() -> spec_fn(Command) -> bool {
    |c: Command| c is Address
}

pub open spec fn receptions() -> spec_fn(Command) -> bool {
    |c: Command| c is Receive
}

/// The address byte for a 7-bit address and a direction.
pub fn address(addr: u8, read: bool) -> (r: u8)
    ensures
        r == address_byte(addr, read),
{
    (addr % 128) * 2 + if read { 1 } else { 0 }
}

fn push_sends(v: &mut Vec<Command>, bytes: &[u8])
    ensures
        final(v)@ == old(v)@ + sends(bytes@),
{
    let ghost start = v@;
    let mut i: usize = 0;
    while i < bytes.len()
        invariant
            i <= bytes.len(),
            v@ == start + sends(bytes@.subrange(0, i as int)),
        decreases bytes.len() - i,
    {
        v.push(Command::Send(bytes[i]));
        i = i + 1;
        assert(sends(bytes@.subrange(0, i as int)) =~= sends(bytes@.subrange(0, i - 1)).push(
            Command::Send(bytes@[i - 1]),
        ));
    }
    assert(bytes@.subrange(0, i as int) =~= bytes@);
}

fn push_receives(v: &mut Vec<Command>, n: usize)
    ensures
        final(v)@ == old(v)@ + receives(n as nat),
{
    let ghost start = v@;
    let mut i: usize = 0;
    while i < n
        invariant
            i <= n,
            v@ =~= start + Seq::new(i as nat, |j: int| Command::Receive { ack: j + 1 < n }),
        decreases n - i,
    {
        v.push(Command::Receive { ack: i + 1 < n });
        i = i + 1;
    }
    assert(Seq::new(i as nat, |j: int| Command::Receive { ack: j + 1 < n }) =~= receives(
        n as nat,
    ));
}

fn push_leg(v: &mut Vec<Command>, addr: u8, op: &Operation)
    ensures
        final(v)@ == old(v)@ + leg_frame(addr, *op),
{
    let ghost start = v@;
    v.push(Command::Start);
    match op {
        Operation::Read(n) => {
            v.push(Command::Address(address(addr, true)));
            push_receives(v, *n);
        },
        Operation::Write(bytes) => {
            v.push(Command::Address(address(addr, false)));
            push_sends(v, bytes.as_slice());
        },
    }
    assert(v@ =~= start + leg_frame(addr, *op));
}

/// The commands of a transaction of `ops` on address `addr`.
pub fn frame_transaction(addr: u8, ops: &[Operation]) -> (r: Vec<Command>)
    ensures
        r@ == frame(addr, ops@),
{
    let mut v: Vec<Command> = Vec::new();
    if ops.len() == 0 {
        return v;
    }
    let mut i: usize = 0;
    while i < ops.len()
        invariant
            i <= ops.len(),
            v@ == legs_frame(addr, ops@.subrange(0, i as int)),
        decreases ops.len() - i,
    {
        proof {
            assert(ops@.subrange(0, i + 1).drop_last() =~= ops@.subrange(0, i as int));
        }
        push_leg(&mut v, addr, &ops[i]);
        i = i + 1;
    }
    assert(ops@.subrange(0, i as int) =~= ops@);
    v.push(Command::Stop);
    v
}

/// The commands of a write of `bytes` to `addr`.
pub fn frame_write(addr: u8, bytes: &[u8]) -> (r: Vec<Command>)
    ensures
        r@ == write_frame(addr, bytes@),
{
    let mut v: Vec<Command> = Vec::new();
    v.push(Command::Start);
    v.push(Command::Address(address(addr, false)));
    push_sends(&mut v, bytes);
    v.push(Command::Stop);
    assert(v@ =~= write_frame(addr, bytes@));
    v
}

/// The commands of a read of `len` bytes from `addr`.
pub fn frame_read(addr: u8, len: usize) -> (r: Vec<Command>)
    ensures
        r@ == read_frame(addr, len as nat),
{
    let mut v: Vec<Command> = Vec::new();
    v.push(Command::Start);
    v.push(Command::Address(address(addr, true)));
    push_receives(&mut v, len);
    v.push(Command::Stop);
    assert(v@ =~= read_frame(addr, len as nat));
    v
}

/// The commands of a write of `bytes` to `addr` followed, after a repeated
/// start, by a read of `len` bytes.
pub fn frame_write_read(addr: u8, bytes: &[u8], len: usize) -> (r: Vec<Command>)
    ensures
        r@ == write_read_frame(addr, bytes@, len as nat),
{
    let mut v: Vec<Command> = Vec::new();
    v.push(Command::Start);
    v.push(Command::Address(address(addr, false)));
    push_sends(&mut v, bytes);
    v.push(Command::Start);
    v.push(Command::Address(address(addr, true)));
    push_receives(&mut v, len);
    v.push(Command::Stop);
    assert(v@ =~= write_read_frame(addr, bytes@, len as nat));
    v
}

pub(crate) proof fn lemma_count_add(a: Seq<Command>, b: Seq<Command>, p: spec_fn(Command) -> bool)
    ensures
        count(a + b, p) == count(a, p) + count(b, p),
    decreases b.len(),
{
    if b.len() == 0 {
        assert(a + b =~= a);
    } else {
        assert((a + b).drop_last() =~= a + b.drop_last());
        lemma_count_add(a, b.drop_last(), p);
    }
}

pub(crate) proof fn lemma_count_none(s: Seq<Command>, p: spec_fn(Command) -> bool)
    requires
        forall|i: int| 0 <= i < s.len() ==> !p(#[trigger] s[i]),
    ensures
        count(s, p) == 0,
    decreases s.len(),
{
    if s.len() > 0 {
        lemma_count_none(s.drop_last(), p);
    }
}

proof fn lemma_count_all(s: Seq<Command>, p: spec_fn(Command) -> bool)
    requires
        forall|i: int| 0 <= i < s.len() ==> p(#[trigger] s[i]),
    ensures
        count(s, p) == s.len(),
    decreases s.len(),
{
    if s.len() > 0 {
        lemma_count_all(s.drop_last(), p);
    }
}

/// A read of `n` bytes, alone or after a write, receives exactly `n` bytes;
/// a write receives none.
pub proof fn lemma_reception_counts(addr: u8, bytes: Seq<u8>, n: nat)
    ensures
        count(read_frame(addr, n), receptions()) == n,
        count(write_read_frame(addr, bytes, n), receptions()) == n,
        count(write_frame(addr, bytes), receptions()) == 0,
{
    let p = receptions();
    let w = seq![Command::Start, Command::Address(address_byte(addr, false))];
    let r = seq![Command::Start, Command::Address(address_byte(addr, true))];
    let stop = seq![Command::Stop];
    let sb = sends(bytes);
    let rn = receives(n);
    reveal_with_fuel(count, 3);
    assert(write_read_frame(addr, bytes, n) =~= w + sb + r + rn + stop);
    assert(write_frame(addr, bytes) =~= w + sb + stop);
    assert(read_frame(addr, n) =~= r + rn + stop);
    assert(w.drop_last().drop_last() =~= Seq::<Command>::empty());
    assert(r.drop_last().drop_last() =~= Seq::<Command>::empty());
    assert(stop.drop_last() =~= Seq::<Command>::empty());
    lemma_count_none(sb, p);
    lemma_count_all(rn, p);
    lemma_count_add(w + sb + r + rn, stop, p);
    lemma_count_add(w + sb + r, rn, p);
    lemma_count_add(w + sb, r, p);
    lemma_count_add(w, sb, p);
    lemma_count_add(w + sb, stop, p);
    lemma_count_add(r + rn, stop, p);
    lemma_count_add(r, rn, p);
}

proof fn lemma_data_has_no_control(bytes: Seq<u8>, n: nat)
    ensures
        count(sends(bytes), stops()) == 0,
        count(sends(bytes), starts()) == 0,
        count(sends(bytes), addresses()) == 0,
        count(receives(n), stops()) == 0,
        count(receives(n), starts()) == 0,
        count(receives(n), addresses()) == 0,
{
    lemma_count_none(sends(bytes), stops());
    lemma_count_none(sends(bytes), starts());
    lemma_count_none(sends(bytes), addresses());
    lemma_count_none(receives(n), stops());
    lemma_count_none(receives(n), starts());
    lemma_count_none(receives(n), addresses());
}

/// The combined format puts on the bus exactly what a write followed by a
/// read would, except that the write's stop is left out: the read begins
/// with a repeated start. Both have the same number of start conditions and
/// address phases, and the combined format has one stop where the pair has two.
pub proof fn lemma_write_read_is_write_then_read(addr: u8, bytes: Seq<u8>, n: nat)
    ensures
        write_read_frame(addr, bytes, n) == write_frame(addr, bytes).drop_last() + read_frame(
            addr,
            n,
        ),
        count(write_read_frame(addr, bytes, n), addresses()) == count(
            write_frame(addr, bytes),
            addresses(),
        ) + count(read_frame(addr, n), addresses()),
        count(write_read_frame(addr, bytes, n), starts()) == count(
            write_frame(addr, bytes),
            starts(),
        ) + count(read_frame(addr, n), starts()),
        count(write_read_frame(addr, bytes, n), stops()) == 1,
        count(write_frame(addr, bytes), stops()) + count(
            read_frame(addr, n),
            stops(),
        ) == 2,
{
    let w = seq![Command::Start, Command::Address(address_byte(addr, false))];
    let r = seq![Command::Start, Command::Address(address_byte(addr, true))];
    let stop = seq![Command::Stop];
    let sb = sends(bytes);
    let rn = receives(n);
    assert(write_frame(addr, bytes).drop_last() =~= w + sb);
    assert(write_read_frame(addr, bytes, n) =~= w + sb + r + rn + stop);
    assert(write_frame(addr, bytes) =~= w + sb + stop);
    assert(read_frame(addr, n) =~= r + rn + stop);
    assert(w.drop_last().drop_last() =~= Seq::<Command>::empty());
    assert(r.drop_last().drop_last() =~= Seq::<Command>::empty());
    assert(stop.drop_last() =~= Seq::<Command>::empty());
    lemma_data_has_no_control(bytes, n);
    reveal_with_fuel(count, 3);
    let ps = stops();
    let pt = starts();
    let pa = addresses();
    lemma_count_add(w + sb + r + rn, stop, ps);
    lemma_count_add(w + sb + r, rn, ps);
    lemma_count_add(w + sb, r, ps);
    lemma_count_add(w, sb, ps);
    lemma_count_add(w + sb, stop, ps);
    lemma_count_add(r + rn, stop, ps);
    lemma_count_add(r, rn, ps);
    lemma_count_add(w + sb + r + rn, stop, pt);
    lemma_count_add(w + sb + r, rn, pt);
    lemma_count_add(w + sb, r, pt);
    lemma_count_add(w, sb, pt);
    lemma_count_add(w + sb, stop, pt);
    lemma_count_add(r + rn, stop, pt);
    lemma_count_add(r, rn, pt);
    lemma_count_add(w + sb + r + rn, stop, pa);
    lemma_count_add(w + sb + r, rn, pa);
    lemma_count_add(w + sb, r, pa);
    lemma_count_add(w, sb, pa);
    lemma_count_add(w + sb, stop, pa);
    lemma_count_add(r + rn, stop, pa);
    lemma_count_add(r, rn, pa);
}

/// A transaction of a write leg then a read leg is framed on the bus exactly
/// as the combined write-read.
pub proof fn lemma_transaction_is_write_read(addr: u8, bytes: Vec<u8>, n: usize)
    ensures
        frame(addr, seq![Operation::Write(bytes), Operation::Read(n)]) == write_read_frame(
            addr,
            bytes@,
            n as nat,
        ),
{
    reveal_with_fuel(legs_frame, 3);
    let ops = seq![Operation::Write(bytes), Operation::Read(n)];
    assert(ops.drop_last() =~= seq![Operation::Write(bytes)]);
    assert(ops.drop_last().drop_last() =~= Seq::<Operation>::empty());
    assert(legs_frame(addr, ops.drop_last()) =~= Seq::<Command>::empty() + leg_frame(
        addr,
        Operation::Write(bytes),
    ));
    assert(frame(addr, ops) =~= write_read_frame(addr, bytes@, n as nat));
}

/// A single leg is framed as the plain write or read of the same data, and
/// a leg with no data still has its start and address phase.
pub proof fn lemma_single_leg(addr: u8, bytes: Vec<u8>, n: usize)
    ensures
        frame(addr, seq![Operation::Write(bytes)]) == write_frame(addr, bytes@),
        frame(addr, seq![Operation::Read(n)]) == read_frame(addr, n as nat),
        write_frame(addr, Seq::empty()) == seq![
            Command::Start,
            Command::Address(address_byte(addr, false)),
            Command::Stop,
        ],
        read_frame(addr, 0) == seq![
            Command::Start,
            Command::Address(address_byte(addr, true)),
            Command::Stop,
        ],
{
    lemma_single_leg_empty(addr);
    reveal_with_fuel(legs_frame, 2);
    let w = seq![Operation::Write(bytes)];
    let r = seq![Operation::Read(n)];
    assert(w.drop_last() =~= Seq::<Operation>::empty());
    assert(r.drop_last() =~= Seq::<Operation>::empty());
    assert(frame(addr, w) =~= write_frame(addr, bytes@));
    assert(frame(addr, r) =~= read_frame(addr, n as nat));
}

/// With no data, a write or a read is a start, the address phase and a stop.
pub proof fn lemma_single_leg_empty(addr: u8)
    ensures
        write_frame(addr, Seq::empty()) == seq![
            Command::Start,
            Command::Address(address_byte(addr, false)),
            Command::Stop,
        ],
        read_frame(addr, 0) == seq![
            Command::Start,
            Command::Address(address_byte(addr, true)),
            Command::Stop,
        ],
{
    assert(write_frame(addr, Seq::empty()) =~= seq![
        Command::Start,
        Command::Address(address_byte(addr, false)),
        Command::Stop,
    ]);
    assert(read_frame(addr, 0) =~= seq![
        Command::Start,
        Command::Address(address_byte(addr, true)),
        Command::Stop,
    ]);
}

} // verus!
