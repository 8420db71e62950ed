use vstd::prelude::*;

use vstd::string::StringExecFns;

use crate::error::I2cCommError;

verus! {

/// One operation of a bus transaction.
pub enum Operation {
    /// Read into this buffer: its length is the number of bytes asked for.
    Read(Vec<u8>),
    /// Write these bytes.
    Write(Vec<u8>),
}

/// What an operation holds, as plain values.
pub enum OpView {
    Read(Seq<u8>),
    Write(Seq<u8>),
}

impl View for Operation {
    type V = OpView;

    open spec fn view(&self) -> OpView {
        match self {
            Operation::Read(b) => OpView::Read(b@),
            Operation::Write(b) => OpView::Write(b@),
        }
    }
}

/// The operations of a transaction, as plain values.
pub open spec fn ops_view(ops: Seq<Operation>) -> Seq<OpView> {
    ops.map_values(|o: Operation| o@)
}

/// A copy of `bytes` that the caller owns.
fn copy_bytes(bytes: &[u8]) -> (v: Vec<u8>)
    ensures
        v@ == bytes@,
{
    let mut v: Vec<u8> = Vec::new();
    let mut i: usize = 0;
    while i < bytes.len()
        invariant
            i <= bytes@.len(),
            v@ == bytes@.subrange(0, i as int),
        decreases bytes@.len() - i,
    {
        v.push(bytes[i]);
        i = i + 1;
    }
    assert(v@ =~= bytes@);
    v
}

/// The bytes that a one-operation read hands back: those of its read operation,
/// or none where the device answered with another shape.
pub open spec fn read_back(ops: Seq<OpView>) -> Seq<u8> {
    if ops.len() == 1 {
        match ops[0] {
            OpView::Read(data) => data,
            OpView::Write(_) => Seq::empty(),
        }
    } else {
        Seq::empty()
    }
}

/// A transaction as a device receives it: the address and the operations.
pub type Transfer = (u8, Seq<OpView>);

/// What a transaction leaves: the operations afterwards (read buffers filled in)
/// and whether the transport succeeded, an error being known by its message.
pub type Reply = (Seq<OpView>, Result<(), Seq<char>>);

/// The result of a call as the model sees it: an error is known by its message.
pub open spec fn result_view(r: Result<(), I2cCommError>) -> Result<(), Seq<char>> {
    match r {
        Ok(()) => Ok(()),
        Err(e) => Err(e.message()),
    }
}

/// A device on a bus that runs transactions addressed to a 7-bit address.
///
/// A device is modelled by how it answers each transfer given the transfers it
/// has already seen (`behaviour`) and by those transfers (`history`). Two values
/// with the same model answer every sequence of calls alike.
pub trait I2c: Sized {
    /// How the device answers a transfer, given the transfers before it.
    spec fn behaviour(&self) -> spec_fn(Seq<Transfer>, Transfer) -> Reply;

    /// The transfers the device has carried out so far.
    spec fn history(&self) -> Seq<Transfer>;

    /// Runs the operations in one transaction with the device at `address`.
    fn transaction(&mut self, address: u8, operations: &mut Vec<Operation>) -> (r: Result<(), I2cCommError>)
        ensures
            final(self).behaviour() == old(self).behaviour(),
            final(self).history() == old(self).history().push((address, ops_view(old(operations)@))),
            (ops_view(final(operations)@), result_view(r)) == (old(self).behaviour())(
                old(self).history(),
                (address, ops_view(old(operations)@)),
            ),
    ;

    /// Reads from the device at `address` into `buffer`, in one transaction.
    ///
    /// The device is handed one read operation with the buffer as it stands; the
    /// buffer afterwards holds what that operation holds once the device answered.
    fn read(&mut self, address: u8, buffer: &mut Vec<u8>) -> (r: Result<(), I2cCommError>)
        ensures
            final(self).behaviour() == old(self).behaviour(),
            final(self).history() == old(self).history().push((address, seq![OpView::Read(old(buffer)@)])),
            result_view(r) == (old(self).behaviour())(old(self).history(), (address, seq![OpView::Read(old(buffer)@)])).1,
            final(buffer)@ == read_back(
                (old(self).behaviour())(old(self).history(), (address, seq![OpView::Read(old(buffer)@)])).0,
            ),
    {
        let mut taken: Vec<u8> = Vec::new();
        core::mem::swap(buffer, &mut taken);
        let mut ops: Vec<Operation> = Vec::new();
        ops.push(Operation::Read(taken));
        assert(ops_view(ops@) =~= seq![OpView::Read(old(buffer)@)]);
        let r = self.transaction(address, &mut ops);
        if ops.len() == 1 {
            let op = ops.pop().unwrap();
            match op {
                Operation::Read(data) => {
                    *buffer = data;
                },
                Operation::Write(_) => {},
            }
        }
        r
    }

    /// Writes `bytes` to the device at `address`, in one transaction.
    fn write(&mut self, address: u8, bytes: &[u8]) -> (r: Result<(), I2cCommError>)
        ensures
            final(self).behaviour() == old(self).behaviour(),
            final(self).history() == old(self).history().push((address, seq![OpView::Write(bytes@)])),
            result_view(r) == (old(self).behaviour())(old(self).history(), (address, seq![OpView::Write(bytes@)])).1,
    {
        let mut ops: Vec<Operation> = Vec::new();
        ops.push(Operation::Write(copy_bytes(bytes)));
        assert(ops_view(ops@) =~= seq![OpView::Write(bytes@)]);
        self.transaction(address, &mut ops)
    }
}


/// The replies that a device with this model gives to `transfers`, one after another.
pub open spec fn replies(
    behaviour: spec_fn(Seq<Transfer>, Transfer) -> Reply,
    history: Seq<Transfer>,
    transfers: Seq<Transfer>,
) -> Seq<Reply>
    decreases transfers.len(),
{
    if transfers.len() == 0 {
        Seq::empty()
    } else {
        seq![behaviour(history, transfers[0])] + replies(
            behaviour,
            history.push(transfers[0]),
            transfers.drop_first(),
        )
    }
}

/// Whether `b` answers every sequence of transfers as `a` does.
pub open spec fn answers_alike<A: I2c, B: I2c>(a: A, b: B) -> bool {
    forall|transfers: Seq<Transfer>|
        #[trigger] replies(b.behaviour(), b.history(), transfers) == replies(
            a.behaviour(),
            a.history(),
            transfers,
        )
}

/// Hides the concrete type of a device behind the bus capability.
///
/// The handle that comes back answers every sequence of transfers exactly as
/// `device` would have.
pub fn get_device<D: I2c + 'static>(device: D) -> (r: impl I2c + 'static)
    ensures
        answers_alike(device, r),
{
    device
}

/// A bus interface that carries no signal: a stand-in for a real controller.
pub struct DummyI2c {}

impl DummyI2c {
    pub fn new() -> (r: Self) {
        DummyI2c {}
    }
}

/// The highest address on a bus of 7-bit addresses.
pub const MAX_ADDRESS: u8 = 0x7F;

/// What a device says of a transfer to an address above `MAX_ADDRESS`.
pub open spec fn address_error() -> Seq<char> {
    "address out of range"@
}

/// How an `ExampleDevice` answers: every transfer comes back as it went, and
/// succeeds where its address is a 7-bit one.
pub open spec fn acknowledge_valid() -> spec_fn(Seq<Transfer>, Transfer) -> Reply {
    |history: Seq<Transfer>, t: Transfer|
        if t.0 <= MAX_ADDRESS {
            (t.1, Ok::<(), Seq<char>>(()))
        } else {
            (t.1, Err::<(), Seq<char>>(address_error()))
        }
}

/// A copy of the operations of a transaction.
fn copy_ops(ops: &Vec<Operation>) -> (r: Vec<Operation>)
    ensures
        ops_view(r@) == ops_view(ops@),
{
    let mut r: Vec<Operation> = Vec::new();
    let mut i: usize = 0;
    while i < ops.len()
        invariant
            i <= ops@.len(),
            ops_view(r@) == ops_view(ops@.subrange(0, i as int)),
        decreases ops@.len() - i,
    {
        let op = match &ops[i] {
            Operation::Read(b) => Operation::Read(copy_bytes(b.as_slice())),
            Operation::Write(b) => Operation::Write(copy_bytes(b.as_slice())),
        };
        assert(op@ == ops@[i as int]@);
        let ghost before = r@;
        r.push(op);
        assert(ops_view(r@) =~= ops_view(before).push(op@));
        assert(ops_view(ops@.subrange(0, i + 1)) =~= ops_view(ops@.subrange(0, i as int)).push(ops@[i as int]@));
        i = i + 1;
    }
    assert(ops@.subrange(0, i as int) =~= ops@);
    r
}

/// A device that records each transfer it is handed. It acknowledges every
/// transfer to a 7-bit address, leaving its operations as they were, and
/// refuses any other with an error.
pub struct ExampleDevice<I2C> {
    iface: I2C,
    log: Vec<(u8, Vec<Operation>)>,
}

impl<I2C> ExampleDevice<I2C> {
    /// The bus interface the device sits on.
    pub closed spec fn interface(&self) -> I2C {
        self.iface
    }

    /// A device on `iface` that has carried out no transfer yet.
    pub fn new(iface: I2C) -> (r: Self)
        ensures
            r.interface() == iface,
            r.history() == Seq::<Transfer>::empty(),
            r.behaviour() == acknowledge_valid(),
    {
        let r = ExampleDevice { iface, log: Vec::new() };
        assert(r.history() =~= Seq::<Transfer>::empty());
        r
    }

    /// How many transfers the device has carried out.
    pub fn transfer_count(&self) -> (r: usize)
        ensures
            r == self.history().len(),
    {
        self.log.len()
    }

    /// The address of the `i`-th transfer the device carried out.
    pub fn address_of(&self, i: usize) -> (r: u8)
        requires
            i < self.history().len(),
        ensures
            r == self.history()[i as int].0,
    {
        self.log[i].0
    }
}

impl<I2C> I2c for ExampleDevice<I2C> {
    open spec fn behaviour(&self) -> spec_fn(Seq<Transfer>, Transfer) -> Reply {
        acknowledge_valid()
    }

    closed spec fn history(&self) -> Seq<Transfer> {
        self.log@.map_values(|e: (u8, Vec<Operation>)| (e.0, ops_view(e.1@)))
    }

    fn transaction(&mut self, address: u8, operations: &mut Vec<Operation>) -> (r: Result<(), I2cCommError>) {
        let copy = copy_ops(operations);
        self.log.push((address, copy));
        assert(self.history() =~= old(self).history().push((address, ops_view(operations@))));
        if address <= MAX_ADDRESS {
            Ok(())
        } else {
            let message = String::from_str("address out of range");
            proof {
                reveal_strlit("address out of range");
            }
            Err(I2cCommError::new(message))
        }
    }
}

/// Devices that answer alike give the same reply to any one transfer.
pub proof fn lemma_alike_devices_reply_alike<A: I2c, B: I2c>(a: A, b: B, t: Transfer)
    requires
        answers_alike(a, b),
    ensures
        (b.behaviour())(b.history(), t) == (a.behaviour())(a.history(), t),
{
    assert(replies(b.behaviour(), b.history(), seq![t]) == replies(a.behaviour(), a.history(), seq![t]));
    assert(replies(b.behaviour(), b.history(), seq![t])[0] == (b.behaviour())(b.history(), t));
    assert(replies(a.behaviour(), a.history(), seq![t])[0] == (a.behaviour())(a.history(), t));
}

/// Devices that answer alike give the same reply to the next transfer, and
/// still answer alike once each has carried it out: so a sequence of calls on
/// one gives the same results as on the other.
pub proof fn lemma_alike_devices_stay_alike<A: I2c, B: I2c>(a: A, b: B, t: Transfer, a_next: A, b_next: B)
    requires
        answers_alike(a, b),
        a_next.behaviour() == a.behaviour(),
        a_next.history() == a.history().push(t),
        b_next.behaviour() == b.behaviour(),
        b_next.history() == b.history().push(t),
    ensures
        (b.behaviour())(b.history(), t) == (a.behaviour())(a.history(), t),
        answers_alike(a_next, b_next),
{
    lemma_alike_devices_reply_alike(a, b, t);
    assert forall|transfers: Seq<Transfer>|
        #[trigger] replies(b_next.behaviour(), b_next.history(), transfers) == replies(
            a_next.behaviour(),
            a_next.history(),
            transfers,
        ) by {
        let longer = seq![t] + transfers;
        assert(longer[0] == t);
        assert(longer.drop_first() =~= transfers);
        let rb = replies(b.behaviour(), b.history(), longer);
        let ra = replies(a.behaviour(), a.history(), longer);
        assert(rb == ra);
        assert(rb.drop_first() =~= replies(b_next.behaviour(), b_next.history(), transfers));
        assert(ra.drop_first() =~= replies(a_next.behaviour(), a_next.history(), transfers));
    }
}

} // verus!
