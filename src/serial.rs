use vstd::prelude::*;

use crate::bus::{ops_view, result_view, I2c, OpView, Operation, Reply, Transfer};
use crate::error::I2cCommError;

verus! {

/// An interception routine: logic, supplied by the caller, that runs with
/// mutable access to a target each time the capability fires.
///
/// Adapters that own a routine run a fresh clone of it on each call, so state
/// that the routine keeps in itself does not carry from one call to the next;
/// state that should do so belongs in something the routine shares.
pub trait Routine<T>: Sized {
    /// Whether the routine may run on this target.
    spec fn accepts(&self, target: T) -> bool;

    /// Whether one run may leave the routine as `next` and take the target from
    /// `before` to `after`, returning `r`.
    spec fn outcome(&self, next: Self, before: T, after: T, r: Result<(), I2cCommError>) -> bool;

    /// Runs the routine once on `target`.
    fn run(&mut self, target: &mut T) -> (r: Result<(), I2cCommError>)
        requires
            old(self).accepts(*old(target)),
        ensures
            old(self).outcome(*final(self), *old(target), *final(target), r),
    ;
}

/// The routine that does nothing and succeeds.
#[derive(Clone, Copy)]
pub struct Noop;

impl<T> Routine<T> for Noop {
    open spec fn accepts(&self, target: T) -> bool {
        true
    }

    open spec fn outcome(&self, next: Self, before: T, after: T, r: Result<(), I2cCommError>) -> bool {
        after == before && r is Ok
    }

    fn run(&mut self, target: &mut T) -> (r: Result<(), I2cCommError>) {
        Ok(())
    }
}

/// The routine that writes one byte to one address each time it runs.
#[derive(Debug, Clone, Copy, PartialEq, Eq, Structural)]
pub struct WriteByte {
    pub address: u8,
    pub byte: u8,
}

impl<T: I2c> Routine<T> for WriteByte {
    open spec fn accepts(&self, target: T) -> bool {
        true
    }

    open spec fn outcome(&self, next: Self, before: T, after: T, r: Result<(), I2cCommError>) -> bool {
        let t = (self.address, seq![OpView::Write(seq![self.byte])]);
        &&& next == *self
        &&& after.behaviour() == before.behaviour()
        &&& after.history() == before.history().push(t)
        &&& result_view(r) == (before.behaviour())(before.history(), t).1
    }

    fn run(&mut self, target: &mut T) -> (r: Result<(), I2cCommError>) {
        let bytes: [u8; 1] = [self.byte];
        assert(bytes@ == seq![self.byte]);
        target.write(self.address, bytes.as_slice())
    }
}


/// A bus device that can run its interception routine.
pub trait HandlesI2C: I2c {
    /// Whether `handle` may be called on the value as it stands.
    spec fn ready(&self) -> bool;

    /// Whether one call of `handle` may take the value from `before` to `after`
    /// and return `r`.
    spec fn handles(before: Self, after: Self, r: Result<(), I2cCommError>) -> bool;

    /// Runs the interception routine once, with mutable access to the device.
    fn handle(&mut self) -> (r: Result<(), I2cCommError>)
        requires
            old(self).ready(),
        ensures
            Self::handles(*old(self), *final(self), r),
    ;
}

/// A runner: a borrowed device coupled with a routine for the span of one call.
///
/// It holds the borrow it was made from and so cannot outlive it.
pub struct Handler<'a, T, F> {
    pub parent: &'a mut T,
    pub handler: F,
}

impl<'a, T, F> Handler<'a, T, F> {
    /// Couples `parent` with the routine `handler`.
    pub fn new(parent: &'a mut T, handler: F) -> (r: Self)
        ensures
            *r.parent == *old(parent),
            *final(r.parent) == *final(parent),
            r.handler == handler,
    {
        Handler { parent, handler }
    }
}

impl<'a, T: I2c> Handler<'a, T, Noop> {
    /// Couples `parent` with the routine that does nothing.
    pub fn noop(parent: &'a mut T) -> (r: Self)
        ensures
            *r.parent == *old(parent),
            *final(r.parent) == *final(parent),
    {
        Self::new(parent, Noop)
    }
}

impl<'a, T: I2c, F> I2c for Handler<'a, T, F> {
    open spec fn behaviour(&self) -> spec_fn(Seq<Transfer>, Transfer) -> Reply {
        (*self.parent).behaviour()
    }

    open spec fn history(&self) -> Seq<Transfer> {
        (*self.parent).history()
    }

    /// Passes the transaction to the borrowed device.
    fn transaction(&mut self, address: u8, operations: &mut Vec<Operation>) -> (r: Result<(), I2cCommError>)
        ensures
            *final(final(self).parent) == *final(old(self).parent),
            final(self).handler == old(self).handler,
    {
        self.parent.transaction(address, operations)
    }
}

impl<'a, T: I2c, F: Routine<T>> HandlesI2C for Handler<'a, T, F> {
    open spec fn ready(&self) -> bool {
        self.handler.accepts(*self.parent)
    }

    open spec fn handles(before: Self, after: Self, r: Result<(), I2cCommError>) -> bool {
        before.handler.outcome(after.handler, *before.parent, *after.parent, r)
    }

    /// Runs the routine on the borrowed device.
    fn handle(&mut self) -> (r: Result<(), I2cCommError>)
        ensures
            *final(final(self).parent) == *final(old(self).parent),
    {
        self.handler.run(self.parent)
    }
}

/// Lends a device out as a runner.
pub trait TargetExt2: I2c + Sized {
    /// Couples this device, borrowed, with the routine `handler`.
    fn handler<F: Routine<Self>>(&mut self, handler: F) -> (r: Handler<'_, Self, F>)
        ensures
            *r.parent == *old(self),
            *final(r.parent) == *final(self),
            r.handler == handler,
    ;
}

impl<T: I2c> TargetExt2 for T {
    fn handler<F: Routine<Self>>(&mut self, handler: F) -> (r: Handler<'_, Self, F>) {
        Handler::new(self, handler)
    }
}


/// Something that can lend itself out as a runner, one call at a time.
pub trait Transformer: I2c + Sized {
    /// The runner lent for the span of a borrow `'a`.
    type Runner<'a>: HandlesI2C where Self: 'a;

    /// Whether `run` may be called on the value as it stands.
    spec fn ready(&self) -> bool;

    /// Whether one call of `run` may take the value from `before` to `after` and
    /// return `r`.
    spec fn runs(before: Self, after: Self, r: Result<(), I2cCommError>) -> bool;

    /// Whether `after` holds the same routine as `before`.
    spec fn keeps_routine(before: Self, after: Self) -> bool;

    /// Passes a transaction to the device inside, keeping the routine.
    fn transact(&mut self, address: u8, operations: &mut Vec<Operation>) -> (r: Result<(), I2cCommError>)
        ensures
            final(self).behaviour() == old(self).behaviour(),
            final(self).history() == old(self).history().push((address, ops_view(old(operations)@))),
            (ops_view(final(operations)@), result_view(r)) == (old(self).behaviour())(
                old(self).history(),
                (address, ops_view(old(operations)@)),
            ),
            Self::keeps_routine(*old(self), *final(self)),
    ;

    /// Lends this value out as a runner, valid while the borrow lasts.
    fn transform<'a>(&'a mut self) -> Self::Runner<'a>;

    /// Makes one runner, runs it once and lets it go.
    fn run(&mut self) -> (r: Result<(), I2cCommError>)
        requires
            old(self).ready(),
        ensures
            Self::runs(*old(self), *final(self), r),
    ;

    /// Moves this value into an owned adapter.
    fn into_owned(self) -> (r: Owned<Self>)
        ensures
            r.inner() == self,
    {
        Owned::new(self)
    }
}

/// A device and the routine that intercepts it, both owned.
pub struct HandlerT<T, F>(pub T, pub F);

impl<T: I2c, F> I2c for HandlerT<T, F> {
    open spec fn behaviour(&self) -> spec_fn(Seq<Transfer>, Transfer) -> Reply {
        self.0.behaviour()
    }

    open spec fn history(&self) -> Seq<Transfer> {
        self.0.history()
    }

    /// Passes the transaction to the owned device.
    fn transaction(&mut self, address: u8, operations: &mut Vec<Operation>) -> (r: Result<(), I2cCommError>)
        ensures
            final(self).1 == old(self).1,
    {
        self.0.transaction(address, operations)
    }
}

impl<T: I2c + 'static, F: Routine<T> + Clone + 'static> Transformer for HandlerT<T, F> {
    type Runner<'a> = Handler<'a, T, F>;

    open spec fn ready(&self) -> bool {
        forall|g: F| cloned(self.1, g) ==> #[trigger] g.accepts(self.0)
    }

    open spec fn runs(before: Self, after: Self, r: Result<(), I2cCommError>) -> bool {
        &&& after.1 == before.1
        &&& exists|g: F, next: F| cloned(before.1, g) && #[trigger] g.outcome(next, before.0, after.0, r)
    }

    open spec fn keeps_routine(before: Self, after: Self) -> bool {
        after.1 == before.1
    }

    fn transact(&mut self, address: u8, operations: &mut Vec<Operation>) -> (r: Result<(), I2cCommError>) {
        self.transaction(address, operations)
    }

    /// Lends the device together with a fresh clone of the routine.
    fn transform<'a>(&'a mut self) -> (r: Handler<'a, T, F>)
        ensures
            *r.parent == old(self).0,
            *final(r.parent) == final(self).0,
            cloned(old(self).1, r.handler),
            final(self).1 == old(self).1,
    {
        Handler::new(&mut self.0, self.1.clone())
    }

    fn run(&mut self) -> (r: Result<(), I2cCommError>) {
        let mut runner = self.transform();
        runner.handle()
    }
}

/// An owned adapter: it owns what it wraps, offers the bus capability itself, and
/// on each `handle` lends its contents out as one runner for that call alone.
pub struct Owned<T>(T);

impl<T> Owned<T> {
    /// What the adapter owns.
    pub closed spec fn inner(&self) -> T {
        self.0
    }

    /// Takes ownership of `transformer`.
    pub fn new(transformer: T) -> (r: Self)
        ensures
            r.inner() == transformer,
    {
        Owned(transformer)
    }

    /// Gives back what the adapter owns.
    pub fn into_inner(self) -> (r: T)
        ensures
            r == self.inner(),
    {
        self.0
    }
}

impl<T: Transformer> I2c for Owned<T> {
    open spec fn behaviour(&self) -> spec_fn(Seq<Transfer>, Transfer) -> Reply {
        self.inner().behaviour()
    }

    open spec fn history(&self) -> Seq<Transfer> {
        self.inner().history()
    }

    /// Passes the transaction to what the adapter owns, keeping its routine.
    fn transaction(&mut self, address: u8, operations: &mut Vec<Operation>) -> (r: Result<(), I2cCommError>)
        ensures
            T::keeps_routine(old(self).inner(), final(self).inner()),
    {
        self.0.transact(address, operations)
    }
}

impl<T: Transformer> HandlesI2C for Owned<T> {
    open spec fn ready(&self) -> bool {
        self.inner().ready()
    }

    open spec fn handles(before: Self, after: Self, r: Result<(), I2cCommError>) -> bool {
        T::runs(before.inner(), after.inner(), r)
    }

    /// Runs one runner over the owned contents and hands back its result unchanged.
    fn handle(&mut self) -> (r: Result<(), I2cCommError>) {
        self.0.run()
    }
}

/// Pairs a device with a routine into an owned adapter.
pub trait OwnedTargetExt: I2c + Sized {
    /// Moves this device and `handler` into an owned adapter.
    fn owned_handler<F: Routine<Self> + Clone + 'static>(self, handler: F) -> (r: Owned<HandlerT<Self, F>>)
        where
            Self: 'static,
        ensures
            r.inner() == HandlerT(self, handler),
    ;
}

impl<T: I2c> OwnedTargetExt for T {
    fn owned_handler<F: Routine<Self> + Clone + 'static>(self, handler: F) -> (r: Owned<HandlerT<Self, F>>)
        where
            Self: 'static,
    {
        HandlerT(self, handler).into_owned()
    }
}

/// Handling an owned adapter once runs one clone of its routine, once, on the
/// device the adapter owns, not on a copy: what the routine did to the device
/// is what the adapter holds afterwards, and the stored routine is unchanged.
pub proof fn lemma_handle_runs_routine_once<T: I2c + 'static, F: Routine<T> + Clone + 'static>(
    device: T,
    routine: F,
    attached: Owned<HandlerT<T, F>>,
    after: Owned<HandlerT<T, F>>,
    r: Result<(), I2cCommError>,
)
    requires
        attached.inner() == HandlerT(device, routine),
        <Owned<HandlerT<T, F>> as HandlesI2C>::handles(attached, after, r),
    ensures
        after.inner().1 == routine,
        exists|run: F, next: F| cloned(routine, run) && #[trigger] run.outcome(next, device, after.inner().0, r),
{
}

} // verus!
