//! The transport boundary.
//!
//! The engine reaches the physical bus — select line, byte transfers, the
//! out-of-band ready signal, and cooperative sleeps — only through the
//! [`Transport`] trait. Every operation appends one event to a ghost log,
//! so contracts higher up can bound how many transfers an operation
//! performs and tie reported signal states to live reads. What the peer
//! answers, and what level the ready signal has, is left open: the
//! environment decides, and the engine is verified for every outcome.
//!
//! The select line is modeled too: writing or reading bytes requires it
//! asserted, observing the ready signal requires it released, so the
//! assert/release pairing on every exit path is checked, not hoped for.

use vstd::prelude::*;

verus! {

/// A bus-level I/O fault reported by the driver.
#[derive(Clone, Copy, PartialEq, Eq, Structural, Debug)]
pub struct BusFault;

/// One observable action on the bus, as recorded in the ghost log.
pub enum BusEvent {
    SelAssert,
    SelRelease,
    DataWrite { data: Seq<u8> },
    DataRead { data: Seq<u8> },
    SignalRead { level: bool },
    SleepTicks { ticks: u64 },
}

/// How many byte transfers toward the peer a log holds.
pub open spec fn write_count(log: Seq<BusEvent>) -> int
    decreases log.len(),
{
    if log.len() == 0 {
        0
    } else {
        write_count(log.drop_last()) + (if log.last() is DataWrite { 1int } else { 0int })
    }
}

pub broadcast proof fn lemma_write_count_push(log: Seq<BusEvent>, e: BusEvent)
    ensures
        #[trigger] write_count(log.push(e))
            == write_count(log) + (if e is DataWrite { 1int } else { 0int }),
{
    assert(log.push(e).drop_last() =~= log);
    assert(log.push(e).last() == e);
}

/// The payloads of the byte transfers toward the peer, in order.
pub open spec fn writes_of(log: Seq<BusEvent>) -> Seq<Seq<u8>>
    decreases log.len(),
{
    if log.len() == 0 {
        Seq::empty()
    } else {
        match log.last() {
            BusEvent::DataWrite { data } => writes_of(log.drop_last()).push(data),
            _ => writes_of(log.drop_last()),
        }
    }
}

pub broadcast proof fn lemma_writes_of_push(log: Seq<BusEvent>, e: BusEvent)
    ensures
        e matches BusEvent::DataWrite { data }
            ==> #[trigger] writes_of(log.push(e)) == writes_of(log).push(data),
        !(e is DataWrite) ==> writes_of(log.push(e)) == writes_of(log),
{
    assert(log.push(e).drop_last() =~= log);
    assert(log.push(e).last() == e);
}

/// The payloads of the byte transfers from the peer, in order.
pub open spec fn reads_of(log: Seq<BusEvent>) -> Seq<Seq<u8>>
    decreases log.len(),
{
    if log.len() == 0 {
        Seq::empty()
    } else {
        match log.last() {
            BusEvent::DataRead { data } => reads_of(log.drop_last()).push(data),
            _ => reads_of(log.drop_last()),
        }
    }
}

pub broadcast proof fn lemma_reads_of_push(log: Seq<BusEvent>, e: BusEvent)
    ensures
        e matches BusEvent::DataRead { data }
            ==> #[trigger] reads_of(log.push(e)) == reads_of(log).push(data),
        !(e is DataRead) ==> reads_of(log.push(e)) == reads_of(log),
{
    assert(log.push(e).drop_last() =~= log);
    assert(log.push(e).last() == e);
}

/// Whether `log` extends `base`: everything in `base` is still there,
/// unchanged, at the front of `log`.
pub open spec fn extends(log: Seq<BusEvent>, base: Seq<BusEvent>) -> bool {
    base.len() <= log.len() && log.take(base.len() as int) == base
}

pub broadcast proof fn lemma_extends_push(log: Seq<BusEvent>, base: Seq<BusEvent>, e: BusEvent)
    requires
        extends(log, base),
    ensures
        #[trigger] extends(log.push(e), base),
{
    assert(log.push(e).take(base.len() as int) =~= base);
}

pub proof fn lemma_extends_refl(log: Seq<BusEvent>)
    ensures
        extends(log, log),
{
    assert(log.take(log.len() as int) =~= log);
}

pub proof fn lemma_extends_trans(c: Seq<BusEvent>, b: Seq<BusEvent>, a: Seq<BusEvent>)
    requires
        extends(c, b),
        extends(b, a),
    ensures
        extends(c, a),
{
    assert forall|i: int| 0 <= i < a.len() implies c.take(a.len() as int)[i]
        == a[i] by {
        assert(c.take(b.len() as int)[i] == b[i]);
        assert(b.take(a.len() as int)[i] == a[i]);
    }
    assert(c.take(a.len() as int) =~= a);
}

/// The bus driver's primitives. One exchange owns the bus exclusively;
/// select is asserted and released strictly within one call stack.
pub trait Transport: Sized {
    /// Every bus action so far, oldest first.
    spec fn log(&self) -> Seq<BusEvent>;

    /// Whether the select line is currently asserted.
    spec fn selected(&self) -> bool;

    /// Claims the bus by asserting select.
    fn assert_select(&mut self) -> (r: Result<(), BusFault>)
        requires
            !old(self).selected(),
        ensures
            final(self).log() == old(self).log().push(BusEvent::SelAssert),
            r is Ok ==> final(self).selected(),
            r is Err ==> !final(self).selected(),
    ;

    /// Frees the bus by releasing select; afterwards the line is released
    /// whatever the driver reported.
    fn release_select(&mut self) -> (r: Result<(), BusFault>)
        ensures
            final(self).log() == old(self).log().push(BusEvent::SelRelease),
            !final(self).selected(),
    ;

    /// Shifts `data` out to the peer.
    fn write(&mut self, data: &[u8]) -> (r: Result<(), BusFault>)
        requires
            old(self).selected(),
        ensures
            final(self).log() == old(self).log().push(BusEvent::DataWrite { data: data@ }),
            final(self).selected(),
    ;

    /// Shifts `n` bytes in from the peer. What they hold is the peer's
    /// business; only the count is guaranteed.
    fn read(&mut self, n: usize) -> (r: Result<Vec<u8>, BusFault>)
        requires
            old(self).selected(),
        ensures
            final(self).selected(),
            r matches Ok(v) ==> v@.len() == n
                && final(self).log() == old(self).log().push(BusEvent::DataRead { data: v@ }),
            r is Err ==> final(self).log() == old(self).log().push(
                BusEvent::DataRead { data: Seq::<u8>::empty() }),
    ;

    /// Reads the live level of the ready signal. Never cached: each call
    /// is one fresh read, and the log records what was seen.
    fn read_signal(&mut self) -> (r: bool)
        requires
            !old(self).selected(),
        ensures
            !final(self).selected(),
            final(self).log() == old(self).log().push(BusEvent::SignalRead { level: r }),
    ;

    /// Sleeps the calling task for a bounded tick count.
    fn sleep(&mut self, ticks: u64)
        ensures
            final(self).selected() == old(self).selected(),
            final(self).log() == old(self).log().push(BusEvent::SleepTicks { ticks }),
    ;
}

} // verus!
