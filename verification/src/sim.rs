//! A scripted, fully verified transport.
//!
//! [`SimTransport`] plays a peer from two scripts: a list of ready-signal
//! levels handed out one per read, and a list of reply byte streams, one
//! per select session that reads. It records every bus action, so a
//! caller can check afterwards what went over the wire and in what
//! order. It is the library's own implementation of [`Transport`] —
//! which also shows the trait's contracts are satisfiable.

use vstd::prelude::*;
use crate::transport::{BusEvent, BusFault, Transport};

verus! {

/// One recorded bus action, the executable twin of [`BusEvent`].
pub enum BusOp {
    SelAssert,
    SelRelease,
    DataWrite(Vec<u8>),
    DataRead(Vec<u8>),
    SignalRead(bool),
    SleepTicks(u64),
}

impl View for BusOp {
    type V = BusEvent;

    open spec fn view(&self) -> BusEvent {
        match self {
            BusOp::SelAssert => BusEvent::SelAssert,
            BusOp::SelRelease => BusEvent::SelRelease,
            BusOp::DataWrite(v) => BusEvent::DataWrite { data: v@ },
            BusOp::DataRead(v) => BusEvent::DataRead { data: v@ },
            BusOp::SignalRead(b) => BusEvent::SignalRead { level: *b },
            BusOp::SleepTicks(t) => BusEvent::SleepTicks { ticks: *t },
        }
    }
}

/// A transport that answers from scripts and records everything.
pub struct SimTransport {
    ops: Vec<BusOp>,
    signals: Vec<bool>,
    sig_idx: usize,
    replies: Vec<Vec<u8>>,
    reply_idx: usize,
    cursor: usize,
    did_read: bool,
    sel: bool,
    fail_writes: bool,
}

impl SimTransport {
    /// A fresh transport: `signals` are handed out one per signal read
    /// (then the level reads as deasserted); `replies` feed the byte
    /// reads, one script entry per select session that reads, padded
    /// with zeros past its end.
    pub fn new(signals: Vec<bool>, replies: Vec<Vec<u8>>) -> (r: Self)
        ensures
            r.log() == Seq::<BusEvent>::empty(),
            !r.selected(),
    {
        let r = SimTransport {
            ops: Vec::new(),
            signals,
            sig_idx: 0,
            replies,
            reply_idx: 0,
            cursor: 0,
            did_read: false,
            sel: false,
            fail_writes: false,
        };
        proof {
            assert(r.log() =~= Seq::<BusEvent>::empty());
        }
        r
    }

    /// Make every later byte write fail with a bus fault.
    pub fn set_fail_writes(&mut self, b: bool)
        ensures
            final(self).log() == old(self).log(),
            final(self).selected() == old(self).selected(),
    {
        self.fail_writes = b;
    }

    /// Everything recorded so far, oldest first.
    pub fn ops(&self) -> (r: &Vec<BusOp>)
        ensures
            r@.map_values(|op: BusOp| op@) == self.log(),
    {
        proof {
            assert(self.ops@.map_values(|op: BusOp| op@) =~= self.log());
        }
        &self.ops
    }
}

impl Transport for SimTransport {
    closed spec fn log(&self) -> Seq<BusEvent> {
        self.ops@.map_values(|op: BusOp| op@)
    }

    closed spec fn selected(&self) -> bool {
        self.sel
    }

    fn assert_select(&mut self) -> (r: Result<(), BusFault>)
    {
        self.ops.push(BusOp::SelAssert);
        self.sel = true;
        proof {
            assert(self.log() =~= old(self).log().push(BusEvent::SelAssert));
        }
        Ok(())
    }

    fn release_select(&mut self) -> (r: Result<(), BusFault>)
    {
        self.ops.push(BusOp::SelRelease);
        self.sel = false;
        if self.did_read {
            if self.reply_idx < self.replies.len() {
                self.reply_idx = self.reply_idx + 1;
            }
            self.cursor = 0;
            self.did_read = false;
        }
        proof {
            assert(self.log() =~= old(self).log().push(BusEvent::SelRelease));
        }
        Ok(())
    }

    fn write(&mut self, data: &[u8]) -> (r: Result<(), BusFault>)
    {
        let copy: Vec<u8> = vstd::slice::slice_to_vec(data);
        self.ops.push(BusOp::DataWrite(copy));
        proof {
            assert(self.log() =~= old(self).log().push(BusEvent::DataWrite { data: data@ }));
        }
        if self.fail_writes {
            Err(BusFault)
        } else {
            Ok(())
        }
    }

    fn read(&mut self, n: usize) -> (r: Result<Vec<u8>, BusFault>)
    {
        self.did_read = true;
        let mut v: Vec<u8> = Vec::new();
        let mut copy: Vec<u8> = Vec::new();
        let mut i: usize = 0;
        while i < n
            invariant
                i <= n,
                v@.len() == i,
                copy@ == v@,
                self.ops == old(self).ops,
                self.sel == old(self).sel,
                self.sel,
                self.signals == old(self).signals,
                self.sig_idx == old(self).sig_idx,
                self.replies == old(self).replies,
                self.reply_idx == old(self).reply_idx,
                self.fail_writes == old(self).fail_writes,
            decreases n - i,
        {
            let b: u8 = if self.reply_idx < self.replies.len()
                && self.cursor < self.replies[self.reply_idx].len() {
                let b0: u8 = self.replies[self.reply_idx][self.cursor];
                self.cursor = self.cursor + 1;
                b0
            } else {
                0
            };
            v.push(b);
            copy.push(b);
            i = i + 1;
        }
        self.ops.push(BusOp::DataRead(copy));
        proof {
            assert(self.log() =~= old(self).log().push(BusEvent::DataRead { data: v@ }));
        }
        Ok(v)
    }

    fn read_signal(&mut self) -> (r: bool)
    {
        let level: bool = if self.sig_idx < self.signals.len() {
            let b: bool = self.signals[self.sig_idx];
            self.sig_idx = self.sig_idx + 1;
            b
        } else {
            false
        };
        self.ops.push(BusOp::SignalRead(level));
        proof {
            assert(self.log() =~= old(self).log().push(BusEvent::SignalRead { level }));
        }
        level
    }

    fn sleep(&mut self, ticks: u64)
    {
        self.ops.push(BusOp::SleepTicks(ticks));
        proof {
            assert(self.log() =~= old(self).log().push(BusEvent::SleepTicks { ticks }));
        }
    }
}

} // verus!
