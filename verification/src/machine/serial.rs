use std::collections::VecDeque;
use std::sync::mpsc::Receiver;

use vstd::prelude::*;

use crate::constants::{SERIAL_LSR_DR, SERIAL_LSR_THRE};

verus! {

/// The receiving end of a std channel (`std::sync::mpsc::Receiver`), carried
/// through as an opaque value.
#[verifier::external_type_specification]
#[verifier::external_body]
#[verifier::reject_recursive_types(T)]
pub struct ExReceiver<T>(Receiver<T>);

/// Takes every byte the sending side has delivered so far, without waiting.
/// `Receiver::try_iter` yields the values already in the channel; what they
/// are depends on the other thread, so nothing is stated of the result.
#[verifier::external_body]
fn drain_channel(rx: &Receiver<u8>) -> Vec<u8> {
    rx.try_iter().collect()
}

/// The serial port's receive side: a FIFO of bytes the guest reads through
/// SERIAL_RX, fed either directly or from a host channel.
pub struct SerialDevice {
    rx_queue: VecDeque<u8>,
    rx_recv: Option<Receiver<u8>>,
}

/// The line status value for a receive queue: transmitter always ready, data
/// ready while a byte is waiting.
pub open spec fn line_status(queue: Seq<u8>) -> u32 {
    if queue.len() > 0 {
        SERIAL_LSR_THRE | SERIAL_LSR_DR
    } else {
        SERIAL_LSR_THRE
    }
}

impl SerialDevice {
    /// The received bytes not yet read, oldest first.
    pub closed spec fn queue(&self) -> Seq<u8> {
        self.rx_queue@
    }

    /// Whether a host channel is attached.
    pub closed spec fn connected(&self) -> bool {
        self.rx_recv is Some
    }

    /// Nothing received, no channel attached.
    pub fn new() -> (r: Self)
        ensures
            r.queue() == Seq::<u8>::empty(),
            !r.connected(),
    {
        Self { rx_queue: VecDeque::new(), rx_recv: None }
    }

    /// Whether a host channel is attached.
    pub fn has_rx_recv(&self) -> (r: bool)
        ensures
            r == self.connected(),
    {
        self.rx_recv.is_some()
    }

    /// Attaches the host channel that `service_input` drains.
    pub fn set_rx_recv(&mut self, recv: Receiver<u8>)
        ensures
            final(self).connected(),
            final(self).queue() == old(self).queue(),
    {
        self.rx_recv = Some(recv);
    }

    /// Appends received bytes to the queue, in order.
    pub fn ingest_bytes(&mut self, bytes: &[u8])
        ensures
            final(self).queue() == old(self).queue() + bytes@,
            final(self).connected() == old(self).connected(),
    {
        let mut i: usize = 0;
        while i < bytes.len()
            invariant
                i <= bytes@.len(),
                self.rx_queue@ == old(self).queue() + bytes@.subrange(0, i as int),
                self.rx_recv == old(self).rx_recv,
            decreases bytes@.len() - i,
        {
            self.rx_queue.push_back(bytes[i]);
            i = i + 1;
            assert(self.rx_queue@ =~= old(self).queue() + bytes@.subrange(0, i as int));
        }
        assert(bytes@.subrange(0, bytes@.len() as int) =~= bytes@);
    }

    /// Consumes and returns the oldest received byte, or 0 when none is waiting.
    pub fn read_rx(&mut self) -> (r: u32)
        ensures
            final(self).connected() == old(self).connected(),
            if old(self).queue().len() > 0 {
                r == old(self).queue()[0] && final(self).queue() == old(self).queue().drop_first()
            } else {
                r == 0 && final(self).queue() == old(self).queue()
            },
    {
        match self.rx_queue.pop_front() {
            Some(b) => {
                assert(self.rx_queue@ =~= old(self).queue().drop_first());
                b as u32
            },
            None => 0,
        }
    }

    /// The oldest received byte without consuming it, or 0 when none is waiting.
    pub fn peek_rx(&self) -> (r: u32)
        ensures
            r == if self.queue().len() > 0 {
                self.queue()[0] as u32
            } else {
                0
            },
    {
        if self.rx_queue.len() > 0 {
            self.rx_queue[0] as u32
        } else {
            0
        }
    }

    /// The line status register.
    pub fn lsr(&self) -> (r: u32)
        ensures
            r == line_status(self.queue()),
    {
        let mut lsr = SERIAL_LSR_THRE;
        if self.rx_queue.len() > 0 {
            lsr = lsr | SERIAL_LSR_DR;
        }
        lsr
    }

    /// Moves whatever the host channel has delivered into the queue. Returns
    /// true when at least one byte arrived; without a channel nothing happens.
    pub fn service_input(&mut self) -> (r: bool)
        ensures
            final(self).connected() == old(self).connected(),
            !old(self).connected() ==> !r && final(self).queue() == old(self).queue(),
            r <==> final(self).queue().len() > old(self).queue().len(),
            exists|got: Seq<u8>| final(self).queue() == old(self).queue() + got,
    {
        let bytes = match &self.rx_recv {
            Some(rx) => drain_channel(rx),
            None => {
                assert(self.rx_queue@ == old(self).queue() + Seq::<u8>::empty());
                return false;
            },
        };
        if bytes.len() == 0 {
            assert(self.rx_queue@ == old(self).queue() + Seq::<u8>::empty());
            return false;
        }
        self.ingest_bytes(bytes.as_slice());
        true
    }
}

/// Bytes come out of the receive queue in the order they went in: reading a
/// queue that had `bytes` appended to an empty queue yields `bytes[0]` first.
pub proof fn lemma_receive_order(bytes: Seq<u8>)
    requires
        bytes.len() > 0,
    ensures
        (Seq::<u8>::empty() + bytes)[0] == bytes[0],
        (Seq::<u8>::empty() + bytes).drop_first() == bytes.drop_first(),
{
    assert((Seq::<u8>::empty() + bytes) =~= bytes);
}

} // verus!
