//! Queue-mediated duplex transport: owns a bounded transmit queue and a
//! bounded receive buffer, interleaves sending queued bytes with reading
//! inbound ones while the attention signal asks for it, and recovers
//! synchronization when garbage or partial frames appear in the buffer.

use vstd::prelude::*;
use crate::Addr;
use crate::XBeeApiError;
use crate::api_frame::{
    ApiData, ApiDataView, ByteSource, FramePacker, SliceSource, TxOptions, TxRequestIter,
    frame_bytes, parse_spec, tx_request_bytes, unpack_frame, unpack_spec, START, TX_OPT_DISABLE_ACK,
    TX_OPT_MASK,
};
use crate::queues::{
    avec_as_slice, avec_contents, avec_drain_prefix, avec_is_empty, avec_is_full, avec_new,
    avec_try_push, deque_contents, deque_is_empty, deque_is_full, deque_len, deque_new,
    deque_pop_front, deque_push_back, RxBuffer, TxQueue, QUEUE_CAP,
};

verus! {

/// The hardware a transport polls: an attention line the module pulls low
/// while it has data to clock out, and a full-duplex single-byte exchange.
/// Implementations live with the hardware layer; the transport asks nothing
/// of the values they return, so its guarantees hold for any link behavior.
pub trait XBeeLink {
    /// Error the byte exchange can report; the transport passes it up
    /// verbatim and retries nothing.
    type LinkError;

    /// Level of the attention line right now.
    fn attn_is_high(&mut self) -> bool;

    /// Sends one byte and reads the byte clocked back on the same exchange.
    fn exchange(&mut self, byte: u8) -> Result<u8, Self::LinkError>;
}

/// Index of the first start marker in `s`, or `s.len()` when none occurs.
pub open spec fn first_start(s: Seq<u8>) -> int
    decreases s.len(),
{
    if s.len() == 0 {
        0
    } else if s[0] == START {
        0
    } else {
        1 + first_start(s.skip(1))
    }
}

/// `first_start` lands on the first marker: nothing before it is a marker,
/// and the byte there, if any, is one.
pub proof fn lemma_first_start(s: Seq<u8>)
    ensures
        0 <= first_start(s) <= s.len(),
        forall|j: int| 0 <= j < first_start(s) ==> s[j] != START,
        first_start(s) < s.len() ==> s[first_start(s)] == START,
    decreases s.len(),
{
    if s.len() == 0 {
    } else if s[0] == START {
    } else {
        lemma_first_start(s.skip(1));
        assert forall|j: int| 0 <= j < first_start(s) implies s[j] != START by {
            if j > 0 {
                assert(s.skip(1)[j - 1] == s[j]);
            }
        }
        if first_start(s) < s.len() {
            assert(s.skip(1)[first_start(s) - 1] == s[first_start(s)]);
        }
    }
}

/// What decoding the buffered bytes yields: the leading frame's payload run
/// through the grammar, or the first layer's complaint.
pub open spec fn decode_spec(rx: Seq<u8>) -> Result<ApiDataView, XBeeApiError> {
    match unpack_spec(rx) {
        Ok(p) => match parse_spec(p.0) {
            Ok(m) => Ok(m),
            Err(e) => Err(XBeeApiError::Parse(e)),
        },
        Err(ue) => Err(XBeeApiError::Unpack(ue)),
    }
}

/// Payload length of a data-transmission request carrying `data_len` bytes:
/// the fixed fields take 11 bytes with a long address and 5 with a short one.
pub open spec fn tx_payload_len(addr: Addr, data_len: int) -> int {
    match addr {
        Addr::Long(_) => data_len + 11,
        Addr::Short(_) => data_len + 5,
    }
}

/// The duplex transport used in SPI mode: a bounded transmit queue drained
/// toward the link and a bounded receive buffer filled from it, both of
/// `QUEUE_CAP` bytes. All mutation goes through `&mut self`, so exclusive
/// access is the borrow checker's problem, not a runtime lock's.
pub struct XBeeApiSpi {
    tx_queue: TxQueue,
    rx_queue: RxBuffer,
}

impl XBeeApiSpi {
    /// The bytes queued for transmission, front first.
    pub closed spec fn tx(&self) -> Seq<u8> {
        deque_contents(self.tx_queue)
    }

    /// The bytes received and not yet consumed, in arrival order.
    pub closed spec fn rx(&self) -> Seq<u8> {
        avec_contents(self.rx_queue)
    }

    /// Both queues stay within their capacity.
    pub open spec fn wf(&self) -> bool {
        self.tx().len() <= QUEUE_CAP && self.rx().len() <= QUEUE_CAP
    }

    pub fn new() -> (r: XBeeApiSpi)
        ensures
            r.wf(),
            r.tx() == Seq::<u8>::empty(),
            r.rx() == Seq::<u8>::empty(),
    {
        XBeeApiSpi { tx_queue: deque_new(), rx_queue: avec_new() }
    }

    pub fn tx_queue_empty(&self) -> (r: bool)
        ensures
            r == (self.tx().len() == 0),
    {
        deque_is_empty(&self.tx_queue)
    }

    pub fn tx_queue_full(&self) -> (r: bool)
        ensures
            r == (self.tx().len() == QUEUE_CAP),
    {
        deque_is_full(&self.tx_queue)
    }

    pub fn rx_queue_empty(&self) -> (r: bool)
        ensures
            r == (self.rx().len() == 0),
    {
        avec_is_empty(&self.rx_queue)
    }

    pub fn rx_queue_full(&self) -> (r: bool)
        ensures
            r == (self.rx().len() == QUEUE_CAP),
    {
        avec_is_full(&self.rx_queue)
    }

    /// One poll cycle: while the attention line is low or transmit bytes
    /// wait, exchange one byte — a queued byte or the `0xFF` filler — and
    /// keep the byte read back whenever the line was low, until the receive
    /// buffer fills. Always terminates, for any signal pattern; transmit
    /// bytes leave in order and received bytes append in order. Returns
    /// whether any byte was received, or the first link error.
    pub fn transmit_and_receive<L: XBeeLink>(&mut self, link: &mut L) -> (r: Result<
        bool,
        L::LinkError,
    >)
        requires
            old(self).wf(),
        ensures
            final (self).wf(),
            final (self).tx().len() <= old(self).tx().len(),
            final (self).tx() == old(self).tx().skip(
                old(self).tx().len() - final (self).tx().len(),
            ),
            final (self).rx().len() >= old(self).rx().len(),
            final (self).rx().take(old(self).rx().len() as int) == old(self).rx(),
            r matches Ok(read) ==> (final (self).tx().len() == 0 || final (self).rx().len()
                == QUEUE_CAP) && (read <==> final (self).rx().len() > old(self).rx().len()),
    {
        let mut val_read = false;
        let ghost tx0 = self.tx();
        let ghost rx0 = self.rx();
        loop
            invariant
                tx0 == old(self).tx(),
                rx0 == old(self).rx(),
                self.wf(),
                self.tx().len() <= tx0.len(),
                self.tx() == tx0.skip(tx0.len() - self.tx().len()),
                self.rx().len() >= rx0.len(),
                self.rx().take(rx0.len() as int) == rx0,
                val_read <==> self.rx().len() > rx0.len(),
            ensures
                self.tx().len() == 0 || self.rx().len() == QUEUE_CAP,
            decreases self.tx().len() + QUEUE_CAP - self.rx().len(),
        {
            let attn_high = link.attn_is_high();
            let tx_empty = deque_is_empty(&self.tx_queue);
            if tx_empty && attn_high {
                break ;
            }
            if !attn_high && avec_is_full(&self.rx_queue) {
                // nowhere to put the byte an exchange would read: stop
                // rather than lose it
                break ;
            }
            let tx_byte = if !tx_empty {
                let popped = deque_pop_front(&mut self.tx_queue);
                proof {
                    assert(self.tx() =~= tx0.skip(tx0.len() - self.tx().len()));
                }
                popped.unwrap()
            } else {
                0xFF
            };
            let rx_byte = match link.exchange(tx_byte) {
                Ok(b) => b,
                Err(e) => {
                    return Err(e);
                },
            };
            if !attn_high {
                let pushed = avec_try_push(&mut self.rx_queue, rx_byte);
                proof {
                    assert(self.rx().take(rx0.len() as int) =~= rx0);
                }
                val_read = true;
                if avec_is_full(&self.rx_queue) {
                    break ;
                }
            }
        }
        Ok(val_read)
    }

    /// Appends pre-framed bytes to the transmit queue, whole or not at all:
    /// when they do not fit in the remaining capacity, reports the overflow
    /// and leaves the queue untouched.
    pub fn send_data_raw(&mut self, data: &[u8]) -> (r: Result<(), ()>)
        requires
            old(self).wf(),
        ensures
            final (self).wf(),
            final (self).rx() == old(self).rx(),
            old(self).tx().len() + data@.len() <= QUEUE_CAP ==> r is Ok && final (self).tx()
                == old(self).tx() + data@,
            old(self).tx().len() + data@.len() > QUEUE_CAP ==> r is Err && final (self).tx()
                == old(self).tx(),
    {
        let used = deque_len(&self.tx_queue);
        if data.len() > QUEUE_CAP - used {
            return Err(());
        }
        let ghost tx0 = self.tx();
        let mut i: usize = 0;
        while i < data.len()
            invariant
                i <= data@.len(),
                tx0.len() + data@.len() <= QUEUE_CAP,
                self.tx() == tx0 + data@.take(i as int),
                self.rx() == old(self).rx(),
                self.wf(),
            decreases data@.len() - i,
        {
            let pushed = deque_push_back(&mut self.tx_queue, *vstd::slice::slice_index_get(data, i));
            proof {
                assert(self.tx() =~= tx0 + data@.take(i + 1));
            }
            i += 1;
        }
        proof {
            assert(tx0 + data@.take(data@.len() as int) =~= tx0 + data@);
        }
        Ok(())
    }

    /// Builds the data-transmission payload for `frame_id`, `addr`,
    /// `options` and `data`, frames it, and queues the frame whole — or
    /// reports the overflow and queues nothing.
    fn send_request(&mut self, frame_id: u8, addr: Addr, options: TxOptions, data: &[u8]) -> (r:
        Result<(), ()>)
        requires
            old(self).wf(),
            tx_payload_len(addr, data@.len() as int) <= 65535,
        ensures
            final (self).wf(),
            final (self).rx() == old(self).rx(),
            ({
                let frame = frame_bytes(tx_request_bytes(frame_id, addr, options, data@));
                (old(self).tx().len() + frame.len() <= QUEUE_CAP ==> r is Ok && final (self).tx()
                    == old(self).tx() + frame) && (old(self).tx().len() + frame.len() > QUEUE_CAP
                    ==> r is Err && final (self).tx() == old(self).tx())
            }),
    {
        let ghost payload = tx_request_bytes(frame_id, addr, options, data@);
        let ghost frame = frame_bytes(payload);
        let source = SliceSource::new(data);
        let request = TxRequestIter::new(frame_id, addr, options, source);
        let payload_len = request.len();
        let mut packer = match FramePacker::new(request, false, false) {
            Ok(p) => p,
            Err(_) => {
                return Err(());
            },
        };
        let used = deque_len(&self.tx_queue);
        if payload_len + 4 > QUEUE_CAP - used {
            return Err(());
        }
        let ghost tx0 = self.tx();
        let ghost mut done: int = 0;
        loop
            invariant
                packer.wf(),
                self.wf(),
                self.rx() == old(self).rx(),
                0 <= done <= frame.len(),
                packer.remaining() == frame.skip(done),
                self.tx() == tx0 + frame.take(done),
                tx0.len() + frame.len() <= QUEUE_CAP,
            ensures
                done == frame.len(),
                self.tx() == tx0 + frame.take(done),
                self.rx() == old(self).rx(),
                self.wf(),
            decreases frame.len() - done,
        {
            let b = match packer.next() {
                Some(b) => b,
                None => {
                    proof {
                        assert(frame.skip(done).len() == 0);
                    }
                    break ;
                },
            };
            proof {
                assert(frame.skip(done)[0] == frame[done]);
            }
            let pushed = deque_push_back(&mut self.tx_queue, b);
            proof {
                assert(frame.skip(done).skip(1) =~= frame.skip(done + 1));
                assert((tx0 + frame.take(done)).push(frame[done]) =~= tx0 + frame.take(done + 1));
                done = done + 1;
            }
        }
        proof {
            assert(tx0 + frame.take(frame.len() as int) =~= tx0 + frame);
        }
        Ok(())
    }

    /// Queues a data-transmission request with no options set.
    pub fn send_data(&mut self, frame_id: u8, addr: Addr, data: &[u8]) -> (r: Result<(), ()>)
        requires
            old(self).wf(),
            tx_payload_len(addr, data@.len() as int) <= 65535,
        ensures
            final (self).wf(),
            final (self).rx() == old(self).rx(),
            ({
                let frame = frame_bytes(
                    tx_request_bytes(frame_id, addr, TxOptions { bits: 0 }, data@),
                );
                (old(self).tx().len() + frame.len() <= QUEUE_CAP ==> r is Ok && final (self).tx()
                    == old(self).tx() + frame) && (old(self).tx().len() + frame.len() > QUEUE_CAP
                    ==> r is Err && final (self).tx() == old(self).tx())
            }),
    {
        self.send_request(frame_id, addr, TxOptions::empty(), data)
    }

    /// Queues a data-transmission request asking the peer not to
    /// acknowledge it.
    pub fn send_data_no_ack(&mut self, frame_id: u8, addr: Addr, data: &[u8]) -> (r: Result<
        (),
        (),
    >)
        requires
            old(self).wf(),
            tx_payload_len(addr, data@.len() as int) <= 65535,
        ensures
            final (self).wf(),
            final (self).rx() == old(self).rx(),
            ({
                let frame = frame_bytes(
                    tx_request_bytes(
                        frame_id,
                        addr,
                        TxOptions { bits: TX_OPT_DISABLE_ACK },
                        data@,
                    ),
                );
                (old(self).tx().len() + frame.len() <= QUEUE_CAP ==> r is Ok && final (self).tx()
                    == old(self).tx() + frame) && (old(self).tx().len() + frame.len() > QUEUE_CAP
                    ==> r is Err && final (self).tx() == old(self).tx())
            }),
    {
        let options = TxOptions::from_bits_truncate(TX_OPT_DISABLE_ACK);
        proof {
            assert(TX_OPT_DISABLE_ACK & TX_OPT_MASK == TX_OPT_DISABLE_ACK) by (bit_vector);
        }
        self.send_request(frame_id, addr, options, data)
    }

    /// Decodes the buffered bytes against the framing layer and then the
    /// payload grammar, without consuming anything: the caller advances past
    /// the frame separately, once done with the borrowed result.
    pub fn unpack_and_parse_buffer<'d>(&'d self) -> (r: Result<ApiData<'d>, XBeeApiError>)
        ensures
            decode_spec(self.rx()) matches Ok(m) ==> (r matches Ok(d) && d@ == m),
            decode_spec(self.rx()) matches Err(e) ==> (r matches Err(e2) && e2 == e),
    {
        let buf = avec_as_slice(&self.rx_queue);
        match unpack_frame(buf, false, false) {
            Ok((frame, _rem)) => match ApiData::parse(frame) {
                Ok(d) => Ok(d),
                Err(e) => Err(XBeeApiError::Parse(e)),
            },
            Err(e) => Err(XBeeApiError::Unpack(e)),
        }
    }

    /// Discards buffered bytes up to, not including, the next start marker,
    /// or empties the buffer when no marker is present; what stays begins
    /// exactly at the marker. Returns how many bytes were dropped.
    pub fn remove_until_packet(&mut self) -> (r: Result<usize, ()>)
        requires
            old(self).wf(),
        ensures
            final (self).wf(),
            final (self).tx() == old(self).tx(),
            r == Ok::<usize, ()>(first_start(old(self).rx()) as usize),
            final (self).rx() == old(self).rx().skip(first_start(old(self).rx())),
            forall|j: int|
                0 <= j < first_start(old(self).rx()) ==> old(self).rx()[j] != START,
            final (self).rx().len() > 0 ==> final (self).rx()[0] == START,
    {
        proof {
            lemma_first_start(self.rx());
        }
        let buf = avec_as_slice(&self.rx_queue);
        let n = buf.len();
        let mut i: usize = 0;
        loop
            invariant
                i <= n,
                n == buf@.len(),
                buf@ == avec_contents(old(self).rx_queue),
                forall|j: int| 0 <= j < i ==> buf@[j] != START,
            ensures
                i <= n,
                forall|j: int| 0 <= j < i ==> buf@[j] != START,
                i == n || buf@[i as int] == START,
            decreases n - i,
        {
            if i >= n {
                break ;
            }
            if *vstd::slice::slice_index_get(buf, i) == START {
                break ;
            }
            i += 1;
        }
        proof {
            if first_start(buf@) < i {
                assert(buf@[first_start(buf@)] != START);
            }
            if i < first_start(buf@) {
                assert(buf@[i as int] != START);
            }
            assert(i == first_start(buf@));
        }
        avec_drain_prefix(&mut self.rx_queue, i);
        Ok(i)
    }

    /// Discards one buffered byte, then everything up to the next start
    /// marker: the step that moves past a frame just consumed or rejected,
    /// so scanning can go on at the next candidate. Returns how many bytes
    /// were dropped; an empty buffer stays empty.
    pub fn remove_until_next_packet(&mut self) -> (r: Result<usize, ()>)
        requires
            old(self).wf(),
        ensures
            final (self).wf(),
            final (self).tx() == old(self).tx(),
            old(self).rx().len() == 0 ==> r == Ok::<usize, ()>(0) && final (self).rx() == old(
                self,
            ).rx(),
            old(self).rx().len() > 0 ==> r == Ok::<usize, ()>(
                (1 + first_start(old(self).rx().skip(1))) as usize,
            ) && final (self).rx() == old(self).rx().skip(1).skip(
                first_start(old(self).rx().skip(1)),
            ),
    {
        if avec_is_empty(&self.rx_queue) {
            return Ok(0);
        }
        proof {
            lemma_first_start(self.rx().skip(1));
        }
        avec_drain_prefix(&mut self.rx_queue, 1);
        match self.remove_until_packet() {
            Ok(n) => Ok(n + 1),
            Err(e) => Err(e),
        }
    }
}

} // verus!
