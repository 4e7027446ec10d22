//! Byte-level framing: a frame is `start | length_hi | length_lo | payload |
//! checksum`, where the checksum byte is `0xFF` minus the wrapping sum of the
//! payload bytes, and the length is the big-endian 16-bit payload length.

use vstd::prelude::*;
use vstd::slice::{slice_index_get, slice_subrange};
use crate::Addr;
use vstd::arithmetic::div_mod::{
    lemma_add_mod_noop, lemma_add_mod_noop_right, lemma_small_mod, lemma_fundamental_div_mod,
    lemma_mod_add_multiples_vanish, lemma_mod_sub_multiples_vanish,
};

verus! {

/// First byte of every frame.
pub const START: u8 = 0x7E;

/// Escape prefix, reserved by the protocol; escaped mode is not implemented.
pub const ESCAPE: u8 = 0x7D;

/// Software flow control byte, reserved for escaped mode.
pub const XON: u8 = 0x11;

/// Software flow control byte, reserved for escaped mode.
pub const XOFF: u8 = 0x13;

/// Why a payload could not be framed.
#[derive(Debug, PartialEq, Eq, Structural)]
pub enum ApiPackError {
    /// The payload was empty.
    TooShort,
    /// The payload was longer than 65535 bytes, the most the length field can say.
    TooLong,
}

/// Why a buffer could not be unpacked into a frame.
#[derive(Copy, Clone, Debug, PartialEq, Eq, Structural)]
pub enum ApiUnpackError {
    /// The buffer is empty or does not begin with the start marker.
    NoStart,
    /// The buffer is shorter than the frame it declares; carries the whole
    /// frame's size in bytes, so the caller knows how much to wait for.
    BadLength(usize),
    /// The checksum byte does not match the payload; carries the computed
    /// wrapping sum of the payload bytes.
    BadChecksum(u8),
}

/// Wrapping sum of a byte sequence, reduced modulo 256.
pub open spec fn sum_mod(s: Seq<u8>) -> u8
    decreases s.len(),
{
    if s.len() == 0 {
        0u8
    } else {
        ((sum_mod(s.drop_last()) + s.last()) % 256) as u8
    }
}

/// The checksum byte written at the end of a frame holding `payload`.
pub open spec fn checksum_byte(payload: Seq<u8>) -> u8 {
    (255 - sum_mod(payload)) as u8
}

/// The full framed byte sequence for `payload`: start marker, big-endian
/// length, the payload itself, and the checksum byte.
pub open spec fn frame_bytes(payload: Seq<u8>) -> Seq<u8> {
    seq![START, (payload.len() / 256) as u8, (payload.len() % 256) as u8] + payload
        + seq![checksum_byte(payload)]
}

/// Payload length a buffer declares in its big-endian length field.
pub open spec fn declared_len(buf: Seq<u8>) -> int {
    buf[1] * 256 + buf[2]
}

/// What unpacking a buffer yields: the leading frame's payload and the
/// unconsumed remainder, or the error telling the caller how to resync.
/// A buffer that starts with the marker but is too short to hold even the
/// length field reports `BadLength(4)`, the least any frame occupies.
pub open spec fn unpack_spec(buf: Seq<u8>) -> Result<(Seq<u8>, Seq<u8>), ApiUnpackError> {
    if buf.len() == 0 || buf[0] != START {
        Err(ApiUnpackError::NoStart)
    } else if buf.len() < 3 {
        Err(ApiUnpackError::BadLength(4))
    } else if declared_len(buf) + 1 > buf.len() - 3 {
        Err(ApiUnpackError::BadLength((3 + declared_len(buf) + 1) as usize))
    } else {
        let data = buf.subrange(3, 3 + declared_len(buf));
        let checksum = buf[3 + declared_len(buf)];
        let rem = buf.subrange(4 + declared_len(buf), buf.len() as int);
        if (checksum + sum_mod(data)) % 256 == 255 {
            Ok((data, rem))
        } else {
            Err(ApiUnpackError::BadChecksum(sum_mod(data)))
        }
    }
}

/// Returns the payload of the one frame at the head of `buf` and whatever
/// follows it, so back-to-back frames can be scanned; parses only that one
/// leading frame. Escaped and encrypted modes are not implemented.
pub fn unpack_frame(buf: &[u8], escaped: bool, _encryption: bool) -> (r: Result<
    (&[u8], &[u8]),
    ApiUnpackError,
>)
    requires
        !escaped,
    ensures
        r matches Ok(p) ==> unpack_spec(buf@) == Ok::<_, ApiUnpackError>((p.0@, p.1@)),
        r matches Err(e) ==> unpack_spec(buf@) == Err::<(Seq<u8>, Seq<u8>), _>(e),
{
    if buf.len() == 0 {
        return Err(ApiUnpackError::NoStart);
    }
    if *slice_index_get(buf, 0) != START {
        return Err(ApiUnpackError::NoStart);
    }
    if buf.len() < 3 {
        return Err(ApiUnpackError::BadLength(4));
    }
    let len: usize = (*slice_index_get(buf, 1) as usize) * 256 + (*slice_index_get(buf, 2)
        as usize);
    if len + 1 > buf.len() - 3 {
        return Err(ApiUnpackError::BadLength(3 + len + 1));
    }
    let data = slice_subrange(buf, 3, 3 + len);
    let checksum = *slice_index_get(buf, 3 + len);
    let rem = slice_subrange(buf, 4 + len, buf.len());
    let mut check: u8 = 0;
    let mut i: usize = 0;
    while i < data.len()
        invariant
            i <= data.len(),
            check == sum_mod(data@.take(i as int)),
        decreases data.len() - i,
    {
        proof {
            assert(data@.take(i + 1).drop_last() =~= data@.take(i as int));
        }
        check = check.wrapping_add(*slice_index_get(data, i));
        i += 1;
    }
    proof {
        assert(data@.take(data@.len() as int) =~= data@);
    }
    if checksum.wrapping_add(check) == 0xFF {
        Ok((data, rem))
    } else {
        Err(ApiUnpackError::BadChecksum(check))
    }
}

/// A finite byte producer whose exact remaining length is known up front:
/// the shape the frame packer needs, since the length field is emitted
/// before any payload byte.
pub trait ByteSource {
    /// Internal consistency of the source; constructors establish it and
    /// `next` keeps it.
    spec fn wf(&self) -> bool;

    /// The bytes this source will still yield, in order.
    spec fn remaining(&self) -> Seq<u8>;

    /// Exact number of bytes still to come.
    fn len(&self) -> (n: usize)
        requires
            self.wf(),
            self.remaining().len() <= usize::MAX,
        ensures
            n == self.remaining().len(),
    ;

    /// Yields the next byte, or `None` once exhausted.
    fn next(&mut self) -> (r: Option<u8>)
        requires
            old(self).wf(),
        ensures
            final (self).wf(),
            old(self).remaining().len() == 0 ==> r is None && final (self).remaining()
                == old(self).remaining(),
            old(self).remaining().len() > 0 ==> r == Some(old(self).remaining()[0]) && final (
            self).remaining() == old(self).remaining().skip(1),
    ;
}

/// Byte source reading a borrowed slice front to back.
pub struct SliceSource<'a> {
    data: &'a [u8],
    pos: usize,
}

impl<'a> SliceSource<'a> {
    pub fn new(data: &'a [u8]) -> (r: SliceSource<'a>)
        ensures
            r.wf(),
            r.remaining() == data@,
    {
        let r = SliceSource { data, pos: 0 };
        proof {
            assert(r.remaining() =~= data@);
        }
        r
    }
}

impl<'a> ByteSource for SliceSource<'a> {
    closed spec fn wf(&self) -> bool {
        self.pos <= self.data@.len()
    }

    closed spec fn remaining(&self) -> Seq<u8> {
        if self.pos <= self.data@.len() {
            self.data@.skip(self.pos as int)
        } else {
            Seq::empty()
        }
    }

    fn len(&self) -> (n: usize) {
        if self.pos <= self.data.len() {
            self.data.len() - self.pos
        } else {
            0
        }
    }

    fn next(&mut self) -> (r: Option<u8>) {
        if self.pos < self.data.len() {
            let b = *slice_index_get(self.data, self.pos);
            self.pos = self.pos + 1;
            proof {
                assert(self.remaining() =~= old(self).remaining().skip(1));
            }
            Some(b)
        } else {
            None
        }
    }
}

enum FramePackingState {
    Start,
    LenH,
    LenL,
    Data,
    Done,
}

/// Lazily emits the framed byte sequence for a payload source, one byte per
/// call: the start marker, the big-endian length, the payload, and finally
/// the checksum byte, accumulated by wrapping addition as the payload flows
/// through. Exhausted once done; not restartable. Escaped and encrypted
/// modes are reserved and not implemented.
pub struct FramePacker<I> {
    state: FramePackingState,
    escaped: bool,
    encrypted: bool,
    data: I,
    checksum: u8,
}

impl<I: ByteSource> FramePacker<I> {
    /// Checksum byte still owed, given the sum accumulated so far and the
    /// payload bytes not yet emitted.
    pub closed spec fn pending_checksum(&self) -> u8 {
        (255 - ((self.checksum + sum_mod(self.data.remaining())) % 256)) as u8
    }

    /// The bytes this packer will still emit.
    pub closed spec fn remaining(&self) -> Seq<u8> {
        match self.state {
            FramePackingState::Start => frame_bytes(self.data.remaining()),
            FramePackingState::LenH => frame_bytes(self.data.remaining()).skip(1),
            FramePackingState::LenL => frame_bytes(self.data.remaining()).skip(2),
            FramePackingState::Data => self.data.remaining() + seq![self.pending_checksum()],
            FramePackingState::Done => Seq::empty(),
        }
    }

    pub closed spec fn wf(&self) -> bool {
        self.data.wf() && match self.state {
            FramePackingState::Data => true,
            FramePackingState::Done => true,
            _ => self.checksum == 0 && 1 <= self.data.remaining().len() <= 65535,
        }
    }

    /// Builds a packer over `data`; the payload must hold between 1 and
    /// 65535 bytes, the range the length field can express.
    pub fn new(data: I, escaped: bool, encrypted: bool) -> (r: Result<FramePacker<I>, ApiPackError>)
        requires
            !escaped,
            !encrypted,
            data.wf(),
            data.remaining().len() <= usize::MAX,
        ensures
            data.remaining().len() == 0 ==> r == Err::<FramePacker<I>, _>(ApiPackError::TooShort),
            data.remaining().len() > 65535 ==> r == Err::<FramePacker<I>, _>(ApiPackError::TooLong),
            1 <= data.remaining().len() <= 65535 ==> (r matches Ok(p) && p.wf() && p.remaining()
                == frame_bytes(data.remaining())),
    {
        if data.len() == 0 {
            return Err(ApiPackError::TooShort);
        }
        if data.len() > 65535 {
            return Err(ApiPackError::TooLong);
        }
        Ok(
            FramePacker {
                state: FramePackingState::Start,
                escaped,
                encrypted,
                data,
                checksum: 0,
            },
        )
    }

    /// Emits the next frame byte, or `None` once the whole frame is out.
    #[verifier::rlimit(60)]
    pub fn next(&mut self) -> (r: Option<u8>)
        requires
            old(self).wf(),
        ensures
            final (self).wf(),
            old(self).remaining().len() == 0 ==> r is None && final (self).remaining() == old(
                self,
            ).remaining(),
            old(self).remaining().len() > 0 ==> r == Some(old(self).remaining()[0]) && final (
            self).remaining() == old(self).remaining().skip(1),
    {
        match self.state {
            FramePackingState::Start => {
                self.state = FramePackingState::LenH;
                proof {
                    assert(self.remaining() =~= old(self).remaining().skip(1));
                }
                Some(START)
            },
            FramePackingState::LenH => {
                self.state = FramePackingState::LenL;
                let n = self.data.len();
                proof {
                    assert(self.remaining() =~= old(self).remaining().skip(1));
                }
                Some((n / 256) as u8)
            },
            FramePackingState::LenL => {
                self.state = FramePackingState::Data;
                let n = self.data.len();
                proof {
                    lemma_small_mod(sum_mod(self.data.remaining()) as nat, 256);
                    assert(self.remaining() =~= old(self).remaining().skip(1));
                }
                Some((n % 256) as u8)
            },
            FramePackingState::Data => {
                let next = self.data.next();
                if let Some(val) = next {
                    proof {
                        let rest0 = old(self).data.remaining();
                        lemma_sum_mod_skip(rest0);
                        lemma_add_mod_noop(
                            val as int,
                            sum_mod(rest0.skip(1)) as int,
                            256,
                        );
                        lemma_small_mod(val as nat, 256);
                        lemma_small_mod(sum_mod(rest0.skip(1)) as nat, 256);
                        lemma_add_mod_noop(
                            self.checksum as int + val as int,
                            sum_mod(rest0.skip(1)) as int,
                            256,
                        );
                        lemma_add_mod_noop(
                            self.checksum as int,
                            sum_mod(rest0) as int,
                            256,
                        );
                        lemma_small_mod(self.checksum as nat, 256);
                    }
                    self.checksum = self.checksum.wrapping_add(val);
                    proof {
                        assert(self.remaining() =~= old(self).remaining().skip(1));
                    }
                    Some(val)
                } else {
                    self.state = FramePackingState::Done;
                    proof {
                        lemma_small_mod(self.checksum as nat, 256);
                        assert(old(self).remaining() =~= seq![old(self).pending_checksum()]);
                    }
                    Some(0xFF - self.checksum)
                }
            },
            FramePackingState::Done => None,
        }
    }
}

/// Round trip: unpacking the framed form of any payload the packer accepts
/// gives back exactly that payload, with nothing left over.
pub proof fn lemma_pack_unpack_round_trip(payload: Seq<u8>)
    requires
        1 <= payload.len() <= 65535,
    ensures
        unpack_spec(frame_bytes(payload)) == Ok::<(Seq<u8>, Seq<u8>), ApiUnpackError>(
            (payload, Seq::<u8>::empty()),
        ),
{
    lemma_unpack_leading_frame(payload, Seq::<u8>::empty());
    assert(frame_bytes(payload) + Seq::<u8>::empty() =~= frame_bytes(payload));
}

/// Back-to-back scanning: unpacking a buffer that begins with the framed
/// form of a payload yields that payload and exactly the bytes that follow
/// the frame, whatever they are.
pub proof fn lemma_unpack_leading_frame(payload: Seq<u8>, rest: Seq<u8>)
    requires
        1 <= payload.len() <= 65535,
    ensures
        unpack_spec(frame_bytes(payload) + rest) == Ok::<(Seq<u8>, Seq<u8>), ApiUnpackError>(
            (payload, rest),
        ),
{
    let buf = frame_bytes(payload) + rest;
    let n = payload.len() as int;
    lemma_fundamental_div_mod(n, 256);
    assert(declared_len(buf) == n);
    assert(buf.subrange(3, 3 + n) =~= payload);
    assert(buf[3 + n] == checksum_byte(payload));
    assert(buf.subrange(4 + n, buf.len() as int) =~= rest);
    let s = sum_mod(payload) as int;
    lemma_small_mod(255, 256);
    assert((checksum_byte(payload) + s) % 256 == 255);
}

/// The wrapping sum changes by the difference of the one byte replaced,
/// modulo 256.
proof fn lemma_sum_mod_update(s: Seq<u8>, j: int, v: u8)
    requires
        0 <= j < s.len(),
    ensures
        sum_mod(s.update(j, v)) as int == (sum_mod(s) - s[j] + v) % 256,
    decreases s.len(),
{
    let d = sum_mod(s.drop_last()) as int;
    let last = s.last() as int;
    let b = s[j] as int;
    if j == s.len() - 1 {
        assert(s.update(j, v).drop_last() =~= s.drop_last());
        assert(s.update(j, v).last() == v);
        // both sides reduce to (d + v) % 256
        lemma_add_mod_noop_right(v as int - b, d + b, 256);
    } else {
        lemma_sum_mod_update(s.drop_last(), j, v);
        assert(s.update(j, v).drop_last() =~= s.drop_last().update(j, v));
        assert(s.update(j, v).last() == s.last());
        // sum of the update is ((d - b + v) % 256 + last) % 256, the goal's
        // right side is ((d + last) % 256 - b + v) % 256; both reduce to
        // (d + last - b + v) % 256
        lemma_add_mod_noop(d - b + v, last, 256);
        lemma_small_mod(last as nat, 256);
        lemma_add_mod_noop_right(v as int - b, d + last, 256);
    }
}

/// Checksum sensitivity: flipping any single bit of a frame's payload or of
/// its checksum byte (never the start marker or the length field, which sit
/// below index 3) makes unpacking fail with a checksum mismatch.
pub proof fn lemma_checksum_sensitivity(payload: Seq<u8>, i: int, k: u8)
    requires
        1 <= payload.len() <= 65535,
        3 <= i <= 3 + payload.len(),
        k < 8,
    ensures
        ({
            let frame = frame_bytes(payload);
            unpack_spec(frame.update(i, frame[i] ^ (1u8 << k))) matches Err(
                ApiUnpackError::BadChecksum(_),
            )
        }),
{
    let frame = frame_bytes(payload);
    let n = payload.len() as int;
    let old_byte = frame[i];
    let v = (old_byte ^ (1u8 << k)) as u8;
    assert(old_byte ^ (1u8 << k) != old_byte) by (bit_vector)
        requires
            k < 8,
    ;
    let corrupted = frame.update(i, v);
    lemma_fundamental_div_mod(n, 256);
    assert(declared_len(corrupted) == n);
    let s = sum_mod(payload) as int;
    if i < 3 + n {
        // a payload byte was flipped: the sum moves, the checksum byte stays
        let data = corrupted.subrange(3, 3 + n);
        assert(data =~= payload.update(i - 3, v));
        lemma_sum_mod_update(payload, i - 3, v);
        let s2 = sum_mod(data) as int;
        assert(s2 == (s - old_byte + v) % 256);
        lemma_mod256_window(s - old_byte + v);
        assert(s2 != s);
        assert(corrupted[3 + n] == checksum_byte(payload));
        // a moved sum cannot pass the check: (255 - s + s2) % 256 == 255
        // would force s2 == s
        lemma_mod256_window(255 - s + s2);
        assert((corrupted[3 + n] + s2) % 256 != 255);
    } else {
        // the checksum byte itself was flipped: the sum stays, the byte moved
        let data = corrupted.subrange(3, 3 + n);
        assert(data =~= payload);
        assert(corrupted[3 + n] == v);
        // (v + s) % 256 == 255 would force v back to the unflipped byte
        lemma_mod256_window(v + s);
        lemma_mod256_window(old_byte + s);
        assert((v + s) % 256 != 255);
    }
}

/// Spells out `x % 256` for the narrow window of values the checksum
/// arguments fall in.
proof fn lemma_mod256_window(x: int)
    requires
        -256 < x < 512,
    ensures
        x % 256 == if x < 0 {
            x + 256
        } else if x < 256 {
            x
        } else {
            x - 256
        },
{
    if x < 0 {
        lemma_mod_add_multiples_vanish(x, 256);
        lemma_small_mod((x + 256) as nat, 256);
    } else if x < 256 {
        lemma_small_mod(x as nat, 256);
    } else {
        lemma_mod_sub_multiples_vanish(x, 256);
        lemma_small_mod((x - 256) as nat, 256);
    }
}

/// The wrapping sum of a non-empty sequence is its first byte plus the
/// wrapping sum of the rest, modulo 256.
proof fn lemma_sum_mod_skip(s: Seq<u8>)
    requires
        s.len() > 0,
    ensures
        sum_mod(s) == ((s[0] + sum_mod(s.skip(1))) % 256) as u8,
    decreases s.len(),
{
    if s.len() == 1 {
        assert(s.skip(1) =~= Seq::<u8>::empty());
        assert(s.drop_last() =~= Seq::<u8>::empty());
        lemma_small_mod(s[0] as nat, 256);
        assert(sum_mod(s) == ((sum_mod(s.drop_last()) + s.last()) % 256) as u8);
    } else {
        lemma_sum_mod_skip(s.drop_last());
        assert(s.drop_last()[0] == s[0]);
        assert(s.skip(1).drop_last() =~= s.drop_last().skip(1));
        assert(s.skip(1).last() == s.last());
        // sum(s) = (sum(s.drop_last()) + last) % 256
        //        = (((s0 + sum(s.drop_last().skip(1))) % 256) + last) % 256
        //        = (s0 + (sum(s.skip(1).drop_last()) + last)) % 256
        //        = (s0 + sum(s.skip(1)) % ... ) juggled below
        let tail_mid = sum_mod(s.drop_last().skip(1)) as int;
        let last = s.last() as int;
        let s0 = s[0] as int;
        lemma_small_mod(last as nat, 256);
        lemma_add_mod_noop(s0 + tail_mid, last, 256);
        lemma_add_mod_noop(s0, tail_mid + last, 256);
        lemma_small_mod(s0 as nat, 256);
        lemma_add_mod_noop(tail_mid, last, 256);
        lemma_small_mod(sum_mod(s.skip(1)) as nat, 256);
    }
}

/// Transmit option: ask the peer not to acknowledge the frame.
pub const TX_OPT_DISABLE_ACK: u8 = 0x01;

/// Transmit option: broadcast to the whole network.
pub const TX_OPT_PAN_BROADCAST: u8 = 0x04;

/// All transmit option bits the protocol defines.
pub const TX_OPT_MASK: u8 = 0x05;

/// Bit set of options carried in an outbound data-transmission frame.
/// Unknown bits are truncated on decode, never rejected.
#[derive(Clone, Copy, Debug, PartialEq, Eq, Structural)]
pub struct TxOptions {
    pub bits: u8,
}

impl TxOptions {
    pub fn empty() -> (r: TxOptions)
        ensures
            r.bits == 0,
    {
        TxOptions { bits: 0 }
    }

    pub fn from_bits_truncate(bits: u8) -> (r: TxOptions)
        ensures
            r.bits == bits & TX_OPT_MASK,
    {
        TxOptions { bits: bits & TX_OPT_MASK }
    }

    pub fn bits(&self) -> (r: u8)
        ensures
            r == self.bits,
    {
        self.bits
    }

    pub fn contains(&self, other: TxOptions) -> (r: bool)
        ensures
            r == (self.bits & other.bits == other.bits),
    {
        self.bits & other.bits == other.bits
    }
}

/// Receive option: the frame was sent to the broadcast address.
pub const RX_OPT_ADDR_BROADCAST: u8 = 0x02;

/// Receive option: the frame was a network-wide broadcast.
pub const RX_OPT_PAN_BROADCAST: u8 = 0x04;

/// All receive option bits the protocol defines.
pub const RX_OPT_MASK: u8 = 0x06;

/// Bit set of options carried in an inbound data-reception frame.
/// Unknown bits are truncated on decode, never rejected.
#[derive(Clone, Copy, Debug, PartialEq, Eq, Structural)]
pub struct RxOptions {
    pub bits: u8,
}

impl RxOptions {
    pub fn empty() -> (r: RxOptions)
        ensures
            r.bits == 0,
    {
        RxOptions { bits: 0 }
    }

    pub fn from_bits_truncate(bits: u8) -> (r: RxOptions)
        ensures
            r.bits == bits & RX_OPT_MASK,
    {
        RxOptions { bits: bits & RX_OPT_MASK }
    }

    pub fn bits(&self) -> (r: u8)
        ensures
            r == self.bits,
    {
        self.bits
    }

    pub fn contains(&self, other: RxOptions) -> (r: bool)
        ensures
            r == (self.bits & other.bits == other.bits),
    {
        self.bits & other.bits == other.bits
    }
}

/// Indicator bit for analog channel 3 of an IO sample.
pub const CHANNEL_A3: u16 = 0b0001_0000_0000_0000;

/// Indicator bit for analog channel 2 of an IO sample.
pub const CHANNEL_A2: u16 = 0b0000_1000_0000_0000;

/// Indicator bit for analog channel 1 of an IO sample.
pub const CHANNEL_A1: u16 = 0b0000_0100_0000_0000;

/// Indicator bit for analog channel 0 of an IO sample.
pub const CHANNEL_A0: u16 = 0b0000_0010_0000_0000;

/// All nine digital channel indicator bits of an IO sample.
pub const CHANNEL_DIGITAL_MASK: u16 = 0b0000_0001_1111_1111;

/// All channel indicator bits the protocol defines: 9 digital and 4 analog;
/// the top 3 bits are reserved.
pub const CHANNEL_MASK: u16 = 0b0001_1111_1111_1111;

/// The 16-bit indicator of an IO-sample frame: a 9-bit digital mask and a
/// 4-bit analog mask saying which optional sample words follow. Unknown bits
/// are truncated on decode, never rejected.
#[derive(Clone, Copy, Debug, PartialEq, Eq, Structural)]
pub struct ChannelIndicator {
    pub bits: u16,
}

impl ChannelIndicator {
    pub fn empty() -> (r: ChannelIndicator)
        ensures
            r.bits == 0,
    {
        ChannelIndicator { bits: 0 }
    }

    pub fn from_bits_truncate(bits: u16) -> (r: ChannelIndicator)
        ensures
            r.bits == bits & CHANNEL_MASK,
    {
        ChannelIndicator { bits: bits & CHANNEL_MASK }
    }

    pub fn bits(&self) -> (r: u16)
        ensures
            r == self.bits,
    {
        self.bits
    }

    pub fn contains(&self, other: ChannelIndicator) -> (r: bool)
        ensures
            r == (self.bits & other.bits == other.bits),
    {
        self.bits & other.bits == other.bits
    }

    /// Whether any digital channel is sampled, so that a 16-bit digital word
    /// is present in the frame.
    pub fn contains_digital(&self) -> (r: bool)
        ensures
            r == (self.bits & CHANNEL_DIGITAL_MASK != 0),
    {
        self.bits & CHANNEL_DIGITAL_MASK != 0
    }
}

/// Status byte of a local AT command response: a closed enumeration with an
/// explicit fallback for unmapped values, so unknown statuses are carried,
/// never rejected.
#[derive(Debug, PartialEq, Eq, Structural)]
pub enum AtCommandStatus {
    Okay,
    Error,
    InvalidCommand,
    InvalidParam,
    NoResponse,
    Unknown,
}

/// Status byte of a transmit-status report; unmapped values decode to
/// `Unknown`, never to an error.
#[derive(Debug, PartialEq, Eq, Structural)]
pub enum TxStatus {
    Standard,
    NoAck,
    CcaFailure,
    TxPurged,
    NetworkAckFailure,
    NotConnected,
    InternalError,
    ResourceDepletion,
    PayloadTooLarge,
    Unknown,
}

/// Status byte of a modem-status report; unmapped values decode to
/// `Unknown`, never to an error.
#[derive(Debug, PartialEq, Eq, Structural)]
pub enum ModemStatus {
    HardwareReset,
    WatchdogReset,
    AssociatedCoordinator,
    DissociatedCoordinator,
    CoordinatorNewNetwork,
    InputVoltageTooHigh,
    Unknown,
}

/// How a transmit-status byte decodes.
pub open spec fn tx_status_spec(val: u8) -> TxStatus {
    match val {
        0x00 => TxStatus::Standard,
        0x01 => TxStatus::NoAck,
        0x02 => TxStatus::CcaFailure,
        0x03 => TxStatus::TxPurged,
        0x21 => TxStatus::NetworkAckFailure,
        0x22 => TxStatus::NotConnected,
        0x31 => TxStatus::InternalError,
        0x32 => TxStatus::ResourceDepletion,
        0x74 => TxStatus::PayloadTooLarge,
        _ => TxStatus::Unknown,
    }
}

impl TxStatus {
    /// Decodes a transmit-status byte; kept an inherent method so the
    /// conversion stays this module's own.
    pub fn from(val: u8) -> (r: TxStatus)
        ensures
            r == tx_status_spec(val),
    {
        match val {
            0x00 => TxStatus::Standard,
            0x01 => TxStatus::NoAck,
            0x02 => TxStatus::CcaFailure,
            0x03 => TxStatus::TxPurged,
            0x21 => TxStatus::NetworkAckFailure,
            0x22 => TxStatus::NotConnected,
            0x31 => TxStatus::InternalError,
            0x32 => TxStatus::ResourceDepletion,
            0x74 => TxStatus::PayloadTooLarge,
            _ => TxStatus::Unknown,
        }
    }
}

/// How a modem-status byte decodes.
pub open spec fn modem_status_spec(val: u8) -> ModemStatus {
    match val {
        0x00 => ModemStatus::HardwareReset,
        0x01 => ModemStatus::WatchdogReset,
        0x02 => ModemStatus::AssociatedCoordinator,
        0x03 => ModemStatus::DissociatedCoordinator,
        0x06 => ModemStatus::CoordinatorNewNetwork,
        0x0D => ModemStatus::InputVoltageTooHigh,
        _ => ModemStatus::Unknown,
    }
}

impl ModemStatus {
    /// Decodes a modem-status byte; kept an inherent method so the
    /// conversion stays this module's own.
    pub fn from(val: u8) -> (r: ModemStatus)
        ensures
            r == modem_status_spec(val),
    {
        match val {
            0x00 => ModemStatus::HardwareReset,
            0x01 => ModemStatus::WatchdogReset,
            0x02 => ModemStatus::AssociatedCoordinator,
            0x03 => ModemStatus::DissociatedCoordinator,
            0x06 => ModemStatus::CoordinatorNewNetwork,
            0x0D => ModemStatus::InputVoltageTooHigh,
            _ => ModemStatus::Unknown,
        }
    }
}

/// How the status byte of a local AT command response decodes; this frame
/// kind does not map the no-response code.
pub open spec fn at_status_local_spec(val: u8) -> AtCommandStatus {
    match val {
        0u8 => AtCommandStatus::Okay,
        1u8 => AtCommandStatus::Error,
        2u8 => AtCommandStatus::InvalidCommand,
        3u8 => AtCommandStatus::InvalidParam,
        _ => AtCommandStatus::Unknown,
    }
}

/// How the status byte of a remote AT command response decodes.
pub open spec fn at_status_remote_spec(val: u8) -> AtCommandStatus {
    match val {
        0u8 => AtCommandStatus::Okay,
        1u8 => AtCommandStatus::Error,
        2u8 => AtCommandStatus::InvalidCommand,
        3u8 => AtCommandStatus::InvalidParam,
        4u8 => AtCommandStatus::NoResponse,
        _ => AtCommandStatus::Unknown,
    }
}

/// Byte at offset `shift` (in bits, from the least-significant end) of a wide
/// integer, as the wire carries it.
pub open spec fn addr_byte(addr: u64, shift: u64) -> u8 {
    ((addr >> shift) & 0xFF) as u8
}

/// The bytes of an address emitted most-significant first, starting at bit
/// offset `shift` and stepping down by 8 to the lowest byte.
pub open spec fn addr_bytes(addr: u64, shift: u64) -> Seq<u8> {
    Seq::new((shift / 8 + 1) as nat, |i: int| addr_byte(addr, (shift - 8 * i) as u64))
}

/// The payload of a data-transmission request: type code picked by the
/// address width, frame id, address most-significant byte first, options
/// byte, then the caller's data verbatim.
pub open spec fn tx_request_bytes(
    frame_id: u8,
    addr: Addr,
    options: TxOptions,
    data: Seq<u8>,
) -> Seq<u8> {
    match addr {
        Addr::Long(a) => seq![0x00u8, frame_id] + addr_bytes(a, 56) + seq![options.bits] + data,
        Addr::Short(a) => seq![0x01u8, frame_id] + addr_bytes(a as u64, 8) + seq![options.bits]
            + data,
    }
}

enum TxRequestState {
    FrameType,
    FrameId,
    Addr,
    Options,
    Data,
}

/// Lazily emits the payload of a data-transmission request, one byte per
/// call, and knows its exact remaining length at every state — the shape the
/// frame packer needs.
pub struct TxRequestIter<I> {
    state: TxRequestState,
    frame_id: u8,
    addr: u64,
    addr_shift: u8,
    options: TxOptions,
    data: I,
}

impl<I: ByteSource> TxRequestIter<I> {
    /// Builds the emitter; `addr` picks both the type code and how many
    /// address bytes the payload carries.
    pub fn new(frame_id: u8, addr: Addr, options: TxOptions, data: I) -> (r: TxRequestIter<I>)
        requires
            data.wf(),
        ensures
            r.wf(),
            r.remaining() == tx_request_bytes(frame_id, addr, options, data.remaining()),
    {
        let (addr_val, addr_shift): (u64, u8) = match addr {
            Addr::Long(a) => (a, 56),
            Addr::Short(a) => (a as u64, 8),
        };
        let r = TxRequestIter {
            state: TxRequestState::FrameType,
            frame_id,
            addr: addr_val,
            addr_shift,
            options,
            data,
        };
        proof {
            assert(r.remaining() =~= tx_request_bytes(frame_id, addr, options, data.remaining()));
        }
        r
    }
}

impl<I: ByteSource> ByteSource for TxRequestIter<I> {
    closed spec fn wf(&self) -> bool {
        self.data.wf() && self.addr_shift <= 56 && self.addr_shift % 8 == 0 && (self.state matches
        TxRequestState::FrameType ==> self.addr_shift == 56 || self.addr_shift == 8)
    }

    closed spec fn remaining(&self) -> Seq<u8> {
        match self.state {
            TxRequestState::FrameType => seq![
                if self.addr_shift == 56 {
                    0x00u8
                } else {
                    0x01u8
                },
                self.frame_id,
            ] + addr_bytes(self.addr, self.addr_shift as u64) + seq![self.options.bits]
                + self.data.remaining(),
            TxRequestState::FrameId => seq![self.frame_id] + addr_bytes(
                self.addr,
                self.addr_shift as u64,
            ) + seq![self.options.bits] + self.data.remaining(),
            TxRequestState::Addr => addr_bytes(self.addr, self.addr_shift as u64) + seq![
                self.options.bits,
            ] + self.data.remaining(),
            TxRequestState::Options => seq![self.options.bits] + self.data.remaining(),
            TxRequestState::Data => self.data.remaining(),
        }
    }

    fn len(&self) -> (n: usize) {
        let addr_len: usize = (self.addr_shift as usize) / 8 + 1;
        match self.state {
            TxRequestState::FrameType => 2 + addr_len + 1 + self.data.len(),
            TxRequestState::FrameId => 1 + addr_len + 1 + self.data.len(),
            TxRequestState::Addr => addr_len + 1 + self.data.len(),
            TxRequestState::Options => 1 + self.data.len(),
            TxRequestState::Data => self.data.len(),
        }
    }

    fn next(&mut self) -> (r: Option<u8>) {
        match self.state {
            TxRequestState::FrameType => {
                self.state = TxRequestState::FrameId;
                let b = if self.addr_shift == 56 {
                    0x00u8
                } else {
                    0x01u8
                };
                proof {
                    assert(self.remaining() =~= old(self).remaining().skip(1));
                }
                Some(b)
            },
            TxRequestState::FrameId => {
                self.state = TxRequestState::Addr;
                proof {
                    assert(self.remaining() =~= old(self).remaining().skip(1));
                }
                Some(self.frame_id)
            },
            TxRequestState::Addr => {
                let val = ((self.addr >> (self.addr_shift as u64)) & 0xFF) as u8;
                if self.addr_shift == 0 {
                    self.state = TxRequestState::Options;
                } else {
                    self.addr_shift = self.addr_shift - 8;
                }
                proof {
                    assert(self.remaining() =~= old(self).remaining().skip(1));
                }
                Some(val)
            },
            TxRequestState::Options => {
                self.state = TxRequestState::Data;
                proof {
                    assert(self.remaining() =~= old(self).remaining().skip(1));
                }
                Some(self.options.bits)
            },
            TxRequestState::Data => self.data.next(),
        }
    }
}

/// Big-endian 16-bit field starting at index `i`.
pub open spec fn be16s(s: Seq<u8>, i: int) -> u16 {
    (s[i] * 256 + s[i + 1]) as u16
}

/// Big-endian 64-bit field starting at index `i`.
pub open spec fn be64s(s: Seq<u8>, i: int) -> u64 {
    (s[i] * 0x100000000000000 + s[i + 1] * 0x1000000000000 + s[i + 2] * 0x10000000000 + s[i + 3]
        * 0x100000000 + s[i + 4] * 0x1000000 + s[i + 5] * 0x10000 + s[i + 6] * 0x100 + s[i
        + 7]) as u64
}

/// A decoded frame payload: one of the thirteen kinds the protocol defines,
/// each a non-owning view into the buffer it was parsed from. The caller's
/// buffer must outlive every use of the trailing-data slices.
#[derive(Debug, PartialEq)]
pub enum ApiData<'a> {
    /// Outbound: data-transmission request to a 64-bit hardware address.
    TxRequest64Addr { frame_id: u8, dest_addr: u64, options: TxOptions, data: &'a [u8] },
    /// Outbound: data-transmission request to a 16-bit network address.
    TxRequest16Addr { frame_id: u8, dest_addr: u16, options: TxOptions, data: &'a [u8] },
    /// Outbound: local AT configuration command, applied at once.
    AtCommand { frame_id: u8, at_cmd: [u8; 2], params: &'a [u8] },
    /// Outbound: local AT configuration command with a queued parameter.
    AtCommandQueueParam { frame_id: u8, at_cmd: [u8; 2], params: &'a [u8] },
    /// Outbound: AT command addressed to a remote module.
    RemoteAtCommand {
        frame_id: u8,
        dest_addr_64: u64,
        dest_addr_16: u16,
        at_cmd: [u8; 2],
        params: &'a [u8],
    },
    /// Inbound: data received from a 64-bit hardware address.
    RxPacket64Addr { source_addr: u64, rssi: u8, options: RxOptions, data: &'a [u8] },
    /// Inbound: data received from a 16-bit network address.
    RxPacket16Addr { source_addr: u16, rssi: u8, options: RxOptions, data: &'a [u8] },
    /// Inbound: IO sample from a 64-bit hardware address; each optional word
    /// is present exactly when its indicator bit is set.
    RxPacketIo64Addr {
        source_addr: u64,
        rssi: u8,
        options: RxOptions,
        samples: u8,
        channel_indicator: ChannelIndicator,
        digital_samples: Option<u16>,
        analog_samples: [Option<u16>; 4],
    },
    /// Inbound: IO sample from a 16-bit network address.
    RxPacketIo16Addr {
        source_addr: u16,
        rssi: u8,
        options: RxOptions,
        samples: u8,
        channel_indicator: ChannelIndicator,
        digital_samples: Option<u16>,
        analog_samples: [Option<u16>; 4],
    },
    /// Inbound: response to a local AT command.
    AtCommandResponse { frame_id: u8, at_cmd: [u8; 2], status: AtCommandStatus, data: &'a [u8] },
    /// Inbound: transmit-status report for an earlier request.
    TxStatus { frame_id: u8, status: TxStatus },
    /// Inbound: unsolicited modem-status report.
    ModemStatus { status: ModemStatus },
    /// Inbound: response to a remote AT command.
    RemoteAtCommandResponse {
        frame_id: u8,
        source_addr_64: u64,
        source_addr_16: u16,
        at_cmd: [u8; 2],
        status: AtCommandStatus,
        data: &'a [u8],
    },
}

/// Mathematical form of a decoded payload: the same thirteen kinds with the
/// borrowed slices abstracted to byte sequences.
pub enum ApiDataView {
    TxRequest64Addr { frame_id: u8, dest_addr: u64, options: TxOptions, data: Seq<u8> },
    TxRequest16Addr { frame_id: u8, dest_addr: u16, options: TxOptions, data: Seq<u8> },
    AtCommand { frame_id: u8, at_cmd: Seq<u8>, params: Seq<u8> },
    AtCommandQueueParam { frame_id: u8, at_cmd: Seq<u8>, params: Seq<u8> },
    RemoteAtCommand {
        frame_id: u8,
        dest_addr_64: u64,
        dest_addr_16: u16,
        at_cmd: Seq<u8>,
        params: Seq<u8>,
    },
    RxPacket64Addr { source_addr: u64, rssi: u8, options: RxOptions, data: Seq<u8> },
    RxPacket16Addr { source_addr: u16, rssi: u8, options: RxOptions, data: Seq<u8> },
    RxPacketIo64Addr {
        source_addr: u64,
        rssi: u8,
        options: RxOptions,
        samples: u8,
        channel_indicator: ChannelIndicator,
        digital_samples: Option<u16>,
        analog_samples: Seq<Option<u16>>,
    },
    RxPacketIo16Addr {
        source_addr: u16,
        rssi: u8,
        options: RxOptions,
        samples: u8,
        channel_indicator: ChannelIndicator,
        digital_samples: Option<u16>,
        analog_samples: Seq<Option<u16>>,
    },
    AtCommandResponse { frame_id: u8, at_cmd: Seq<u8>, status: AtCommandStatus, data: Seq<u8> },
    TxStatus { frame_id: u8, status: TxStatus },
    ModemStatus { status: ModemStatus },
    RemoteAtCommandResponse {
        frame_id: u8,
        source_addr_64: u64,
        source_addr_16: u16,
        at_cmd: Seq<u8>,
        status: AtCommandStatus,
        data: Seq<u8>,
    },
}

impl<'a> View for ApiData<'a> {
    type V = ApiDataView;

    open spec fn view(&self) -> ApiDataView {
        match *self {
            ApiData::TxRequest64Addr { frame_id, dest_addr, options, data } => {
                ApiDataView::TxRequest64Addr { frame_id, dest_addr, options, data: data@ }
            },
            ApiData::TxRequest16Addr { frame_id, dest_addr, options, data } => {
                ApiDataView::TxRequest16Addr { frame_id, dest_addr, options, data: data@ }
            },
            ApiData::AtCommand { frame_id, at_cmd, params } => {
                ApiDataView::AtCommand { frame_id, at_cmd: at_cmd@, params: params@ }
            },
            ApiData::AtCommandQueueParam { frame_id, at_cmd, params } => {
                ApiDataView::AtCommandQueueParam { frame_id, at_cmd: at_cmd@, params: params@ }
            },
            ApiData::RemoteAtCommand { frame_id, dest_addr_64, dest_addr_16, at_cmd, params } => {
                ApiDataView::RemoteAtCommand {
                    frame_id,
                    dest_addr_64,
                    dest_addr_16,
                    at_cmd: at_cmd@,
                    params: params@,
                }
            },
            ApiData::RxPacket64Addr { source_addr, rssi, options, data } => {
                ApiDataView::RxPacket64Addr { source_addr, rssi, options, data: data@ }
            },
            ApiData::RxPacket16Addr { source_addr, rssi, options, data } => {
                ApiDataView::RxPacket16Addr { source_addr, rssi, options, data: data@ }
            },
            ApiData::RxPacketIo64Addr {
                source_addr,
                rssi,
                options,
                samples,
                channel_indicator,
                digital_samples,
                analog_samples,
            } => {
                ApiDataView::RxPacketIo64Addr {
                    source_addr,
                    rssi,
                    options,
                    samples,
                    channel_indicator,
                    digital_samples,
                    analog_samples: analog_samples@,
                }
            },
            ApiData::RxPacketIo16Addr {
                source_addr,
                rssi,
                options,
                samples,
                channel_indicator,
                digital_samples,
                analog_samples,
            } => {
                ApiDataView::RxPacketIo16Addr {
                    source_addr,
                    rssi,
                    options,
                    samples,
                    channel_indicator,
                    digital_samples,
                    analog_samples: analog_samples@,
                }
            },
            ApiData::AtCommandResponse { frame_id, at_cmd, status, data } => {
                ApiDataView::AtCommandResponse { frame_id, at_cmd: at_cmd@, status, data: data@ }
            },
            ApiData::TxStatus { frame_id, status } => {
                ApiDataView::TxStatus { frame_id, status }
            },
            ApiData::ModemStatus { status } => ApiDataView::ModemStatus { status },
            ApiData::RemoteAtCommandResponse {
                frame_id,
                source_addr_64,
                source_addr_16,
                at_cmd,
                status,
                data,
            } => {
                ApiDataView::RemoteAtCommandResponse {
                    frame_id,
                    source_addr_64,
                    source_addr_16,
                    at_cmd: at_cmd@,
                    status,
                    data: data@,
                }
            },
        }
    }
}

/// Type code the wire uses for each payload kind.
pub open spec fn frame_type_of(d: ApiDataView) -> u8 {
    match d {
        ApiDataView::TxRequest64Addr { .. } => 0x00,
        ApiDataView::TxRequest16Addr { .. } => 0x01,
        ApiDataView::AtCommand { .. } => 0x08,
        ApiDataView::AtCommandQueueParam { .. } => 0x09,
        ApiDataView::RemoteAtCommand { .. } => 0x17,
        ApiDataView::RxPacket64Addr { .. } => 0x80,
        ApiDataView::RxPacket16Addr { .. } => 0x81,
        ApiDataView::RxPacketIo64Addr { .. } => 0x82,
        ApiDataView::RxPacketIo16Addr { .. } => 0x83,
        ApiDataView::AtCommandResponse { .. } => 0x88,
        ApiDataView::TxStatus { .. } => 0x89,
        ApiDataView::ModemStatus { .. } => 0x8A,
        ApiDataView::RemoteAtCommandResponse { .. } => 0x97,
    }
}

/// Offset of analog sample word `k` within an IO-sample payload whose
/// conditional fields start at `o`: the digital word, when present, comes
/// first, then the analog words for set indicator bits in channel order.
pub open spec fn io_analog_off(ind: u16, o: int, k: int) -> int {
    o + (if ind & CHANNEL_DIGITAL_MASK != 0 {
        2int
    } else {
        0int
    }) + (if k > 0 && ind & CHANNEL_A0 != 0 {
        2int
    } else {
        0int
    }) + (if k > 1 && ind & CHANNEL_A1 != 0 {
        2int
    } else {
        0int
    }) + (if k > 2 && ind & CHANNEL_A2 != 0 {
        2int
    } else {
        0int
    }) + (if k > 3 && ind & CHANNEL_A3 != 0 {
        2int
    } else {
        0int
    })
}

/// Total payload length an IO-sample frame needs for the conditional fields
/// its indicator announces.
pub open spec fn io_required_len(ind: u16, o: int) -> int {
    io_analog_off(ind, o, 4)
}

/// The digital sample word, present exactly when a digital bit is set.
pub open spec fn io_digital(data: Seq<u8>, ind: u16, o: int) -> Option<u16> {
    if ind & CHANNEL_DIGITAL_MASK != 0 {
        Some(be16s(data, o))
    } else {
        None
    }
}

/// Indicator bit of analog channel `k`.
pub open spec fn analog_bit(k: int) -> u16 {
    if k == 0 {
        CHANNEL_A0
    } else if k == 1 {
        CHANNEL_A1
    } else if k == 2 {
        CHANNEL_A2
    } else {
        CHANNEL_A3
    }
}

/// Analog sample word `k`, present exactly when its indicator bit is set.
pub open spec fn io_analog(data: Seq<u8>, ind: u16, o: int, k: int) -> Option<u16> {
    if ind & analog_bit(k) != 0 {
        Some(be16s(data, io_analog_off(ind, o, k)))
    } else {
        None
    }
}

/// The conditional fields of an IO-sample payload in mathematical form.
pub open spec fn io_samples(data: Seq<u8>, ind: u16, o: int) -> (Option<u16>, Seq<Option<u16>>) {
    (
        io_digital(data, ind, o),
        seq![
            io_analog(data, ind, o, 0),
            io_analog(data, ind, o, 1),
            io_analog(data, ind, o, 2),
            io_analog(data, ind, o, 3),
        ],
    )
}

/// The grammar of frame payloads: how a payload decodes, dispatching on the
/// leading type byte with a minimum-length guard per kind. A too-short
/// payload for a recognized type and an unrecognized type both fail with the
/// one generic failure.
pub open spec fn parse_spec(data: Seq<u8>) -> Result<ApiDataView, ()> {
    if data.len() == 0 {
        Err(())
    } else if data[0] == 0x00 {
        if data.len() > 10 {
            Ok(
                ApiDataView::TxRequest64Addr {
                    frame_id: data[1],
                    dest_addr: be64s(data, 2),
                    options: TxOptions { bits: data[10] & TX_OPT_MASK },
                    data: data.skip(11),
                },
            )
        } else {
            Err(())
        }
    } else if data[0] == 0x01 {
        if data.len() > 4 {
            Ok(
                ApiDataView::TxRequest16Addr {
                    frame_id: data[1],
                    dest_addr: be16s(data, 2),
                    options: TxOptions { bits: data[4] & TX_OPT_MASK },
                    data: data.skip(5),
                },
            )
        } else {
            Err(())
        }
    } else if data[0] == 0x08 {
        if data.len() > 3 {
            Ok(
                ApiDataView::AtCommand {
                    frame_id: data[1],
                    at_cmd: seq![data[2], data[3]],
                    params: data.skip(4),
                },
            )
        } else {
            Err(())
        }
    } else if data[0] == 0x09 {
        if data.len() > 3 {
            Ok(
                ApiDataView::AtCommandQueueParam {
                    frame_id: data[1],
                    at_cmd: seq![data[2], data[3]],
                    params: data.skip(4),
                },
            )
        } else {
            Err(())
        }
    } else if data[0] == 0x17 {
        if data.len() > 13 {
            Ok(
                ApiDataView::RemoteAtCommand {
                    frame_id: data[1],
                    dest_addr_64: be64s(data, 2),
                    dest_addr_16: be16s(data, 10),
                    at_cmd: seq![data[12], data[13]],
                    params: data.skip(14),
                },
            )
        } else {
            Err(())
        }
    } else if data[0] == 0x80 {
        if data.len() > 10 {
            Ok(
                ApiDataView::RxPacket64Addr {
                    source_addr: be64s(data, 1),
                    rssi: data[9],
                    options: RxOptions { bits: data[10] & RX_OPT_MASK },
                    data: data.skip(11),
                },
            )
        } else {
            Err(())
        }
    } else if data[0] == 0x81 {
        if data.len() > 4 {
            Ok(
                ApiDataView::RxPacket16Addr {
                    source_addr: be16s(data, 1),
                    rssi: data[3],
                    options: RxOptions { bits: data[4] & RX_OPT_MASK },
                    data: data.skip(5),
                },
            )
        } else {
            Err(())
        }
    } else if data[0] == 0x82 {
        if data.len() > 13 {
            let ind = be16s(data, 12) & CHANNEL_MASK;
            if io_required_len(ind, 14) <= data.len() {
                Ok(
                    ApiDataView::RxPacketIo64Addr {
                        source_addr: be64s(data, 1),
                        rssi: data[9],
                        options: RxOptions { bits: data[10] & RX_OPT_MASK },
                        samples: data[11],
                        channel_indicator: ChannelIndicator { bits: ind },
                        digital_samples: io_samples(data, ind, 14).0,
                        analog_samples: io_samples(data, ind, 14).1,
                    },
                )
            } else {
                Err(())
            }
        } else {
            Err(())
        }
    } else if data[0] == 0x83 {
        if data.len() > 7 {
            let ind = be16s(data, 6) & CHANNEL_MASK;
            if io_required_len(ind, 8) <= data.len() {
                Ok(
                    ApiDataView::RxPacketIo16Addr {
                        source_addr: be16s(data, 1),
                        rssi: data[3],
                        options: RxOptions { bits: data[4] & RX_OPT_MASK },
                        samples: data[5],
                        channel_indicator: ChannelIndicator { bits: ind },
                        digital_samples: io_samples(data, ind, 8).0,
                        analog_samples: io_samples(data, ind, 8).1,
                    },
                )
            } else {
                Err(())
            }
        } else {
            Err(())
        }
    } else if data[0] == 0x88 {
        if data.len() > 4 {
            Ok(
                ApiDataView::AtCommandResponse {
                    frame_id: data[1],
                    at_cmd: seq![data[2], data[3]],
                    status: at_status_local_spec(data[4]),
                    data: data.skip(5),
                },
            )
        } else {
            Err(())
        }
    } else if data[0] == 0x89 {
        if data.len() == 3 {
            Ok(ApiDataView::TxStatus { frame_id: data[1], status: tx_status_spec(data[2]) })
        } else {
            Err(())
        }
    } else if data[0] == 0x8A {
        if data.len() == 2 {
            Ok(ApiDataView::ModemStatus { status: modem_status_spec(data[1]) })
        } else {
            Err(())
        }
    } else if data[0] == 0x97 {
        if data.len() > 14 {
            Ok(
                ApiDataView::RemoteAtCommandResponse {
                    frame_id: data[1],
                    source_addr_64: be64s(data, 2),
                    source_addr_16: be16s(data, 10),
                    at_cmd: seq![data[12], data[13]],
                    status: at_status_remote_spec(data[14]),
                    data: data.skip(15),
                },
            )
        } else {
            Err(())
        }
    } else {
        Err(())
    }
}

/// Reads a big-endian 16-bit field.
fn be16_at(data: &[u8], i: usize) -> (r: u16)
    requires
        i + 2 <= data.len(),
    ensures
        r == be16s(data@, i as int),
{
    (*slice_index_get(data, i) as u16) * 256 + (*slice_index_get(data, i + 1) as u16)
}

/// Reads a big-endian 64-bit field.
fn be64_at(data: &[u8], i: usize) -> (r: u64)
    requires
        i + 8 <= data.len(),
    ensures
        r == be64s(data@, i as int),
{
    (*slice_index_get(data, i) as u64) * 0x100000000000000 + (*slice_index_get(data, i + 1)
        as u64) * 0x1000000000000 + (*slice_index_get(data, i + 2) as u64) * 0x10000000000 + (
    *slice_index_get(data, i + 3) as u64) * 0x100000000 + (*slice_index_get(data, i + 4) as u64)
        * 0x1000000 + (*slice_index_get(data, i + 5) as u64) * 0x10000 + (*slice_index_get(
        data,
        i + 6,
    ) as u64) * 0x100 + (*slice_index_get(data, i + 7) as u64)
}

/// Reads the conditional fields of an IO-sample payload, whose indicator is
/// `ci` and whose fixed fields end at `o`; `None` when the payload is too
/// short for the fields the indicator announces.
fn parse_io_fields(data: &[u8], ci: ChannelIndicator, o: usize) -> (r: Option<
    (Option<u16>, [Option<u16>; 4]),
>)
    requires
        o <= 100,
        o <= data.len(),
    ensures
        io_required_len(ci.bits, o as int) <= data@.len() ==> (r matches Some(p) && p.0
            == io_digital(data@, ci.bits, o as int) && p.1@ == io_samples(
            data@,
            ci.bits,
            o as int,
        ).1),
        io_required_len(ci.bits, o as int) > data@.len() ==> r is None,
{
    let mut pos: usize = o;
    let digital: Option<u16>;
    if ci.contains_digital() {
        if data.len() < pos + 2 {
            return None;
        }
        digital = Some(be16_at(data, pos));
        pos = pos + 2;
    } else {
        digital = None;
    }
    let analog0: Option<u16>;
    if ci.bits & CHANNEL_A0 != 0 {
        if data.len() < pos + 2 {
            return None;
        }
        analog0 = Some(be16_at(data, pos));
        pos = pos + 2;
    } else {
        analog0 = None;
    }
    let analog1: Option<u16>;
    if ci.bits & CHANNEL_A1 != 0 {
        if data.len() < pos + 2 {
            return None;
        }
        analog1 = Some(be16_at(data, pos));
        pos = pos + 2;
    } else {
        analog1 = None;
    }
    let analog2: Option<u16>;
    if ci.bits & CHANNEL_A2 != 0 {
        if data.len() < pos + 2 {
            return None;
        }
        analog2 = Some(be16_at(data, pos));
        pos = pos + 2;
    } else {
        analog2 = None;
    }
    let analog3: Option<u16>;
    if ci.bits & CHANNEL_A3 != 0 {
        if data.len() < pos + 2 {
            return None;
        }
        analog3 = Some(be16_at(data, pos));
        pos = pos + 2;
    } else {
        analog3 = None;
    }
    let analog = [analog0, analog1, analog2, analog3];
    proof {
        assert(analog@ =~= io_samples(data@, ci.bits, o as int).1);
    }
    Some((digital, analog))
}

impl<'a> ApiData<'a> {
    /// The type code this payload kind is tagged with on the wire.
    pub fn frame_type(&self) -> (r: u8)
        ensures
            r == frame_type_of(self@),
    {
        match *self {
            ApiData::TxRequest64Addr { .. } => 0x00,
            ApiData::TxRequest16Addr { .. } => 0x01,
            ApiData::AtCommand { .. } => 0x08,
            ApiData::AtCommandQueueParam { .. } => 0x09,
            ApiData::RemoteAtCommand { .. } => 0x17,
            ApiData::RxPacket64Addr { .. } => 0x80,
            ApiData::RxPacket16Addr { .. } => 0x81,
            ApiData::RxPacketIo64Addr { .. } => 0x82,
            ApiData::RxPacketIo16Addr { .. } => 0x83,
            ApiData::AtCommandResponse { .. } => 0x88,
            ApiData::TxStatus { .. } => 0x89,
            ApiData::ModemStatus { .. } => 0x8A,
            ApiData::RemoteAtCommandResponse { .. } => 0x97,
        }
    }

    /// Decodes one frame payload by the grammar: the leading type byte picks
    /// the kind, a minimum-length guard applies per kind, multi-byte fields
    /// are big-endian, and the trailing data is borrowed, not copied.
    pub fn parse<'b>(data: &'b [u8]) -> (r: Result<ApiData<'b>, ()>)
        ensures
            parse_spec(data@) matches Ok(m) ==> (r matches Ok(d) && d@ == m),
            parse_spec(data@) is Err ==> r is Err,
    {
        let len = data.len();
        if len == 0 {
            return Err(());
        }
        match *slice_index_get(data, 0) {
            0x00 => {
                if len > 10 {
                    Ok(
                        ApiData::TxRequest64Addr {
                            frame_id: *slice_index_get(data, 1),
                            dest_addr: be64_at(data, 2),
                            options: TxOptions::from_bits_truncate(*slice_index_get(data, 10)),
                            data: slice_subrange(data, 11, len),
                        },
                    )
                } else {
                    Err(())
                }
            },
            0x01 => {
                if len > 4 {
                    Ok(
                        ApiData::TxRequest16Addr {
                            frame_id: *slice_index_get(data, 1),
                            dest_addr: be16_at(data, 2),
                            options: TxOptions::from_bits_truncate(*slice_index_get(data, 4)),
                            data: slice_subrange(data, 5, len),
                        },
                    )
                } else {
                    Err(())
                }
            },
            0x08 => {
                if len > 3 {
                    Ok(
                        ApiData::AtCommand {
                            frame_id: *slice_index_get(data, 1),
                            at_cmd: [*slice_index_get(data, 2), *slice_index_get(data, 3)],
                            params: slice_subrange(data, 4, len),
                        },
                    )
                } else {
                    Err(())
                }
            },
            0x09 => {
                if len > 3 {
                    Ok(
                        ApiData::AtCommandQueueParam {
                            frame_id: *slice_index_get(data, 1),
                            at_cmd: [*slice_index_get(data, 2), *slice_index_get(data, 3)],
                            params: slice_subrange(data, 4, len),
                        },
                    )
                } else {
                    Err(())
                }
            },
            0x17 => {
                if len > 13 {
                    Ok(
                        ApiData::RemoteAtCommand {
                            frame_id: *slice_index_get(data, 1),
                            dest_addr_64: be64_at(data, 2),
                            dest_addr_16: be16_at(data, 10),
                            at_cmd: [*slice_index_get(data, 12), *slice_index_get(data, 13)],
                            params: slice_subrange(data, 14, len),
                        },
                    )
                } else {
                    Err(())
                }
            },
            0x80 => {
                if len > 10 {
                    Ok(
                        ApiData::RxPacket64Addr {
                            source_addr: be64_at(data, 1),
                            rssi: *slice_index_get(data, 9),
                            options: RxOptions::from_bits_truncate(*slice_index_get(data, 10)),
                            data: slice_subrange(data, 11, len),
                        },
                    )
                } else {
                    Err(())
                }
            },
            0x81 => {
                if len > 4 {
                    Ok(
                        ApiData::RxPacket16Addr {
                            source_addr: be16_at(data, 1),
                            rssi: *slice_index_get(data, 3),
                            options: RxOptions::from_bits_truncate(*slice_index_get(data, 4)),
                            data: slice_subrange(data, 5, len),
                        },
                    )
                } else {
                    Err(())
                }
            },
            0x82 => {
                if len > 13 {
                    let ci = ChannelIndicator::from_bits_truncate(be16_at(data, 12));
                    match parse_io_fields(data, ci, 14) {
                        Some((digital_samples, analog_samples)) => {
                            Ok(
                                ApiData::RxPacketIo64Addr {
                                    source_addr: be64_at(data, 1),
                                    rssi: *slice_index_get(data, 9),
                                    options: RxOptions::from_bits_truncate(
                                        *slice_index_get(data, 10),
                                    ),
                                    samples: *slice_index_get(data, 11),
                                    channel_indicator: ci,
                                    digital_samples,
                                    analog_samples,
                                },
                            )
                        },
                        None => Err(()),
                    }
                } else {
                    Err(())
                }
            },
            0x83 => {
                if len > 7 {
                    let ci = ChannelIndicator::from_bits_truncate(be16_at(data, 6));
                    match parse_io_fields(data, ci, 8) {
                        Some((digital_samples, analog_samples)) => {
                            Ok(
                                ApiData::RxPacketIo16Addr {
                                    source_addr: be16_at(data, 1),
                                    rssi: *slice_index_get(data, 3),
                                    options: RxOptions::from_bits_truncate(
                                        *slice_index_get(data, 4),
                                    ),
                                    samples: *slice_index_get(data, 5),
                                    channel_indicator: ci,
                                    digital_samples,
                                    analog_samples,
                                },
                            )
                        },
                        None => Err(()),
                    }
                } else {
                    Err(())
                }
            },
            0x88 => {
                if len > 4 {
                    let status = match *slice_index_get(data, 4) {
                        0 => AtCommandStatus::Okay,
                        1 => AtCommandStatus::Error,
                        2 => AtCommandStatus::InvalidCommand,
                        3 => AtCommandStatus::InvalidParam,
                        _ => AtCommandStatus::Unknown,
                    };
                    Ok(
                        ApiData::AtCommandResponse {
                            frame_id: *slice_index_get(data, 1),
                            at_cmd: [*slice_index_get(data, 2), *slice_index_get(data, 3)],
                            status,
                            data: slice_subrange(data, 5, len),
                        },
                    )
                } else {
                    Err(())
                }
            },
            0x89 => {
                if len == 3 {
                    Ok(
                        ApiData::TxStatus {
                            frame_id: *slice_index_get(data, 1),
                            status: TxStatus::from(*slice_index_get(data, 2)),
                        },
                    )
                } else {
                    Err(())
                }
            },
            0x8A => {
                if len == 2 {
                    Ok(ApiData::ModemStatus { status: ModemStatus::from(*slice_index_get(data, 1)) })
                } else {
                    Err(())
                }
            },
            0x97 => {
                if len > 14 {
                    let status = match *slice_index_get(data, 14) {
                        0 => AtCommandStatus::Okay,
                        1 => AtCommandStatus::Error,
                        2 => AtCommandStatus::InvalidCommand,
                        3 => AtCommandStatus::InvalidParam,
                        4 => AtCommandStatus::NoResponse,
                        _ => AtCommandStatus::Unknown,
                    };
                    Ok(
                        ApiData::RemoteAtCommandResponse {
                            frame_id: *slice_index_get(data, 1),
                            source_addr_64: be64_at(data, 2),
                            source_addr_16: be16_at(data, 10),
                            at_cmd: [*slice_index_get(data, 12), *slice_index_get(data, 13)],
                            status,
                            data: slice_subrange(data, 15, len),
                        },
                    )
                } else {
                    Err(())
                }
            },
            _ => Err(()),
        }
    }
}

} // verus!
