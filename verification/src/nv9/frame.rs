//! SSP packets: checksum, byte stuffing, and the reader that takes a reply off the wire.

use vstd::prelude::*;
use vstd::string::*;

use crate::models::{error_text, hardware, ErrorView, KioskError, KioskResult};
use crate::text::{hex2, hex4, hex_byte, hex_word};

verus! {

/// Start of a packet. Anywhere else in a packet the byte is doubled.
pub const SSP_STX: u8 = 0x7f;

/// How many bytes of line noise are skipped before a packet has to start.
pub const MAX_LEADING_NOISE_BYTES: usize = 64;

/// How many times a command is sent again after the first attempt.
pub const COMMAND_RETRIES: usize = 2;

/// How long reading one packet may take.
pub const FRAME_READ_TIMEOUT_MS: u64 = 2_000;

// ---------------------------------------------------------------------------
// Checksum
// ---------------------------------------------------------------------------

/// One bit of the checksum register, with the polynomial 0x8005, most significant bit first.
pub open spec fn crc_bit(crc: u16) -> u16 {
    if crc & 0x8000 != 0 {
        (crc << 1) ^ 0x8005
    } else {
        crc << 1
    }
}

/// `n` bits of the checksum register.
pub open spec fn crc_bits(crc: u16, n: nat) -> u16
    decreases n,
{
    if n == 0 {
        crc
    } else {
        crc_bit(crc_bits(crc, (n - 1) as nat))
    }
}

/// The checksum of a sequence of bytes, seeded with 0xFFFF.
pub open spec fn crc_of(bytes: Seq<u8>) -> u16
    decreases bytes.len(),
{
    if bytes.len() == 0 {
        0xffff
    } else {
        crc_bits(crc_of(bytes.drop_last()) ^ ((bytes.last() as u16) << 8), 8)
    }
}

proof fn lemma_shift_without_carry(x: u16)
    requires
        x <= 0x7fff,
    ensures
        crc_bit(x) == 2 * x,
{
    assert(x <= 0x7fff ==> x & 0x8000 == 0 && x << 1 == 2 * x) by (bit_vector);
}

/// A low byte in the register is only shifted up by the eight bits of a byte.
proof fn lemma_low_byte_shifts_up(low: u16)
    requires
        low <= 0xff,
    ensures
        crc_bits(low, 8) == 256 * low,
{
    reveal_with_fuel(crc_bits, 9);
    lemma_shift_without_carry(low);
    lemma_shift_without_carry((2 * low) as u16);
    lemma_shift_without_carry((4 * low) as u16);
    lemma_shift_without_carry((8 * low) as u16);
    lemma_shift_without_carry((16 * low) as u16);
    lemma_shift_without_carry((32 * low) as u16);
    lemma_shift_without_carry((64 * low) as u16);
    lemma_shift_without_carry((128 * low) as u16);
}

/// Bytes followed by their own checksum, high byte first, have the checksum zero.
pub proof fn law_checksum_cancels_itself(bytes: Seq<u8>)
    ensures
        crc_of(bytes.push((crc_of(bytes) / 256) as u8).push((crc_of(bytes) % 256) as u8)) == 0,
{
    let crc = crc_of(bytes);
    let high = (crc / 256) as u8;
    let low = (crc % 256) as u8;
    let once = bytes.push(high);
    let twice = once.push(low);
    assert(once.drop_last() =~= bytes);
    assert(twice.drop_last() =~= once);
    assert(crc ^ ((high as u16) << 8) == low as u16) by (bit_vector)
        requires
            high == (crc / 256) as u8,
            low == (crc % 256) as u8,
    ;
    lemma_low_byte_shifts_up(low as u16);
    let middle = crc_of(once);
    assert(middle ^ ((low as u16) << 8) == 0) by (bit_vector)
        requires
            middle == 256 * (low as u16),
    ;
    lemma_low_byte_shifts_up(0);
}

/// CRC-16 used by SSP: seed 0xFFFF, polynomial 0x8005, most significant bit first.
pub fn crc16_ssp(bytes: &[u8]) -> (r: u16)
    ensures
        r == crc_of(bytes@),
{
    let mut crc: u16 = 0xffff;
    let mut i: usize = 0;
    assert(bytes@.take(0) =~= Seq::<u8>::empty());
    while i < bytes.len()
        invariant
            i <= bytes@.len(),
            crc == crc_of(bytes@.take(i as int)),
        decreases bytes.len() - i,
    {
        assert(bytes@.take(i + 1).drop_last() =~= bytes@.take(i as int));
        crc = crc ^ ((bytes[i] as u16) << 8);
        let ghost start = crc;
        let mut k: u8 = 0;
        while k < 8
            invariant
                k <= 8,
                crc == crc_bits(start, k as nat),
            decreases 8 - k,
        {
            crc = if crc & 0x8000 != 0 {
                (crc << 1) ^ 0x8005
            } else {
                crc << 1
            };
            k = k + 1;
        }
        i = i + 1;
    }
    assert(bytes@.take(bytes@.len() as int) =~= bytes@);
    crc
}

// ---------------------------------------------------------------------------
// Packets
// ---------------------------------------------------------------------------

/// The bytes with every start byte doubled.
pub open spec fn stuffed(bytes: Seq<u8>) -> Seq<u8>
    decreases bytes.len(),
{
    if bytes.len() == 0 {
        Seq::<u8>::empty()
    } else if bytes.last() == SSP_STX {
        stuffed(bytes.drop_last()) + seq![SSP_STX, SSP_STX]
    } else {
        stuffed(bytes.drop_last()).push(bytes.last())
    }
}

/// What the checksum of a packet covers: sequence byte, length, data.
pub open spec fn protected(sequence: u8, data: Seq<u8>) -> Seq<u8> {
    seq![sequence, data.len() as u8] + data
}

/// A packet before stuffing: what the checksum covers, then the checksum, low byte first.
pub open spec fn packet_body(sequence: u8, data: Seq<u8>) -> Seq<u8> {
    let crc = crc_of(protected(sequence, data));
    protected(sequence, data) + seq![(crc % 256) as u8, (crc / 256) as u8]
}

/// A packet on the wire.
pub open spec fn packet(sequence: u8, data: Seq<u8>) -> Seq<u8> {
    seq![SSP_STX] + stuffed(packet_body(sequence, data))
}

/// The packet that carries a command and its parameters.
pub fn encode_packet(sequence: u8, command: u8, params: &[u8]) -> (r: KioskResult<Vec<u8>>)
    ensures
        r matches Ok(wire) ==> params@.len() <= 254 && wire@ == packet(
            sequence,
            seq![command] + params@,
        ),
        r matches Err(e) ==> params@.len() > 254 && e@ == ErrorView::Hardware(
            if params@.len() == usize::MAX {
                "NV9 SSP command length overflow"@
            } else {
                "NV9 SSP command data exceeds 255 bytes"@
            },
        ),
{
    if params.len() == usize::MAX {
        return Err(hardware("NV9 SSP command length overflow".to_string()));
    }
    if params.len() > 254 {
        return Err(hardware("NV9 SSP command data exceeds 255 bytes".to_string()));
    }
    let mut body: Vec<u8> = Vec::new();
    body.push(sequence);
    body.push((params.len() + 1) as u8);
    body.push(command);
    body.extend_from_slice(params);
    let ghost data = seq![command] + params@;
    assert(body@ =~= protected(sequence, data));
    let crc = crc16_ssp(&body);
    body.push((crc % 256) as u8);
    body.push((crc / 256) as u8);
    assert(body@ =~= packet_body(sequence, data));

    let mut wire: Vec<u8> = Vec::new();
    wire.push(SSP_STX);
    let mut i: usize = 0;
    assert(body@.take(0) =~= Seq::<u8>::empty());
    assert(wire@ =~= seq![SSP_STX] + stuffed(body@.take(0)));
    while i < body.len()
        invariant
            i <= body@.len(),
            wire@ == seq![SSP_STX] + stuffed(body@.take(i as int)),
        decreases body.len() - i,
    {
        assert(body@.take(i + 1).drop_last() =~= body@.take(i as int));
        let byte = body[i];
        wire.push(byte);
        if byte == SSP_STX {
            wire.push(byte);
        }
        i = i + 1;
        assert(wire@ =~= seq![SSP_STX] + stuffed(body@.take(i as int)));
    }
    assert(body@.take(body@.len() as int) =~= body@);
    Ok(wire)
}

// ---------------------------------------------------------------------------
// Reading a packet
// ---------------------------------------------------------------------------

/// A reader that is given the bytes of the line one by one.
pub struct FrameReader {
    noise: usize,
    in_packet: bool,
    escaped: bool,
    body: Vec<u8>,
}

/// The reader as values: the noise skipped so far, whether a packet has started, whether a
/// start byte waits for its double, and the unstuffed bytes of the packet.
pub struct ReaderView {
    pub noise: nat,
    pub in_packet: bool,
    pub escaped: bool,
    pub body: Seq<u8>,
}

impl View for FrameReader {
    type V = ReaderView;

    closed spec fn view(&self) -> ReaderView {
        ReaderView {
            noise: self.noise as nat,
            in_packet: self.in_packet,
            escaped: self.escaped,
            body: self.body@,
        }
    }
}

/// What one more byte gives.
pub enum FrameStep {
    /// The packet is not complete yet.
    More,
    /// A packet with a correct checksum.
    Done { sequence: u8, data: Vec<u8> },
    /// The line does not carry a packet.
    Failed(KioskError),
}

pub enum FrameStepView {
    More,
    Done { sequence: u8, data: Seq<u8> },
    Failed(ErrorView),
}

impl View for FrameStep {
    type V = FrameStepView;

    open spec fn view(&self) -> FrameStepView {
        match *self {
            FrameStep::More => FrameStepView::More,
            FrameStep::Done { sequence, data } => FrameStepView::Done { sequence, data: data@ },
            FrameStep::Failed(e) => FrameStepView::Failed(e@),
        }
    }
}

/// A reader that has seen nothing yet.
pub open spec fn fresh_reader() -> ReaderView {
    ReaderView { noise: 0, in_packet: false, escaped: false, body: Seq::empty() }
}

/// Whether the unstuffed bytes are all that the length byte announces.
pub open spec fn complete(body: Seq<u8>) -> bool {
    body.len() >= 2 && body.len() == body[1] + 4
}

/// A complete packet: its data where the checksum is right.
pub open spec fn checked(body: Seq<u8>) -> FrameStepView {
    let n = body.len();
    let expected = crc_of(body.take(n - 2));
    let received = (body[n - 2] + 256 * body[n - 1]) as u16;
    if received == expected {
        FrameStepView::Done { sequence: body[0], data: body.subrange(2, n - 2) }
    } else {
        FrameStepView::Failed(
            ErrorView::Hardware(
                "NV9 SSP CRC mismatch: expected 0x"@ + hex4(expected, true) + ", received 0x"@
                    + hex4(received, true),
            ),
        )
    }
}

/// One more unstuffed byte of a packet.
pub open spec fn accept(v: ReaderView, byte: u8) -> (ReaderView, FrameStepView) {
    let body = v.body.push(byte);
    let w = ReaderView { escaped: false, body, ..v };
    if complete(body) {
        (w, checked(body))
    } else {
        (w, FrameStepView::More)
    }
}

/// One more byte of the line.
pub open spec fn reader_step(v: ReaderView, byte: u8) -> (ReaderView, FrameStepView) {
    if !v.in_packet {
        if byte == SSP_STX {
            (ReaderView { in_packet: true, ..v }, FrameStepView::More)
        } else if v.noise + 1 >= MAX_LEADING_NOISE_BYTES {
            (
                v,
                FrameStepView::Failed(ErrorView::Hardware("NV9 SSP response did not contain STX"@)),
            )
        } else {
            (ReaderView { noise: v.noise + 1, ..v }, FrameStepView::More)
        }
    } else if v.escaped {
        if byte == SSP_STX {
            accept(v, SSP_STX)
        } else {
            (
                v,
                FrameStepView::Failed(
                    ErrorView::Hardware(
                        "malformed NV9 SSP byte stuffing: 0x7F followed by 0x"@ + hex2(byte, true),
                    ),
                ),
            )
        }
    } else if byte == SSP_STX {
        (ReaderView { escaped: true, ..v }, FrameStepView::More)
    } else {
        accept(v, byte)
    }
}

/// The bytes of the line up to the first that completes or breaks a packet.
pub open spec fn feed(v: ReaderView, bytes: Seq<u8>) -> (ReaderView, FrameStepView)
    decreases bytes.len(),
{
    if bytes.len() == 0 {
        (v, FrameStepView::More)
    } else {
        let (w, step) = feed(v, bytes.drop_last());
        if step is More {
            reader_step(w, bytes.last())
        } else {
            (w, step)
        }
    }
}

impl FrameReader {
    /// A reader that waits for the start of a packet.
    pub fn new() -> (r: Self)
        ensures
            r@ == fresh_reader(),
    {
        FrameReader { noise: 0, in_packet: false, escaped: false, body: Vec::new() }
    }

    fn take(&mut self, byte: u8) -> (r: FrameStep)
        ensures
            (final(self)@, r@) == accept(old(self)@, byte),
    {
        self.escaped = false;
        self.body.push(byte);
        let n = self.body.len();
        if n < 4 || n != self.body[1] as usize + 4 {
            return FrameStep::More;
        }
        let mut covered: Vec<u8> = Vec::new();
        let mut data: Vec<u8> = Vec::new();
        let mut i: usize = 0;
        while i < n - 2
            invariant
                4 <= n == self.body@.len(),
                i <= n - 2,
                covered@ == self.body@.take(i as int),
                data@ == (if i < 2 {
                    Seq::<u8>::empty()
                } else {
                    self.body@.subrange(2, i as int)
                }),
            decreases n - 2 - i,
        {
            covered.push(self.body[i]);
            if i >= 2 {
                data.push(self.body[i]);
            }
            i = i + 1;
            assert(covered@ =~= self.body@.take(i as int));
            assert(i >= 2 ==> data@ =~= self.body@.subrange(2, i as int));
        }
        let expected = crc16_ssp(&covered);
        let received: u16 = self.body[n - 2] as u16 + 256 * (self.body[n - 1] as u16);
        if received != expected {
            let message = "NV9 SSP CRC mismatch: expected 0x".to_string().concat(
                hex_word(expected, true).as_str(),
            ).concat(", received 0x").concat(hex_word(received, true).as_str());
            return FrameStep::Failed(hardware(message));
        }
        FrameStep::Done { sequence: self.body[0], data }
    }

    /// Takes the next byte of the line.
    pub fn push(&mut self, byte: u8) -> (r: FrameStep)
        ensures
            (final(self)@, r@) == reader_step(old(self)@, byte),
    {
        if !self.in_packet {
            if byte == SSP_STX {
                self.in_packet = true;
                FrameStep::More
            } else if self.noise >= MAX_LEADING_NOISE_BYTES - 1 {
                FrameStep::Failed(hardware("NV9 SSP response did not contain STX".to_string()))
            } else {
                self.noise = self.noise + 1;
                FrameStep::More
            }
        } else if self.escaped {
            if byte == SSP_STX {
                self.take(byte)
            } else {
                let message =
                    "malformed NV9 SSP byte stuffing: 0x7F followed by 0x".to_string().concat(
                    hex_byte(byte, true).as_str(),
                );
                FrameStep::Failed(hardware(message))
            }
        } else if byte == SSP_STX {
            self.escaped = true;
            FrameStep::More
        } else {
            self.take(byte)
        }
    }
}

// ---------------------------------------------------------------------------
// Sending a packet
// ---------------------------------------------------------------------------

/// Whether a packet may still be read at `now_ms`.
pub fn within_deadline(now_ms: u64, deadline_ms: u64) -> (r: KioskResult<()>)
    ensures
        r is Ok <==> now_ms < deadline_ms,
        r matches Err(e) ==> e@ == ErrorView::Hardware("NV9 SSP frame read timed out"@),
{
    if now_ms >= deadline_ms {
        Err(hardware("NV9 SSP frame read timed out".to_string()))
    } else {
        Ok(())
    }
}

/// One command on its way: the packet, and how many times it was sent again.
pub struct Exchange {
    pub sequence: u8,
    pub command: u8,
    pub frame: Vec<u8>,
    pub attempt: usize,
}

/// What comes after an attempt.
pub enum ExchangeStep {
    /// The reply.
    Reply(Vec<u8>),
    /// Discard what is on the line and send the same packet again.
    Retransmit,
    /// The command failed for good.
    GiveUp(KioskError),
}

/// The reply to an attempt that carried the sequence byte `sequence`: what came back, or why
/// nothing usable did.
pub open spec fn attempt_error(sequence: u8, reply: Result<(u8, Seq<u8>), ErrorView>) -> Option<
    ErrorView,
> {
    match reply {
        Ok((received, _)) => if received == sequence {
            None
        } else {
            Some(
                ErrorView::Hardware(
                    "NV9 SSP sequence mismatch: sent 0x"@ + hex2(sequence, true)
                        + ", received 0x"@ + hex2(received, true),
                ),
            )
        },
        Err(e) => Some(e),
    }
}

/// What an attempt gave, as values.
pub open spec fn reply_view(reply: KioskResult<(u8, Vec<u8>)>) -> Result<(u8, Seq<u8>), ErrorView> {
    match reply {
        Ok((s, d)) => Ok((s, d@)),
        Err(e) => Err(e@),
    }
}

impl Exchange {
    /// Prepares a command for sending.
    pub fn new(sequence: u8, command: u8, params: &[u8]) -> (r: KioskResult<Exchange>)
        ensures
            r matches Ok(x) ==> params@.len() <= 254 && x.sequence == sequence && x.command
                == command && x.attempt == 0 && x.frame@ == packet(
                sequence,
                seq![command] + params@,
            ),
            r matches Err(e) ==> params@.len() > 254 && e@ == ErrorView::Hardware(
                if params@.len() == usize::MAX {
                    "NV9 SSP command length overflow"@
                } else {
                    "NV9 SSP command data exceeds 255 bytes"@
                },
            ),
    {
        match encode_packet(sequence, command, params) {
            Ok(frame) => Ok(Exchange { sequence, command, frame, attempt: 0 }),
            Err(e) => Err(e),
        }
    }

    /// Takes the outcome of an attempt. A command is sent at most three times, every time as
    /// the identical packet with the same sequence byte.
    pub fn attempted(&mut self, reply: KioskResult<(u8, Vec<u8>)>) -> (r: ExchangeStep)
        ensures
            final(self).sequence == old(self).sequence,
            final(self).command == old(self).command,
            final(self).frame == old(self).frame,
            match attempt_error(old(self).sequence, reply_view(reply)) {
                None => r matches ExchangeStep::Reply(d) && reply_view(reply) == Ok::<
                    (u8, Seq<u8>),
                    ErrorView,
                >((old(self).sequence, d@)) && final(self).attempt == old(self).attempt,
                Some(error) => if old(self).attempt < COMMAND_RETRIES {
                    r is Retransmit && final(self).attempt == old(self).attempt + 1
                } else {
                    r matches ExchangeStep::GiveUp(e) && e@ == ErrorView::Hardware(
                        "NV9 SSP command 0x"@ + hex2(old(self).command, true)
                            + " failed after 3 attempts: "@ + error_text(error),
                    ) && final(self).attempt == old(self).attempt
                },
            },
    {
        let error = match reply {
            Ok((received, data)) => {
                if received == self.sequence {
                    return ExchangeStep::Reply(data);
                }
                hardware(
                    "NV9 SSP sequence mismatch: sent 0x".to_string().concat(
                        hex_byte(self.sequence, true).as_str(),
                    ).concat(", received 0x").concat(hex_byte(received, true).as_str()),
                )
            },
            Err(error) => error,
        };
        if self.attempt < COMMAND_RETRIES {
            self.attempt = self.attempt + 1;
            ExchangeStep::Retransmit
        } else {
            ExchangeStep::GiveUp(
                hardware(
                    "NV9 SSP command 0x".to_string().concat(
                        hex_byte(self.command, true).as_str(),
                    ).concat(" failed after 3 attempts: ").concat(error.message().as_str()),
                ),
            )
        }
    }
}

// ---------------------------------------------------------------------------
// A packet that was sent is read back
// ---------------------------------------------------------------------------

proof fn lemma_feed_append(v: ReaderView, a: Seq<u8>, b: u8)
    requires
        feed(v, a).1 is More,
    ensures
        feed(v, a.push(b)) == reader_step(feed(v, a).0, b),
{
    assert(a.push(b).drop_last() =~= a);
}

/// The reader, once inside a packet, has taken the first `k` bytes of a body.
proof fn lemma_feed_body(lead: Seq<u8>, noise: nat, body: Seq<u8>, k: int)
    requires
        0 <= k <= body.len(),
        body.len() >= 2,
        body.len() == body[1] + 4,
        feed(fresh_reader(), lead) == (
            (ReaderView { noise, in_packet: true, escaped: false, body: Seq::empty() }),
            FrameStepView::More,
        ),
    ensures
        feed(fresh_reader(), lead + stuffed(body.take(k))) == (
            (ReaderView { noise, in_packet: true, escaped: false, body: body.take(k) }),
            if k == body.len() {
                checked(body)
            } else {
                FrameStepView::More
            },
        ),
    decreases k,
{
    if k == 0 {
        assert(body.take(0) =~= Seq::<u8>::empty());
        assert(lead + stuffed(body.take(0)) =~= lead);
    } else {
        lemma_feed_body(lead, noise, body, k - 1);
        let b = body[k - 1];
        let front = lead + stuffed(body.take(k - 1));
        let v = ReaderView { noise, in_packet: true, escaped: false, body: body.take(k - 1) };
        assert(body.take(k).drop_last() =~= body.take(k - 1));
        assert(body.take(k - 1).push(b) =~= body.take(k));
        assert(k >= 2 ==> body.take(k)[1] == body[1]);
        assert(body.take(body.len() as int) =~= body);
        assert(complete(body.take(k)) <==> k == body.len());
        lemma_feed_append(fresh_reader(), front, b);
        if b == SSP_STX {
            lemma_feed_append(fresh_reader(), front.push(b), b);
            assert(lead + stuffed(body.take(k)) =~= front.push(b).push(b));
        } else {
            assert(lead + stuffed(body.take(k)) =~= front.push(b));
        }
    }
}

proof fn lemma_feed_noise(noise: Seq<u8>)
    requires
        noise.len() < MAX_LEADING_NOISE_BYTES,
        !noise.contains(SSP_STX),
    ensures
        feed(fresh_reader(), noise) == (
            (ReaderView { noise: noise.len(), ..fresh_reader() }),
            FrameStepView::More,
        ),
    decreases noise.len(),
{
    if noise.len() > 0 {
        let front = noise.drop_last();
        assert forall|i: int| 0 <= i < front.len() implies front[i] != SSP_STX by {
            assert(noise[i] == front[i]);
            assert(noise.contains(noise[i]));
        }
        assert(noise.contains(noise.last()));
        lemma_feed_noise(front);
    }
}

/// Every packet is read back as it was sent, for any sequence byte and up to 255 bytes of
/// data, also behind line noise that holds no start byte and is shorter than the limit.
pub proof fn law_packet_reads_back(noise: Seq<u8>, sequence: u8, data: Seq<u8>)
    requires
        noise.len() < MAX_LEADING_NOISE_BYTES,
        !noise.contains(SSP_STX),
        data.len() <= 255,
    ensures
        feed(fresh_reader(), noise + packet(sequence, data)).1 == (FrameStepView::Done {
            sequence,
            data,
        }),
{
    let body = packet_body(sequence, data);
    let covered = protected(sequence, data);
    let crc = crc_of(covered);
    lemma_feed_noise(noise);
    lemma_feed_append(fresh_reader(), noise, SSP_STX);
    let lead = noise.push(SSP_STX);
    assert(body[1] == data.len());
    lemma_feed_body(lead, noise.len(), body, body.len() as int);
    assert(body.take(body.len() as int) =~= body);
    assert(noise + packet(sequence, data) =~= lead + stuffed(body));
    let n = body.len();
    assert(body.take(n - 2) =~= covered);
    assert(body.subrange(2, n - 2) =~= data);
    assert(crc % 256 + 256 * (crc / 256) == crc);
}

/// A reply with data is accepted only with the checksum that belongs to it.
pub proof fn law_accepted_packet_has_its_checksum(v: ReaderView, byte: u8)
    ensures
        reader_step(v, byte).1 matches FrameStepView::Done { sequence, data } ==> reader_step(
            v,
            byte,
        ).0.body == packet_body(sequence, data),
{
    if let FrameStepView::Done { sequence, data } = reader_step(v, byte).1 {
        let body = reader_step(v, byte).0.body;
        let n = body.len();
        assert(body.take(n - 2) =~= protected(sequence, data));
        assert(body =~= packet_body(sequence, data));
    }
}

} // verus!
