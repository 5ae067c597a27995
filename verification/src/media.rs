//! RTP packets of SBC frames, and their pacing.

use vstd::prelude::*;

use crate::bytes::{
    be16, be32, copy_at, law_numbers_are_read_back, law_the_head_is_replaced, put_be16, put_be32,
    with_head,
};
use crate::sbc_tone_frames::{bitpool_supported, frame_length, sbc_frame_length};

verus! {

pub const SAMPLE_RATE: u32 = 44_100;

pub const FRAME_SAMPLES: u32 = 128;

pub const MAX_FRAME_LENGTH: usize = 118;

pub const RTP_HEADER: usize = 12;

pub const SBC_HEADER: usize = 1;

pub const MAX_FRAMES_PER_PACKET: u8 = 5;

/// Largest packet that the transport is known to send, whatever the peer would accept.
pub const MAX_TX_SDU: usize = 672;

pub const DEFAULT_SINK_DELAY_100US: u16 = 1_500;

pub const MAX_STARTUP_PACKETS: u8 = 16;

pub const MAX_PACKET: usize = 603;

pub const TONE_SECONDS: u32 = 5;

/// Synchronisation source of every packet.
pub const SSRC: u32 = 0x4254_5036;

#[derive(Copy, Clone, Debug, PartialEq, Eq, Structural)]
pub enum MediaError {
    Mtu,
    Complete,
    Buffer,
    Codec,
}

/// The RTP header and the SBC payload header.
pub open spec fn packet_header(sequence: u16, timestamp: u32, frames: u8, marker: bool) -> Seq<u8> {
    seq![
        0x80u8,
        if marker {
            0xe0u8
        } else {
            0x60u8
        },
    ] + be16(sequence) + be32(timestamp) + be32(SSRC) + seq![frames]
}

/// Bytes of a packet of `frames` frames.
pub open spec fn packet_size(frames: int, frame_length: int) -> int {
    13 + frames * frame_length
}

/// The most frames, from `most` down to one, with which a packet stays within `limit`.
pub open spec fn frames_within(limit: int, frame_length: int, most: int) -> int
    decreases most,
{
    if most <= 1 || packet_size(most, frame_length) <= limit {
        most
    } else {
        frames_within(limit, frame_length, most - 1)
    }
}

/// Largest packet for a channel of the given MTU.
pub open spec fn packet_limit(mtu: u16) -> int {
    if mtu < MAX_TX_SDU {
        mtu as int
    } else {
        MAX_TX_SDU as int
    }
}

/// Time that `frames` frames last, in 1/44100 of a millisecond.
pub open spec fn duration(frames: int) -> int {
    frames * 128_000
}

/// Whole milliseconds to wait for `frames` frames after what was left over before; at least one.
pub open spec fn pace_delay(remainder: int, frames: int) -> int {
    let whole = (remainder + duration(frames)) / 44_100;
    if whole < 1 {
        1
    } else {
        whole
    }
}

pub open spec fn pace_remainder(remainder: int, frames: int) -> int {
    (remainder + duration(frames)) % 44_100
}

/// Quotient, rounded up.
pub open spec fn ceiling(a: int, b: int) -> int {
    (a + b - 1) / b
}

proof fn lemma_frames_within(limit: int, frame_length: int, most: int)
    requires
        most >= 1,
        frame_length > 0,
    ensures
        ({
            let frames = frames_within(limit, frame_length, most);
            &&& 1 <= frames <= most
            &&& packet_size(1, frame_length) <= limit ==> packet_size(frames, frame_length) <= limit
            &&& frames < most ==> packet_size(frames + 1, frame_length) > limit
        }),
    decreases most,
{
    if most > 1 && packet_size(most, frame_length) > limit {
        lemma_frames_within(limit, frame_length, most - 1);
    }
}

/// As many frames go into a packet as the channel takes, up to five: a packet of them fits the MTU
/// of the channel and the 672 bytes that the transport sends, and one frame more would not fit one
/// of the two.
pub proof fn law_packets_are_as_full_as_the_channel_takes(mtu: u16, bitpool: u8)
    requires
        27 <= bitpool <= 53,
        13 + (12 + 2 * bitpool) <= mtu,
    ensures
        ({
            let length = 12 + 2 * bitpool;
            let frames = frames_within(
                packet_limit(mtu),
                sbc_frame_length(bitpool) as int,
                MAX_FRAMES_PER_PACKET as int,
            );
            &&& bitpool_supported(bitpool)
            &&& sbc_frame_length(bitpool) == length
            &&& packet_size(1, length) <= packet_limit(mtu)
            &&& 1 <= frames <= 5
            &&& 13 + frames * length <= mtu
            &&& 13 + frames * length <= 672
            &&& frames == 5 || 13 + (frames + 1) * length > mtu || 13 + (frames + 1) * length > 672
        }),
{
    lemma_frames_within(
        packet_limit(mtu),
        sbc_frame_length(bitpool) as int,
        MAX_FRAMES_PER_PACKET as int,
    );
}

/// A channel that does not take the headers and one frame is refused, and so is a bitpool outside
/// 27 to 53; nothing else is.
pub proof fn law_which_channels_are_refused(mtu: u16, bitpool: u8)
    ensures
        bitpool_supported(bitpool) <==> 27 <= bitpool <= 53,
        bitpool_supported(bitpool) ==> (packet_size(1, sbc_frame_length(bitpool) as int)
            > packet_limit(mtu) <==> 25 + 2 * bitpool > mtu),
{
}

/// A packet of `frames` frames is 13 bytes and the frames.
pub proof fn law_packet_size(frames: int, frame_length: int)
    ensures
        packet_size(frames, frame_length) == 12 + 1 + frames * frame_length,
{
}

/// Byte by byte: version 2 of RTP, payload type 96 with the marker bit above it, the sequence
/// number, the time stamp and the source, all big-endian, and the number of frames.
pub proof fn law_packet_header_bytes(sequence: u16, timestamp: u32, frames: u8, marker: bool)
    ensures
        ({
            let header = packet_header(sequence, timestamp, frames, marker);
            &&& header.len() == 13
            &&& header[0] == 128
            &&& header[1] == (if marker {
                0xe0u8
            } else {
                0x60u8
            })
            &&& 256 * header[2] + header[3] == sequence
            &&& 0x100_0000 * header[4] + 0x1_0000 * header[5] + 0x100 * header[6] + header[7]
                == timestamp
            &&& header[8] == 0x42 && header[9] == 0x54 && header[10] == 0x50 && header[11] == 0x36
            &&& header[12] == frames
        }),
{
    law_numbers_are_read_back(sequence, timestamp, 0, 0);
    law_numbers_are_read_back(sequence, SSRC, 0, 0);
    let source = be32(SSRC);
    assert(source[0] == 0x42 && source[1] == 0x54 && source[2] == 0x50 && source[3] == 0x36);
}

/// Frames per packet and frame length for a channel and a bitpool.
fn plan_packets(mtu: u16, bitpool: u8) -> (plan: Result<(u8, u16), MediaError>)
    ensures
        ({
            let length = sbc_frame_length(bitpool) as int;
            if !bitpool_supported(bitpool) {
                plan == Err::<(u8, u16), MediaError>(MediaError::Codec)
            } else if packet_size(1, length) > packet_limit(mtu) {
                plan == Err::<(u8, u16), MediaError>(MediaError::Mtu)
            } else {
                &&& plan is Ok
                &&& plan->Ok_0.0 == frames_within(
                    packet_limit(mtu),
                    length,
                    MAX_FRAMES_PER_PACKET as int,
                )
                &&& plan->Ok_0.1 == length
                &&& 1 <= plan->Ok_0.0 <= MAX_FRAMES_PER_PACKET
            }
        }),
{
    let length = match frame_length(bitpool) {
        Some(length) => length,
        None => {
            return Err(MediaError::Codec);
        },
    };
    let limit: usize = if (mtu as usize) < MAX_TX_SDU {
        mtu as usize
    } else {
        MAX_TX_SDU
    };
    let mut frames: u8 = MAX_FRAMES_PER_PACKET;
    while frames > 1 && 13 + frames as usize * length > limit
        invariant
            1 <= frames <= MAX_FRAMES_PER_PACKET,
            length == sbc_frame_length(bitpool),
            length <= MAX_FRAME_LENGTH,
            limit == packet_limit(mtu),
            frames * length <= 5 * 118,
            frames_within(limit as int, length as int, MAX_FRAMES_PER_PACKET as int)
                == frames_within(limit as int, length as int, frames as int),
        decreases frames,
    {
        assert((frames - 1) * length == frames * length - length) by (nonlinear_arith);
        frames -= 1;
    }
    if 13 + length > limit {
        return Err(MediaError::Mtu);
    }
    Ok((frames, length as u16))
}

/// Writes both headers to the head of `out`.
fn put_header(out: &mut [u8], sequence: u16, timestamp: u32, frames: u8, marker: bool)
    requires
        old(out)@.len() >= 13,
    ensures
        final(out)@ == with_head(old(out)@, packet_header(sequence, timestamp, frames, marker)),
{
    let ghost before = out@;
    out[0] = 0x80;
    out[1] = if marker {
        0xe0
    } else {
        0x60
    };
    put_be16(out, 2, sequence);
    put_be32(out, 4, timestamp);
    put_be32(out, 8, SSRC);
    out[12] = frames;
    assert(out@ =~= with_head(before, packet_header(sequence, timestamp, frames, marker)));
}

/// Packets for a stream that is encoded elsewhere.
pub struct StreamPacketizer {
    pub sequence: u16,
    pub timestamp: u32,
    pub packets_sent: u32,
    pub frames_sent: u32,
    pub frames_per_packet: u8,
    pub bitpool: u8,
    pub frame_length: u16,
    pace_remainder: u32,
}

/// What a `StreamPacketizer` holds.
#[derive(Copy, Clone, Debug, PartialEq, Eq, Structural)]
pub struct StreamView {
    pub sequence: u16,
    pub timestamp: u32,
    pub packets_sent: u32,
    pub frames_sent: u32,
    pub frames_per_packet: u8,
    pub bitpool: u8,
    pub frame_length: u16,
    pub pace_remainder: u32,
}

impl View for StreamPacketizer {
    type V = StreamView;

    closed spec fn view(&self) -> StreamView {
        StreamView {
            sequence: self.sequence,
            timestamp: self.timestamp,
            packets_sent: self.packets_sent,
            frames_sent: self.frames_sent,
            frames_per_packet: self.frames_per_packet,
            bitpool: self.bitpool,
            frame_length: self.frame_length,
            pace_remainder: self.pace_remainder,
        }
    }
}

impl StreamView {
    /// Packets fit the transport, and less than a millisecond is left over.
    pub open spec fn wf(self) -> bool {
        &&& bitpool_supported(self.bitpool)
        &&& self.frame_length == sbc_frame_length(self.bitpool)
        &&& 1 <= self.frames_per_packet <= MAX_FRAMES_PER_PACKET
        &&& self.pace_remainder < SAMPLE_RATE
    }

    pub open spec fn fresh(frames_per_packet: int, bitpool: u8) -> StreamView {
        StreamView {
            sequence: 1,
            timestamp: 0,
            packets_sent: 0,
            frames_sent: 0,
            frames_per_packet: frames_per_packet as u8,
            bitpool,
            frame_length: sbc_frame_length(bitpool) as u16,
            pace_remainder: 0,
        }
    }

    /// A packet of `frames` frames was sent.
    pub open spec fn advanced(self, frames: u8) -> StreamView {
        StreamView {
            sequence: ((self.sequence + 1) % 0x1_0000) as u16,
            timestamp: ((self.timestamp + frames * 128) % 0x1_0000_0000) as u32,
            packets_sent: ((self.packets_sent + 1) % 0x1_0000_0000) as u32,
            frames_sent: ((self.frames_sent + frames) % 0x1_0000_0000) as u32,
            ..self
        }
    }

    pub open spec fn holds(self, frames: u8) -> bool {
        1 <= frames <= self.frames_per_packet
    }

    /// The headers of a packet are written to `out`, if the packet fits it.
    pub open spec fn writes_header(
        self,
        frames: u8,
        marker: bool,
        out: Seq<u8>,
        offset: Result<usize, MediaError>,
        after: StreamView,
        out_after: Seq<u8>,
    ) -> bool {
        if self.holds(frames) && packet_size(frames as int, self.frame_length as int)
            <= out.len() {
            &&& offset == Ok::<usize, MediaError>(13)
            &&& out_after == with_head(
                out,
                packet_header(self.sequence, self.timestamp, frames, marker),
            )
            &&& after == self.advanced(frames)
        } else {
            &&& offset == Err::<usize, MediaError>(MediaError::Buffer)
            &&& out_after == out
            &&& after == self
        }
    }

    /// Milliseconds until the next packet is due, after one of `frames` frames.
    pub open spec fn waits(self, frames: u8, delay: u32, after: StreamView) -> bool {
        &&& delay == pace_delay(self.pace_remainder as int, frames as int)
        &&& after == (StreamView {
            pace_remainder: pace_remainder(self.pace_remainder as int, frames as int) as u32,
            ..self
        })
    }
}

impl StreamPacketizer {
    pub fn new(mtu: u16, bitpool: u8) -> (packetizer: Result<Self, MediaError>)
        ensures
            ({
                let length = sbc_frame_length(bitpool) as int;
                match packetizer {
                    Err(error) => if error == MediaError::Codec {
                        !bitpool_supported(bitpool)
                    } else {
                        &&& error == MediaError::Mtu
                        &&& bitpool_supported(bitpool)
                        &&& packet_size(1, length) > packet_limit(mtu)
                    },
                    Ok(packetizer) => {
                        &&& bitpool_supported(bitpool)
                        &&& packet_size(1, length) <= packet_limit(mtu)
                        &&& 13 + packetizer@.frames_per_packet * packetizer@.frame_length <= mtu
                        &&& 13 + packetizer@.frames_per_packet * packetizer@.frame_length <= 672
                        &&& packetizer@.frames_per_packet == 5 || 13 + (
                        packetizer@.frames_per_packet + 1) * packetizer@.frame_length > mtu || 13
                            + (packetizer@.frames_per_packet + 1) * packetizer@.frame_length > 672
                        &&& packetizer@.wf()
                        &&& packetizer@ == StreamView::fresh(
                            frames_within(
                                packet_limit(mtu),
                                length,
                                MAX_FRAMES_PER_PACKET as int,
                            ),
                            bitpool,
                        )
                    },
                }
            }),
    {
        let (frames, length) = plan_packets(mtu, bitpool)?;
        proof {
            law_packets_are_as_full_as_the_channel_takes(mtu, bitpool);
        }
        Ok(
            StreamPacketizer {
                sequence: 1,
                timestamp: 0,
                packets_sent: 0,
                frames_sent: 0,
                frames_per_packet: frames,
                bitpool,
                frame_length: length,
                pace_remainder: 0,
            },
        )
    }

    /// All that the packetizer holds.
    pub fn snapshot(&self) -> (snapshot: StreamView)
        ensures
            snapshot == self@,
    {
        StreamView {
            sequence: self.sequence,
            timestamp: self.timestamp,
            packets_sent: self.packets_sent,
            frames_sent: self.frames_sent,
            frames_per_packet: self.frames_per_packet,
            bitpool: self.bitpool,
            frame_length: self.frame_length,
            pace_remainder: self.pace_remainder,
        }
    }

    pub fn packet_length(&self, frames: u8) -> (length: Result<usize, MediaError>)
        requires
            self@.wf(),
        ensures
            length == (if self@.holds(frames) {
                Ok::<usize, MediaError>(
                    packet_size(frames as int, self@.frame_length as int) as usize,
                )
            } else {
                Err(MediaError::Buffer)
            }),
            length matches Ok(length) ==> length == packet_size(
                frames as int,
                self@.frame_length as int,
            ) && 13 < length <= MAX_PACKET,
    {
        if frames == 0 || frames > self.frames_per_packet {
            return Err(MediaError::Buffer);
        }
        assert(1 <= frames * self.frame_length <= 5 * 118) by (nonlinear_arith)
            requires
                1 <= frames <= 5,
                1 <= self.frame_length <= 118,
        ;
        Ok(13 + frames as usize * self.frame_length as usize)
    }

    /// Writes both headers and counts the packet. The caller writes `frames` encoded frames from
    /// the returned offset on.
    pub fn write_header(&mut self, out: &mut [u8], frames: u8, marker: bool) -> (offset: Result<
        usize,
        MediaError,
    >)
        requires
            old(self)@.wf(),
        ensures
            final(self)@.wf(),
            old(self)@.writes_header(
                frames,
                marker,
                old(out)@,
                offset,
                final(self)@,
                final(out)@,
            ),
    {
        let length = self.packet_length(frames)?;
        if out.len() < length {
            return Err(MediaError::Buffer);
        }
        put_header(out, self.sequence, self.timestamp, frames, marker);
        self.packets_sent = self.packets_sent.wrapping_add(1);
        self.frames_sent = self.frames_sent.wrapping_add(frames as u32);
        self.sequence = self.sequence.wrapping_add(1);
        self.timestamp = self.timestamp.wrapping_add(frames as u32 * FRAME_SAMPLES);
        Ok(RTP_HEADER + SBC_HEADER)
    }

    /// Milliseconds until the next packet is due.
    pub fn next_delay_ms(&mut self, frames: u8) -> (delay: u32)
        requires
            old(self)@.wf(),
        ensures
            final(self)@.wf(),
            old(self)@.waits(frames, delay, final(self)@),
    {
        let timing = self.pace_remainder + frames as u32 * 128_000;
        let whole = timing / SAMPLE_RATE;
        self.pace_remainder = timing % SAMPLE_RATE;
        if whole < 1 {
            1
        } else {
            whole
        }
    }
}

/// Packets of a test tone of a fixed length, all made of the same frame.
#[derive(Copy, Clone, Debug, PartialEq, Eq)]
pub struct TonePacketizer {
    pub sequence: u16,
    pub timestamp: u32,
    pub packets_sent: u32,
    pub frames_sent: u32,
    pub packets_target: u32,
    pub frames_per_packet: u8,
    pub bitpool: u8,
    pub frame_length: u16,
    pace_remainder: u32,
}

/// What a `TonePacketizer` holds.
#[derive(Copy, Clone, Debug, PartialEq, Eq, Structural)]
pub struct ToneView {
    pub sequence: u16,
    pub timestamp: u32,
    pub packets_sent: u32,
    pub frames_sent: u32,
    pub packets_target: u32,
    pub frames_per_packet: u8,
    pub bitpool: u8,
    pub frame_length: u16,
    pub pace_remainder: u32,
}

impl View for TonePacketizer {
    type V = ToneView;

    closed spec fn view(&self) -> ToneView {
        ToneView {
            sequence: self.sequence,
            timestamp: self.timestamp,
            packets_sent: self.packets_sent,
            frames_sent: self.frames_sent,
            packets_target: self.packets_target,
            frames_per_packet: self.frames_per_packet,
            bitpool: self.bitpool,
            frame_length: self.frame_length,
            pace_remainder: self.pace_remainder,
        }
    }
}

/// Packets that the whole tone takes.
pub open spec fn tone_packets(frames_per_packet: int) -> int {
    ceiling(TONE_SECONDS * SAMPLE_RATE, frames_per_packet * 128)
}

/// The frame, as often as it goes into a packet.
pub open spec fn repeated(frame: Seq<u8>, times: nat) -> Seq<u8>
    decreases times,
{
    if times == 0 {
        Seq::empty()
    } else {
        repeated(frame, (times - 1) as nat) + frame
    }
}

/// The delay that a sink reported, or the usual one.
pub open spec fn sink_delay(reported_delay_100us: u16) -> int {
    if reported_delay_100us == 0 {
        DEFAULT_SINK_DELAY_100US as int
    } else {
        reported_delay_100us as int
    }
}

/// Delay of `packets` packets in a row.
pub open spec fn pace_delays(remainder: int, frames: int, packets: nat) -> int
    decreases packets,
{
    if packets == 0 {
        0
    } else {
        let before = (packets - 1) as nat;
        pace_delays(remainder, frames, before) + pace_delay(
            pace_remainders(remainder, frames, before),
            frames,
        )
    }
}

pub open spec fn pace_remainders(remainder: int, frames: int, packets: nat) -> int
    decreases packets,
{
    if packets == 0 {
        remainder
    } else {
        pace_remainder(pace_remainders(remainder, frames, (packets - 1) as nat), frames)
    }
}

impl ToneView {
    /// Packets fit the transport, and less than a millisecond is left over.
    pub open spec fn wf(self) -> bool {
        &&& bitpool_supported(self.bitpool)
        &&& self.frame_length == sbc_frame_length(self.bitpool)
        &&& 1 <= self.frames_per_packet <= MAX_FRAMES_PER_PACKET
        &&& self.pace_remainder < SAMPLE_RATE
    }

    /// The counters are those of a tone that is sent from its beginning.
    pub open spec fn on_track(self) -> bool {
        &&& self.wf()
        &&& self.packets_target == tone_packets(self.frames_per_packet as int)
        &&& self.packets_sent <= self.packets_target
        &&& self.frames_sent == self.packets_sent * self.frames_per_packet
    }

    /// All packets have been sent.
    pub open spec fn complete(self) -> bool {
        self.packets_sent >= self.packets_target
    }

    /// There is a packet left to send, room for it, and a frame to fill it with.
    pub open spec fn can_write(self, room: nat, frame: Seq<u8>) -> bool {
        &&& self.packets_sent < self.packets_target
        &&& self.size() <= room
        &&& frame.len() == self.frame_length
    }

    pub open spec fn fresh(frames_per_packet: int, bitpool: u8) -> ToneView {
        ToneView {
            sequence: 1,
            timestamp: 0,
            packets_sent: 0,
            frames_sent: 0,
            packets_target: tone_packets(frames_per_packet) as u32,
            frames_per_packet: frames_per_packet as u8,
            bitpool,
            frame_length: sbc_frame_length(bitpool) as u16,
            pace_remainder: 0,
        }
    }

    pub open spec fn size(self) -> int {
        packet_size(self.frames_per_packet as int, self.frame_length as int)
    }

    pub open spec fn packet(self, frame: Seq<u8>) -> Seq<u8> {
        packet_header(
            self.sequence,
            self.timestamp,
            self.frames_per_packet,
            self.packets_sent == 0,
        ) + repeated(frame, self.frames_per_packet as nat)
    }

    pub open spec fn advanced(self) -> ToneView {
        ToneView {
            sequence: ((self.sequence + 1) % 0x1_0000) as u16,
            timestamp: ((self.timestamp + self.frames_per_packet * 128) % 0x1_0000_0000) as u32,
            packets_sent: (self.packets_sent + 1) as u32,
            frames_sent: (self.frames_sent + self.frames_per_packet) as u32,
            ..self
        }
    }

    /// The next packet of the tone is written to `out`.
    pub open spec fn writes_packet(
        self,
        frame: Seq<u8>,
        out: Seq<u8>,
        length: Result<usize, MediaError>,
        after: ToneView,
        out_after: Seq<u8>,
    ) -> bool {
        if self.can_write(out.len(), frame) {
            &&& length == Ok::<usize, MediaError>(self.size() as usize)
            &&& out_after == with_head(out, self.packet(frame))
            &&& after == self.advanced()
        } else {
            &&& length == Err::<usize, MediaError>(
                if self.packets_sent >= self.packets_target {
                    MediaError::Complete
                } else if self.size() > out.len() {
                    MediaError::Buffer
                } else {
                    MediaError::Codec
                },
            )
            &&& out_after == out
            &&& after == self
        }
    }

    /// Packets to queue at the start, for a sink with the given delay.
    pub open spec fn startup(self, reported_delay_100us: u16) -> int {
        let wanted = ceiling(sink_delay(reported_delay_100us), self.packet_100us());
        if wanted > MAX_STARTUP_PACKETS {
            MAX_STARTUP_PACKETS as int
        } else {
            wanted
        }
    }

    /// Packets to wait for after `packets` were queued at the start.
    pub open spec fn catching_up(packets: u8) -> nat {
        if packets <= 1 {
            1
        } else {
            (packets - 1) as nat
        }
    }

    /// Milliseconds until the sink has rendered the last packet.
    pub open spec fn drain_delay(self, reported_delay_100us: u16) -> int {
        let reported = sink_delay(reported_delay_100us);
        ceiling(
            if reported < 5_000 {
                reported
            } else {
                5_000
            },
            10,
        ) + pace_delay(self.pace_remainder as int, self.frames_per_packet as int)
    }

    /// The remainder after waiting for `packets` packets.
    pub open spec fn paced(self, packets: nat) -> ToneView {
        ToneView {
            pace_remainder: pace_remainders(
                self.pace_remainder as int,
                self.frames_per_packet as int,
                packets,
            ) as u32,
            ..self
        }
    }

    /// Duration of one packet in 100 microseconds, rounded up.
    pub open spec fn packet_100us(self) -> int {
        ceiling(self.frames_per_packet * 1_280_000, SAMPLE_RATE as int)
    }
}

proof fn lemma_tone_packets(frames: int)
    requires
        1 <= frames <= 5,
    ensures
        1 <= tone_packets(frames) <= 1723,
{
    assert(frames == 1 || frames == 2 || frames == 3 || frames == 4 || frames == 5);
}

impl TonePacketizer {
    pub fn new(mtu: u16, bitpool: u8) -> (packetizer: Result<Self, MediaError>)
        ensures
            ({
                let length = sbc_frame_length(bitpool) as int;
                match packetizer {
                    Err(error) => if error == MediaError::Codec {
                        !bitpool_supported(bitpool)
                    } else {
                        &&& error == MediaError::Mtu
                        &&& bitpool_supported(bitpool)
                        &&& packet_size(1, length) > packet_limit(mtu)
                    },
                    Ok(packetizer) => {
                        &&& bitpool_supported(bitpool)
                        &&& packet_size(1, length) <= packet_limit(mtu)
                        &&& 13 + packetizer@.frames_per_packet * packetizer@.frame_length <= mtu
                        &&& 13 + packetizer@.frames_per_packet * packetizer@.frame_length <= 672
                        &&& packetizer@.frames_per_packet == 5 || 13 + (
                        packetizer@.frames_per_packet + 1) * packetizer@.frame_length > mtu || 13
                            + (packetizer@.frames_per_packet + 1) * packetizer@.frame_length > 672
                        &&& packetizer@.on_track()
                        &&& packetizer@ == ToneView::fresh(
                            frames_within(
                                packet_limit(mtu),
                                length,
                                MAX_FRAMES_PER_PACKET as int,
                            ),
                            bitpool,
                        )
                    },
                }
            }),
    {
        let (frames, length) = plan_packets(mtu, bitpool)?;
        proof {
            law_packets_are_as_full_as_the_channel_takes(mtu, bitpool);
        }
        let packet_samples = frames as u32 * FRAME_SAMPLES;
        proof {
            lemma_tone_packets(frames as int);
        }
        let packets_target = (TONE_SECONDS * SAMPLE_RATE + (packet_samples - 1)) / packet_samples;
        Ok(
            TonePacketizer {
                sequence: 1,
                timestamp: 0,
                packets_sent: 0,
                frames_sent: 0,
                packets_target,
                frames_per_packet: frames,
                bitpool,
                frame_length: length,
                pace_remainder: 0,
            },
        )
    }

    /// All that the packetizer holds.
    pub fn snapshot(&self) -> (snapshot: ToneView)
        ensures
            snapshot == self@,
    {
        ToneView {
            sequence: self.sequence,
            timestamp: self.timestamp,
            packets_sent: self.packets_sent,
            frames_sent: self.frames_sent,
            packets_target: self.packets_target,
            frames_per_packet: self.frames_per_packet,
            bitpool: self.bitpool,
            frame_length: self.frame_length,
            pace_remainder: self.pace_remainder,
        }
    }

    pub fn is_complete(&self) -> (complete: bool)
        ensures
            complete == self@.complete(),
    {
        self.packets_sent >= self.packets_target
    }

    /// Writes the next packet of the tone. `frame` is the encoded frame of the tone for the
    /// bitpool in use; one of another length is refused.
    pub fn write_packet(&mut self, out: &mut [u8], frame: &[u8]) -> (length: Result<
        usize,
        MediaError,
    >)
        requires
            old(self)@.wf(),
            old(self)@.can_write(old(out)@.len(), frame@) ==> old(self)@.frames_sent
                + old(self)@.frames_per_packet <= u32::MAX,
        ensures
            final(self)@.wf(),
            old(self)@.writes_packet(frame@, old(out)@, length, final(self)@, final(out)@),
            length is Ok ==> old(self)@.packet(frame@).len() == old(self)@.size(),
    {
        if self.is_complete() {
            return Err(MediaError::Complete);
        }
        let frame_length = self.frame_length as usize;
        let frames = self.frames_per_packet as usize;
        assert(1 <= frames * frame_length <= 5 * 118) by (nonlinear_arith)
            requires
                1 <= frames <= 5,
                1 <= frame_length <= 118,
        ;
        let length = 13 + frames * frame_length;
        if out.len() < length {
            return Err(MediaError::Buffer);
        }
        if frame.len() != frame_length {
            return Err(MediaError::Codec);
        }
        let ghost before = out@;
        let ghost header = packet_header(
            self.sequence,
            self.timestamp,
            self.frames_per_packet,
            self.packets_sent == 0,
        );
        put_header(
            out,
            self.sequence,
            self.timestamp,
            self.frames_per_packet,
            self.packets_sent == 0,
        );
        let total = out.len();
        let mut written: usize = 0;
        assert(header.len() == 13);
        assert(header + repeated(frame@, 0) =~= header);
        while written < frames
            invariant
                written <= frames <= 5,
                frame@.len() == frame_length <= 118,
                length == 13 + frames * frame_length,
                length <= total,
                total == before.len(),
                header.len() == 13,
                repeated(frame@, written as nat).len() == written * frame_length,
                out@ == with_head(before, header + repeated(frame@, written as nat)),
            decreases frames - written,
        {
            proof {
                assert((written + 1) * frame_length == written * frame_length + frame_length)
                    by (nonlinear_arith);
                assert((written + 1) * frame_length <= frames * frame_length) by (nonlinear_arith)
                    requires
                        written + 1 <= frames,
                ;
                assert(written * frame_length <= 5 * 118) by (nonlinear_arith)
                    requires
                        written <= 5,
                        frame_length <= 118,
                ;
            }
            copy_at(out, 13 + written * frame_length, frame);
            written += 1;
            assert(out@ =~= with_head(before, header + repeated(frame@, written as nat)));
        }
        self.packets_sent = self.packets_sent + 1;
        self.frames_sent = self.frames_sent + self.frames_per_packet as u32;
        self.sequence = self.sequence.wrapping_add(1);
        self.timestamp = self.timestamp.wrapping_add(
            self.frames_per_packet as u32 * FRAME_SAMPLES,
        );
        Ok(length)
    }

    /// Milliseconds until the next packet is due.
    pub fn next_delay_ms(&mut self) -> (delay: u32)
        requires
            old(self)@.wf(),
        ensures
            final(self)@.wf(),
            delay == pace_delay(
                old(self)@.pace_remainder as int,
                old(self)@.frames_per_packet as int,
            ),
            final(self)@ == old(self)@.paced(1),
            delay <= 20,
    {
        proof {
            reveal_with_fuel(pace_remainders, 2);
        }
        let timing = self.pace_remainder + self.frames_per_packet as u32 * 128_000;
        let whole = timing / SAMPLE_RATE;
        self.pace_remainder = timing % SAMPLE_RATE;
        if whole < 1 {
            1
        } else {
            whole
        }
    }

    /// Packets to queue at the start, so that a sink can fill its presentation buffer before it
    /// renders anything: enough for the delay that it reported, up to a cap.
    pub fn startup_packets(&self, reported_delay_100us: u16) -> (packets: u8)
        requires
            self@.wf(),
        ensures
            packets == self@.startup(reported_delay_100us),
            1 <= packets <= MAX_STARTUP_PACKETS,
    {
        let delay: u32 = if reported_delay_100us == 0 {
            DEFAULT_SINK_DELAY_100US as u32
        } else {
            reported_delay_100us as u32
        };
        let packet_100us = (self.frames_per_packet as u32 * 1_280_000 + (SAMPLE_RATE - 1))
            / SAMPLE_RATE;
        let wanted = (delay + (packet_100us - 1)) / packet_100us;
        proof {
            assert(wanted >= 1) by (nonlinear_arith)
                requires
                    wanted == (delay + (packet_100us - 1)) / packet_100us as int,
                    delay >= 1,
                    packet_100us >= 1,
            ;
        }
        if wanted > MAX_STARTUP_PACKETS as u32 {
            MAX_STARTUP_PACKETS
        } else {
            wanted as u8
        }
    }

    /// Pause after the packets of the start, until all but one of them have been played.
    pub fn startup_catchup_delay_ms(&mut self, packets: u8) -> (delay: u32)
        requires
            old(self)@.wf(),
        ensures
            final(self)@.wf(),
            ({
                let waits = ToneView::catching_up(packets);
                &&& delay == pace_delays(
                    old(self)@.pace_remainder as int,
                    old(self)@.frames_per_packet as int,
                    waits,
                )
                &&& final(self)@ == old(self)@.paced(waits)
            }),
    {
        proof {
            reveal_with_fuel(pace_remainders, 2);
            reveal_with_fuel(pace_delays, 2);
        }
        if packets <= 1 {
            return self.next_delay_ms();
        }
        let mut delay: u32 = 0;
        let mut waited: u8 = 0;
        while waited < packets - 1
            invariant
                1 < packets,
                waited <= packets - 1,
                delay <= 20 * waited,
                old(self)@.wf(),
                self@.wf(),
                delay == pace_delays(
                    old(self)@.pace_remainder as int,
                    old(self)@.frames_per_packet as int,
                    waited as nat,
                ),
                self@ == old(self)@.paced(waited as nat),
                self@.pace_remainder == pace_remainders(
                    old(self)@.pace_remainder as int,
                    old(self)@.frames_per_packet as int,
                    waited as nat,
                ),
            decreases packets - waited,
        {
            proof {
                reveal_with_fuel(pace_remainders, 2);
            }
            delay += self.next_delay_ms();
            waited += 1;
        }
        delay
    }

    /// Wait for the end of the tone: the delay of the sink, capped, and the last packet.
    pub fn presentation_drain_delay_ms(&mut self, reported_delay_100us: u16) -> (delay: u32)
        requires
            old(self)@.wf(),
        ensures
            final(self)@.wf(),
            delay == old(self)@.drain_delay(reported_delay_100us),
            final(self)@ == old(self)@.paced(1),
    {
        let reported: u32 = if reported_delay_100us == 0 {
            DEFAULT_SINK_DELAY_100US as u32
        } else {
            reported_delay_100us as u32
        };
        let capped: u32 = if reported < 5_000 {
            reported
        } else {
            5_000
        };
        (capped + 9) / 10 + self.next_delay_ms()
    }
}

/// Pacing does not drift: the delays of any number of packets, together with what is left over,
/// add up to the time that the packets last, to the last fraction of a millisecond.
pub proof fn law_pacing_does_not_drift(remainder: int, frames: int, packets: nat)
    requires
        0 <= remainder < SAMPLE_RATE,
        1 <= frames,
    ensures
        pace_delays(remainder, frames, packets) * SAMPLE_RATE + pace_remainders(
            remainder,
            frames,
            packets,
        ) == remainder + packets * duration(frames),
        0 <= pace_remainders(remainder, frames, packets) < SAMPLE_RATE,
    decreases packets,
{
    if packets == 0 {
        assert(packets * duration(frames) == 0) by (nonlinear_arith)
            requires
                packets == 0,
        ;
    } else {
        let before = (packets - 1) as nat;
        law_pacing_does_not_drift(remainder, frames, before);
        law_a_delay_is_the_time_of_its_packet(pace_remainders(remainder, frames, before), frames);
        assert(packets * duration(frames) == before * duration(frames) + duration(frames))
            by (nonlinear_arith)
            requires
                packets == before + 1,
        ;
    }
}

/// Delay of packets in a row, each with its own number of frames.
pub open spec fn stream_delay(remainder: int, packets: Seq<u8>) -> int
    decreases packets.len(),
{
    if packets.len() == 0 {
        0
    } else {
        stream_delay(remainder, packets.drop_last()) + pace_delay(
            stream_remainder(remainder, packets.drop_last()),
            packets.last() as int,
        )
    }
}

pub open spec fn stream_remainder(remainder: int, packets: Seq<u8>) -> int
    decreases packets.len(),
{
    if packets.len() == 0 {
        remainder
    } else {
        pace_remainder(stream_remainder(remainder, packets.drop_last()), packets.last() as int)
    }
}

/// Frames of packets in a row.
pub open spec fn stream_frames(packets: Seq<u8>) -> int
    decreases packets.len(),
{
    if packets.len() == 0 {
        0
    } else {
        stream_frames(packets.drop_last()) + packets.last()
    }
}

/// The same holds of a stream whose packets differ in length: whatever the lengths, the delays and
/// what is left over add up to the time that all the frames last.
pub proof fn law_pacing_of_a_stream_does_not_drift(remainder: int, packets: Seq<u8>)
    requires
        0 <= remainder < SAMPLE_RATE,
        forall|i: int| 0 <= i < packets.len() ==> #[trigger] packets[i] >= 1,
    ensures
        stream_delay(remainder, packets) * SAMPLE_RATE + stream_remainder(remainder, packets)
            == remainder + duration(stream_frames(packets)),
        0 <= stream_remainder(remainder, packets) < SAMPLE_RATE,
    decreases packets.len(),
{
    if packets.len() > 0 {
        law_pacing_of_a_stream_does_not_drift(remainder, packets.drop_last());
        assert(packets[packets.len() - 1] >= 1);
    }
}

/// A tone that is sent from its beginning stays on track with every packet, and its counters never
/// overflow.
pub proof fn law_tone_stays_on_track(tone: ToneView)
    requires
        tone.on_track(),
    ensures
        tone.frames_sent + tone.frames_per_packet <= u32::MAX,
        tone.packets_sent < tone.packets_target ==> tone.advanced().on_track(),
        forall|packets: nat| #[trigger] tone.paced(packets).on_track(),
{
    let frames = tone.frames_per_packet as int;
    lemma_tone_packets(frames);
    assert(tone.packets_sent * frames <= 1723 * 5) by (nonlinear_arith)
        requires
            tone.packets_sent <= 1723,
            1 <= frames <= 5,
    ;
    assert((tone.packets_sent + 1) * frames == tone.packets_sent * frames + frames)
        by (nonlinear_arith);
    assert forall|packets: nat| #[trigger] tone.paced(packets).on_track() by {
        law_pacing_does_not_drift(tone.pace_remainder as int, frames, packets);
    }
}

/// The tone lasts as long as it should, and not one packet longer than that takes.
pub proof fn law_tone_lasts_five_seconds(tone: ToneView)
    requires
        tone.on_track(),
    ensures
        tone.packets_target * (tone.frames_per_packet * 128) >= TONE_SECONDS * SAMPLE_RATE,
        (tone.packets_target - 1) * (tone.frames_per_packet * 128) < TONE_SECONDS * SAMPLE_RATE,
        tone.packets_sent >= tone.packets_target ==> tone.frames_sent * 128 >= TONE_SECONDS
            * SAMPLE_RATE,
{
    law_ceiling(TONE_SECONDS * SAMPLE_RATE, tone.frames_per_packet * 128);
    let sent = tone.packets_sent as int;
    let frames = tone.frames_per_packet as int;
    assert(sent * (frames * 128) == (sent * frames) * 128) by (nonlinear_arith);
}

/// A quotient that is rounded up is the least that suffices.
pub proof fn law_ceiling(a: int, b: int)
    requires
        b > 0,
    ensures
        ceiling(a, b) * b >= a,
        (ceiling(a, b) - 1) * b < a,
{
    let quotient = ceiling(a, b);
    assert(quotient * b >= a && (quotient - 1) * b < a) by (nonlinear_arith)
        requires
            quotient == (a + b - 1) / b,
            b > 0,
    ;
}

/// Successive packets carry successive sequence numbers, and time stamps as far apart as the
/// frames between them last.
pub proof fn law_packets_follow_each_other(stream: StreamView, frames: u8)
    ensures
        stream.sequence < u16::MAX ==> stream.advanced(frames).sequence == stream.sequence + 1,
        stream.sequence == u16::MAX ==> stream.advanced(frames).sequence == 0,
        (stream.advanced(frames).timestamp - stream.timestamp - frames * 128) % 0x1_0000_0000 == 0,
{
}

/// Pacing, one packet at a time: the delay and what is left over are the time of the packet, 128
/// samples for each frame at 44100 samples a second, and what was left over before. Less than a
/// millisecond is left.
pub proof fn law_a_delay_is_the_time_of_its_packet(remainder: int, frames: int)
    requires
        0 <= remainder < 44_100,
        frames >= 0,
    ensures
        frames >= 1 ==> 44_100 * pace_delay(remainder, frames) + pace_remainder(remainder, frames)
            == remainder + frames * 128 * 1000,
        frames >= 1 ==> pace_delay(remainder, frames) >= 2,
        pace_delay(remainder, frames) >= 1,
        0 <= pace_remainder(remainder, frames) < 44_100,
{
}

/// A stream waits as long as its packet lasts, and changes nothing but what is left over.
pub proof fn law_streams_wait_for_their_packets(
    before: StreamView,
    frames: u8,
    delay: u32,
    after: StreamView,
)
    requires
        before.waits(frames, delay, after),
        before.pace_remainder < 44_100,
        frames >= 1,
    ensures
        44_100 * delay + after.pace_remainder == before.pace_remainder + frames * 128 * 1000,
        after.pace_remainder < 44_100,
        after == (StreamView { pace_remainder: after.pace_remainder, ..before }),
{
    law_a_delay_is_the_time_of_its_packet(before.pace_remainder as int, frames as int);
}

/// The headers of a stream's packet: they are written if the packet has at least one frame and no
/// more than it may hold, and all of it fits the buffer. Then exactly thirteen bytes change, and the
/// counters move on by one packet, its frames and their samples.
pub proof fn law_stream_headers(
    before: StreamView,
    frames: u8,
    marker: bool,
    out: Seq<u8>,
    offset: Result<usize, MediaError>,
    after: StreamView,
    out_after: Seq<u8>,
)
    requires
        before.wf(),
        before.writes_header(frames, marker, out, offset, after, out_after),
    ensures
        offset is Ok <==> 1 <= frames <= before.frames_per_packet && 13 + frames
            * before.frame_length <= out.len(),
        offset matches Err(error) ==> error == MediaError::Buffer && after == before && out_after
            == out,
        offset matches Ok(offset) ==> {
            &&& offset == 13
            &&& out_after.len() == out.len()
            &&& out_after[0] == 128
            &&& out_after[1] == (if marker {
                224u8
            } else {
                96u8
            })
            &&& 256 * out_after[2] + out_after[3] == before.sequence
            &&& 0x100_0000 * out_after[4] + 0x1_0000 * out_after[5] + 0x100 * out_after[6]
                + out_after[7] == before.timestamp
            &&& out_after[8] == 0x42 && out_after[9] == 0x54 && out_after[10] == 0x50
                && out_after[11] == 0x36
            &&& out_after[12] == frames
            &&& forall|i: int| 13 <= i < out.len() ==> #[trigger] out_after[i] == out[i]
            &&& (after.sequence - before.sequence - 1) % 0x1_0000 == 0
            &&& (after.timestamp - before.timestamp - 128 * frames) % 0x1_0000_0000 == 0
            &&& (after.packets_sent - before.packets_sent - 1) % 0x1_0000_0000 == 0
            &&& (after.frames_sent - before.frames_sent - frames) % 0x1_0000_0000 == 0
            &&& after.frames_per_packet == before.frames_per_packet
            &&& after.bitpool == before.bitpool
            &&& after.frame_length == before.frame_length
            &&& after.pace_remainder == before.pace_remainder
        },
{
    let header = packet_header(before.sequence, before.timestamp, frames, marker);
    law_packet_header_bytes(before.sequence, before.timestamp, frames, marker);
    if offset is Ok {
        assert(frames * before.frame_length >= 0) by (nonlinear_arith);
        law_the_head_is_replaced(out, header);
        assert(forall|i: int| 0 <= i < 13 ==> #[trigger] out_after[i] == header[i]);
    }
}

proof fn lemma_repeated(frame: Seq<u8>, times: nat, i: int)
    ensures
        repeated(frame, times).len() == times * frame.len(),
        0 <= i < times * frame.len() ==> repeated(frame, times)[i] == frame[i % (
        frame.len() as int)],
    decreases times,
{
    if times == 0 {
        assert(times * frame.len() == 0) by (nonlinear_arith)
            requires
                times == 0,
        ;
    } else {
        let before = (times - 1) as nat;
        let length = frame.len() as int;
        lemma_repeated(frame, before, i);
        assert(times * length == before * length + length) by (nonlinear_arith)
            requires
                times == before + 1,
        ;
        if before * length <= i < times * length {
            let rest = i - before * length;
            vstd::arithmetic::div_mod::lemma_mod_multiples_vanish(before as int, rest, length);
            vstd::arithmetic::div_mod::lemma_small_mod(rest as nat, length as nat);
            assert(length * before == before * length) by (nonlinear_arith);
        }
    }
}

/// A packet of the tone: the first one alone carries the marker, and the frame stands in it as often
/// as it holds frames, one after the other and nothing between them.
pub proof fn law_tone_packets(
    before: ToneView,
    frame: Seq<u8>,
    out: Seq<u8>,
    length: Result<usize, MediaError>,
    after: ToneView,
    out_after: Seq<u8>,
    i: int,
)
    requires
        before.wf(),
        before.writes_packet(frame, out, length, after, out_after),
        before.can_write(out.len(), frame) ==> before.frames_sent + before.frames_per_packet
            <= u32::MAX,
        0 <= i < before.frames_per_packet * before.frame_length,
    ensures
        ({
            let size = 13 + before.frames_per_packet * before.frame_length;
            let over = before.packets_sent >= before.packets_target;
            &&& length == Err::<usize, MediaError>(MediaError::Complete) <==> over
            &&& length == Err::<usize, MediaError>(MediaError::Buffer) <==> !over && out.len() < size
            &&& length == Err::<usize, MediaError>(MediaError::Codec) <==> !over && out.len() >= size
                && frame.len() != before.frame_length
            &&& length is Ok <==> !over && out.len() >= size && frame.len() == before.frame_length
            &&& length is Err ==> after == before && out_after == out
            &&& length matches Ok(length) ==> {
                &&& length == size
                &&& out_after.len() == out.len()
                &&& out_after[1] == (if before.packets_sent == 0 {
                    224u8
                } else {
                    96u8
                })
                &&& 256 * out_after[2] + out_after[3] == before.sequence
                &&& 0x100_0000 * out_after[4] + 0x1_0000 * out_after[5] + 0x100 * out_after[6]
                    + out_after[7] == before.timestamp
                &&& out_after[12] == before.frames_per_packet
                &&& out_after[13 + i] == frame[i % (before.frame_length as int)]
                &&& forall|k: int| size <= k < out.len() ==> #[trigger] out_after[k] == out[k]
                &&& after.packets_sent == before.packets_sent + 1
                &&& after.frames_sent == before.frames_sent + before.frames_per_packet
                &&& (after.sequence - before.sequence - 1) % 0x1_0000 == 0
                &&& (after.timestamp - before.timestamp - 128 * before.frames_per_packet)
                    % 0x1_0000_0000 == 0
                &&& after == (ToneView {
                    packets_sent: after.packets_sent,
                    frames_sent: after.frames_sent,
                    sequence: after.sequence,
                    timestamp: after.timestamp,
                    ..before
                })
            }
        }),
{
    let header = packet_header(
        before.sequence,
        before.timestamp,
        before.frames_per_packet,
        before.packets_sent == 0,
    );
    law_packet_header_bytes(
        before.sequence,
        before.timestamp,
        before.frames_per_packet,
        before.packets_sent == 0,
    );
    if length is Ok {
        let body = repeated(frame, before.frames_per_packet as nat);
        lemma_repeated(frame, before.frames_per_packet as nat, i);
        law_the_head_is_replaced(out, header + body);
        assert(forall|k: int| 0 <= k < 13 ==> #[trigger] out_after[k] == header[k]);
        assert(out_after[13 + i] == body[i]);
    }
}

/// The whole tone: as many packets as five seconds at 44100 samples a second take, and no more.
pub proof fn law_tone_length(frames_per_packet: int)
    requires
        1 <= frames_per_packet <= 5,
    ensures
        tone_packets(frames_per_packet) * frames_per_packet * 128 >= 220_500,
        (tone_packets(frames_per_packet) - 1) * frames_per_packet * 128 < 220_500,
{
    assert(frames_per_packet == 1 || frames_per_packet == 2 || frames_per_packet == 3
        || frames_per_packet == 4 || frames_per_packet == 5);
}

/// A new tone or stream begins with sequence number one and time zero, and with nothing sent.
pub proof fn law_packetizers_begin_at_the_beginning(frames_per_packet: int, bitpool: u8)
    requires
        1 <= frames_per_packet <= 5,
        27 <= bitpool <= 53,
    ensures
        ({
            let stream = StreamView::fresh(frames_per_packet, bitpool);
            let tone = ToneView::fresh(frames_per_packet, bitpool);
            &&& stream.sequence == 1 && tone.sequence == 1
            &&& stream.timestamp == 0 && tone.timestamp == 0
            &&& stream.packets_sent == 0 && tone.packets_sent == 0
            &&& stream.frames_sent == 0 && tone.frames_sent == 0
            &&& stream.pace_remainder == 0 && tone.pace_remainder == 0
            &&& stream.frames_per_packet == frames_per_packet && tone.frames_per_packet
                == frames_per_packet
            &&& stream.bitpool == bitpool && tone.bitpool == bitpool
            &&& stream.frame_length == 12 + 2 * bitpool && tone.frame_length == 12 + 2 * bitpool
            &&& tone.packets_target == tone_packets(frames_per_packet)
        }),
{
    lemma_tone_packets(frames_per_packet);
}

/// The packets of the start cover the delay of the sink, or 150 milliseconds if it reported none,
/// and one packet fewer would not; but there are at most sixteen.
pub proof fn law_startup_covers_the_delay(tone: ToneView, reported_delay_100us: u16)
    requires
        tone.wf(),
    ensures
        ({
            let delay = if reported_delay_100us == 0 {
                1500
            } else {
                reported_delay_100us as int
            };
            let packets = tone.startup(reported_delay_100us);
            let unit = tone.packet_100us();
            &&& unit * 44_100 >= tone.frames_per_packet * 128 * 10_000
            &&& (unit - 1) * 44_100 < tone.frames_per_packet * 128 * 10_000
            &&& 1 <= packets <= 16
            &&& packets * unit >= delay || packets == 16
            &&& (packets - 1) * unit < delay
        }),
{
    let delay = sink_delay(reported_delay_100us);
    let unit = tone.packet_100us();
    let wanted = ceiling(delay, unit);
    law_ceiling(tone.frames_per_packet * 1_280_000, SAMPLE_RATE as int);
    law_ceiling(delay, unit);
    assert(wanted >= 1) by (nonlinear_arith)
        requires
            wanted * unit >= delay,
            delay >= 1,
            unit >= 1,
    ;
    if wanted > 16 {
        assert(15 * unit <= (wanted - 1) * unit) by (nonlinear_arith)
            requires
                wanted > 16,
                unit >= 1,
        ;
    }
}

/// After the start all but one of its packets are waited for, and at least one.
pub proof fn law_catching_up_leaves_one_packet(packets: u8)
    ensures
        packets >= 2 ==> ToneView::catching_up(packets) == packets - 1,
        packets < 2 ==> ToneView::catching_up(packets) == 1,
{
}

/// The end of the tone is waited for as long as the sink delays it, in milliseconds and at most half
/// a second, and one packet more.
pub proof fn law_draining_waits_for_the_sink(tone: ToneView, reported_delay_100us: u16)
    requires
        tone.wf(),
    ensures
        ({
            let delay = if reported_delay_100us == 0 {
                1500
            } else if reported_delay_100us < 5000 {
                reported_delay_100us as int
            } else {
                5000
            };
            let rest = tone.drain_delay(reported_delay_100us) - pace_delay(
                tone.pace_remainder as int,
                tone.frames_per_packet as int,
            );
            &&& rest * 10 >= delay
            &&& (rest - 1) * 10 < delay
        }),
{
}

/// A tone is complete when its last packet has been sent: then no buffer and no frame will do, and
/// until then there are some that will.
pub proof fn law_a_tone_is_complete_after_its_last_packet(tone: ToneView, frame: Seq<u8>, room: nat)
    ensures
        tone.complete() ==> !tone.can_write(room, frame),
        !tone.complete() && frame.len() == tone.frame_length && room >= 13 + tone.frames_per_packet
            * tone.frame_length ==> tone.can_write(room, frame),
        tone.packets_sent < tone.packets_target <==> !tone.complete(),
{
}

} // verus!
