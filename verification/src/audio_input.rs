//! The endpoint that takes compressed audio from one client at a time and hands it to the player.
//!
//! Control operations are guarded by a lock; a control operation that finds it taken is refused
//! as busy. Each change of what is played starts a new generation, and work that was begun for an
//! older one has no effect.

use vstd::prelude::*;

use crate::bytes::with_head;
pub use crate::input_ring::InputRing;
use crate::input_ring::{ring_capacity, smaller};

verus! {

pub const ABI_VERSION: u32 = 1;

pub const FORMAT_MP3: u32 = 1;

pub const FORMAT_PCM_S16LE: u32 = 2;

pub const VOLUME_DEFAULT: u32 = 100;

pub const VOLUME_MAX: u32 = 100;

pub const STATE_CLOSED: u32 = 0;

pub const STATE_IDLE: u32 = 1;

pub const STATE_CONFIGURED: u32 = 2;

pub const STATE_BUFFERING: u32 = 3;

pub const STATE_PLAYING: u32 = 4;

pub const STATE_PAUSED: u32 = 5;

pub const STATE_DRAINING: u32 = 6;

pub const STATE_STOPPED: u32 = 7;

pub const STATE_ERROR: u32 = 8;

/// Bytes of a `FormatV1`: eight words.
pub const FORMAT_V1_SIZE: u32 = 32;

/// Bytes of a `StatusV1`: eighteen words.
pub const STATUS_V1_SIZE: u32 = 72;

#[derive(Copy, Clone, Debug, PartialEq, Eq, Structural)]
pub enum InputError {
    Busy,
    Invalid,
    Again,
    Pipe,
    Io,
}

impl InputError {
    pub open spec fn code(self) -> int {
        match self {
            InputError::Busy => -16,
            InputError::Invalid => -22,
            InputError::Again => -11,
            InputError::Pipe => -32,
            InputError::Io => -5,
        }
    }

    pub fn errno(self) -> (code: i32)
        ensures
            code == self.code(),
    {
        match self {
            InputError::Busy => -16,
            InputError::Invalid => -22,
            InputError::Again => -11,
            InputError::Pipe => -32,
            InputError::Io => -5,
        }
    }
}

#[derive(Copy, Clone, Debug, Default, PartialEq, Eq)]
pub struct FormatV1 {
    pub struct_size: u32,
    pub format: u32,
    pub sample_rate_hint: u32,
    pub channels_hint: u32,
    pub flags: u32,
    pub reserved: [u32; 3],
}

impl FormatV1 {
    /// The one kind of request that is understood: MP3, with at most two channels, no flags and
    /// nothing in the reserved words.
    pub open spec fn acceptable(self) -> bool {
        &&& self.struct_size == FORMAT_V1_SIZE
        &&& self.format == FORMAT_MP3
        &&& self.channels_hint <= 2
        &&& self.flags == 0
        &&& self.reserved@ == seq![0u32, 0u32, 0u32]
    }

    fn is_acceptable(&self) -> (acceptable: bool)
        ensures
            acceptable == self.acceptable(),
    {
        let clear = self.reserved[0] == 0 && self.reserved[1] == 0 && self.reserved[2] == 0;
        assert(clear ==> self.reserved@ =~= seq![0u32, 0u32, 0u32]);
        assert(self.reserved@ == seq![0u32, 0u32, 0u32] ==> clear);
        self.struct_size == FORMAT_V1_SIZE && self.format == FORMAT_MP3 && self.channels_hint <= 2
            && self.flags == 0 && clear
    }
}

#[derive(Copy, Clone, Debug, Default, PartialEq, Eq, Structural)]
pub struct StatusV1 {
    pub struct_size: u32,
    pub abi_version: u32,
    pub state: u32,
    pub last_error: i32,
    pub format: u32,
    pub input_capacity: u32,
    pub input_used: u32,
    pub input_free: u32,
    pub decoded_sample_rate: u32,
    pub decoded_channels: u32,
    pub negotiated_bitpool: u32,
    pub bytes_accepted: u32,
    pub bytes_consumed: u32,
    pub pcm_frames: u32,
    pub rtp_packets: u32,
    pub underruns: u32,
    pub generation: u32,
    pub volume_percent: u32,
}

/// A counter after `more` events; counters wrap.
pub open spec fn counted(counter: u32, more: int) -> u32 {
    ((counter + more) % 0x1_0000_0000) as u32
}

pub struct AudioInput<const N: usize> {
    pub ring: InputRing<N>,
    opened: bool,
    control_lock: bool,
    state: u32,
    format: u32,
    sample_rate_hint: u32,
    channels_hint: u32,
    last_error: i32,
    generation: u32,
    decoded_sample_rate: u32,
    decoded_channels: u32,
    negotiated_bitpool: u32,
    bytes_accepted: u32,
    bytes_consumed: u32,
    pcm_frames: u32,
    rtp_packets: u32,
    underruns: u32,
    volume_percent: u32,
}

/// What an `AudioInput` holds.
#[verifier::ext_equal]
pub struct InputView {
    pub queued: Seq<u8>,
    pub opened: bool,
    pub locked: bool,
    pub state: u32,
    pub format: u32,
    pub sample_rate_hint: u32,
    pub channels_hint: u32,
    pub last_error: i32,
    pub generation: u32,
    pub decoded_sample_rate: u32,
    pub decoded_channels: u32,
    pub negotiated_bitpool: u32,
    pub bytes_accepted: u32,
    pub bytes_consumed: u32,
    pub pcm_frames: u32,
    pub rtp_packets: u32,
    pub underruns: u32,
    pub volume_percent: u32,
}

/// A control operation: it is refused while the lock is held or for the reason given, and then
/// changes nothing; otherwise `changed` is what it leaves.
pub open spec fn controlled(
    before: InputView,
    refusal: Option<InputError>,
    changed: InputView,
    result: Result<(), InputError>,
    after: InputView,
) -> bool {
    match if before.locked {
        Some(InputError::Busy)
    } else {
        refusal
    } {
        Some(error) => result == Err::<(), InputError>(error) && after == before,
        None => result == Ok::<(), InputError>(()) && after == changed,
    }
}

impl InputView {
    pub open spec fn closed_endpoint() -> InputView {
        InputView {
            queued: Seq::empty(),
            opened: false,
            locked: false,
            state: STATE_CLOSED,
            format: 0,
            sample_rate_hint: 0,
            channels_hint: 0,
            last_error: 0,
            generation: 1,
            decoded_sample_rate: 0,
            decoded_channels: 0,
            negotiated_bitpool: 0,
            bytes_accepted: 0,
            bytes_consumed: 0,
            pcm_frames: 0,
            rtp_packets: 0,
            underruns: 0,
            volume_percent: VOLUME_DEFAULT,
        }
    }

    pub open spec fn with_counters_reset(self) -> InputView {
        InputView {
            bytes_accepted: 0,
            bytes_consumed: 0,
            pcm_frames: 0,
            rtp_packets: 0,
            underruns: 0,
            ..self
        }
    }

    /// Nothing is known of what is being decoded.
    pub open spec fn with_playback_reset(self, state: u32) -> InputView {
        InputView {
            generation: counted(self.generation, 1),
            last_error: 0,
            decoded_sample_rate: 0,
            decoded_channels: 0,
            negotiated_bitpool: 0,
            state,
            ..self
        }
    }

    /// A new generation begins, with nothing queued.
    pub open spec fn invalidated(self, state: u32) -> InputView {
        InputView { queued: Seq::empty(), ..self.with_playback_reset(state) }
    }

    pub open spec fn with_format(self, format: u32, sample_rate: u32, channels: u32) -> InputView {
        InputView { format, sample_rate_hint: sample_rate, channels_hint: channels, ..self }
    }

    pub open spec fn refusal_to_open(self) -> Option<InputError> {
        if self.opened {
            Some(InputError::Busy)
        } else {
            None
        }
    }

    pub open spec fn opening(self) -> InputView {
        InputView {
            opened: true,
            volume_percent: VOLUME_DEFAULT,
            ..self.with_format(0, 0, 0).with_counters_reset().invalidated(STATE_IDLE)
        }
    }

    pub open spec fn closing(self) -> InputView {
        InputView { opened: false, ..self.invalidated(STATE_CLOSED).with_format(0, 0, 0) }
    }

    pub open spec fn refusal_of_format(self, format: FormatV1) -> Option<InputError> {
        if !self.opened || !format.acceptable() {
            Some(InputError::Invalid)
        } else if self.state != STATE_IDLE && self.state != STATE_CONFIGURED && self.state
            != STATE_STOPPED {
            Some(InputError::Busy)
        } else {
            None
        }
    }

    pub open spec fn configuring(self, format: FormatV1) -> InputView {
        self.with_counters_reset().invalidated(STATE_CONFIGURED).with_format(
            format.format,
            format.sample_rate_hint,
            format.channels_hint,
        )
    }

    pub open spec fn refusal_to_start(self) -> Option<InputError> {
        if self.format == FORMAT_MP3 && (self.state == STATE_CONFIGURED || self.state
            == STATE_STOPPED) {
            None
        } else {
            Some(InputError::Invalid)
        }
    }

    /// What was written before the start stays queued.
    pub open spec fn starting(self) -> InputView {
        self.with_playback_reset(STATE_BUFFERING)
    }

    pub open spec fn refusal_to_pause(self) -> Option<InputError> {
        if self.state == STATE_BUFFERING || self.state == STATE_PLAYING {
            None
        } else {
            Some(InputError::Invalid)
        }
    }

    pub open spec fn refusal_to_resume(self) -> Option<InputError> {
        if self.state == STATE_PAUSED {
            None
        } else {
            Some(InputError::Invalid)
        }
    }

    pub open spec fn refusal_to_stop(self) -> Option<InputError> {
        if self.opened {
            None
        } else {
            Some(InputError::Pipe)
        }
    }

    pub open spec fn refusal_to_flush(self) -> Option<InputError> {
        if self.format != 0 {
            None
        } else {
            Some(InputError::Pipe)
        }
    }

    pub open spec fn refusal_to_drain(self) -> Option<InputError> {
        if self.state == STATE_BUFFERING || self.state == STATE_PLAYING || self.state
            == STATE_PAUSED {
            None
        } else {
            Some(InputError::Invalid)
        }
    }

    pub open spec fn in_state(self, state: u32) -> InputView {
        InputView { state, ..self }
    }

    pub open spec fn refusal_to_write(self) -> Option<InputError> {
        if !self.opened || self.format == 0 || self.state == STATE_DRAINING || self.state
            == STATE_CLOSED || self.state == STATE_IDLE {
            Some(InputError::Pipe)
        } else if self.state == STATE_ERROR {
            Some(InputError::Io)
        } else {
            None
        }
    }

    pub open spec fn accepting(self, bytes: Seq<u8>) -> InputView {
        InputView {
            queued: self.queued + bytes,
            bytes_accepted: counted(self.bytes_accepted, bytes.len() as int),
            ..self
        }
    }

    pub open spec fn consuming(self, count: int) -> InputView {
        InputView {
            queued: self.queued.skip(count),
            bytes_consumed: counted(self.bytes_consumed, count),
            ..self
        }
    }

    pub open spec fn playing(
        self,
        generation: u32,
        sample_rate: u32,
        channels: u32,
        bitpool: u32,
    ) -> InputView {
        if self.generation != generation {
            self
        } else {
            InputView {
                decoded_sample_rate: sample_rate,
                decoded_channels: channels,
                negotiated_bitpool: bitpool,
                state: if self.state == STATE_DRAINING {
                    STATE_DRAINING
                } else {
                    STATE_PLAYING
                },
                ..self
            }
        }
    }

    pub open spec fn with_pcm_frames(self, generation: u32, frames: u32) -> InputView {
        if self.generation != generation {
            self
        } else {
            InputView { pcm_frames: counted(self.pcm_frames, frames as int), ..self }
        }
    }

    pub open spec fn with_rtp_packets(self, generation: u32, packets: u32) -> InputView {
        if self.generation != generation {
            self
        } else {
            InputView { rtp_packets: counted(self.rtp_packets, packets as int), ..self }
        }
    }

    pub open spec fn underrun(self, generation: u32) -> InputView {
        if self.generation != generation {
            self
        } else {
            InputView {
                underruns: counted(self.underruns, 1),
                state: if self.state == STATE_DRAINING {
                    STATE_DRAINING
                } else {
                    STATE_BUFFERING
                },
                ..self
            }
        }
    }

    pub open spec fn drained(self, generation: u32, pipeline_empty: bool) -> InputView {
        if self.generation == generation && pipeline_empty && self.state == STATE_DRAINING
            && self.queued.len() == 0 {
            self.in_state(STATE_STOPPED)
        } else {
            self
        }
    }

    pub open spec fn failed(self, generation: u32, error: i32) -> InputView {
        if self.generation != generation {
            self
        } else {
            InputView { last_error: error, state: STATE_ERROR, ..self }
        }
    }

    pub open spec fn opens(self, result: Result<(), InputError>, after: InputView) -> bool {
        controlled(self, self.refusal_to_open(), self.opening(), result, after)
    }

    pub open spec fn closes(self, result: Result<(), InputError>, after: InputView) -> bool {
        controlled(self, None, self.closing(), result, after)
    }

    pub open spec fn takes_format(
        self,
        format: FormatV1,
        result: Result<(), InputError>,
        after: InputView,
    ) -> bool {
        controlled(
            self,
            self.refusal_of_format(format),
            self.configuring(format),
            result,
            after,
        )
    }

    pub open spec fn starts(self, result: Result<(), InputError>, after: InputView) -> bool {
        controlled(self, self.refusal_to_start(), self.starting(), result, after)
    }

    pub open spec fn pauses(self, result: Result<(), InputError>, after: InputView) -> bool {
        controlled(self, self.refusal_to_pause(), self.in_state(STATE_PAUSED), result, after)
    }

    pub open spec fn resumes(self, result: Result<(), InputError>, after: InputView) -> bool {
        controlled(self, self.refusal_to_resume(), self.in_state(STATE_BUFFERING), result, after)
    }

    pub open spec fn stops(self, result: Result<(), InputError>, after: InputView) -> bool {
        controlled(self, self.refusal_to_stop(), self.invalidated(STATE_STOPPED), result, after)
    }

    pub open spec fn flushes(self, result: Result<(), InputError>, after: InputView) -> bool {
        controlled(self, self.refusal_to_flush(), self.invalidated(STATE_CONFIGURED), result, after)
    }

    pub open spec fn drains(self, result: Result<(), InputError>, after: InputView) -> bool {
        controlled(self, self.refusal_to_drain(), self.in_state(STATE_DRAINING), result, after)
    }

    /// `input` is offered to an endpoint whose queue holds `capacity` bytes.
    pub open spec fn takes_input(
        self,
        capacity: int,
        input: Seq<u8>,
        result: Result<usize, InputError>,
        after: InputView,
    ) -> bool {
        let count = smaller(input.len() as int, capacity - self.queued.len());
        match self.refusal_to_write() {
            Some(error) => result == Err::<usize, InputError>(error) && after == self,
            None if count == 0 && input.len() > 0 => {
                &&& result == Err::<usize, InputError>(InputError::Again)
                &&& after == self
            },
            None => {
                &&& result == Ok::<usize, InputError>(count as usize)
                &&& after == self.accepting(input.take(count))
            },
        }
    }

    /// The player asks for as many bytes as `output` holds.
    pub open spec fn gives_output(
        self,
        output: Seq<u8>,
        count: usize,
        after: InputView,
        output_after: Seq<u8>,
    ) -> bool {
        &&& count == smaller(output.len() as int, self.queued.len() as int)
        &&& after == self.consuming(count as int)
        &&& output_after == with_head(output, self.queued.take(count as int))
    }

    pub open spec fn takes_volume(
        self,
        volume_percent: u32,
        result: Result<(), InputError>,
        after: InputView,
    ) -> bool {
        if !self.opened || volume_percent > VOLUME_MAX {
            &&& result == Err::<(), InputError>(InputError::Invalid)
            &&& after == self
        } else {
            &&& result == Ok::<(), InputError>(())
            &&& after == (InputView { volume_percent, ..self })
        }
    }

    /// What the decoder found agrees with what the client announced, as far as it announced
    /// anything.
    pub open spec fn hints_allow(self, sample_rate: u32, channels: u32) -> bool {
        &&& self.sample_rate_hint == 0 || self.sample_rate_hint == sample_rate
        &&& self.channels_hint == 0 || self.channels_hint == channels
    }

    pub open spec fn status(self, capacity: nat) -> StatusV1 {
        StatusV1 {
            struct_size: STATUS_V1_SIZE,
            abi_version: ABI_VERSION,
            state: self.state,
            last_error: self.last_error,
            format: self.format,
            input_capacity: capacity as u32,
            input_used: self.queued.len() as u32,
            input_free: (capacity - self.queued.len()) as u32,
            decoded_sample_rate: self.decoded_sample_rate,
            decoded_channels: self.decoded_channels,
            negotiated_bitpool: self.negotiated_bitpool,
            bytes_accepted: self.bytes_accepted,
            bytes_consumed: self.bytes_consumed,
            pcm_frames: self.pcm_frames,
            rtp_packets: self.rtp_packets,
            underruns: self.underruns,
            generation: self.generation,
            volume_percent: self.volume_percent,
        }
    }
}

impl<const N: usize> View for AudioInput<N> {
    type V = InputView;

    closed spec fn view(&self) -> InputView {
        InputView {
            queued: self.ring@,
            opened: self.opened,
            locked: self.control_lock,
            state: self.state,
            format: self.format,
            sample_rate_hint: self.sample_rate_hint,
            channels_hint: self.channels_hint,
            last_error: self.last_error,
            generation: self.generation,
            decoded_sample_rate: self.decoded_sample_rate,
            decoded_channels: self.decoded_channels,
            negotiated_bitpool: self.negotiated_bitpool,
            bytes_accepted: self.bytes_accepted,
            bytes_consumed: self.bytes_consumed,
            pcm_frames: self.pcm_frames,
            rtp_packets: self.rtp_packets,
            underruns: self.underruns,
            volume_percent: self.volume_percent,
        }
    }
}

impl<const N: usize> Default for AudioInput<N> {
    fn default() -> (input: Self)
        ensures
            ring_capacity(N as int) ==> input.wf(),
            input@ == InputView::closed_endpoint(),
    {
        AudioInput {
            ring: InputRing::default(),
            opened: false,
            control_lock: false,
            state: STATE_CLOSED,
            format: 0,
            sample_rate_hint: 0,
            channels_hint: 0,
            last_error: 0,
            generation: 1,
            decoded_sample_rate: 0,
            decoded_channels: 0,
            negotiated_bitpool: 0,
            bytes_accepted: 0,
            bytes_consumed: 0,
            pcm_frames: 0,
            rtp_packets: 0,
            underruns: 0,
            volume_percent: VOLUME_DEFAULT,
        }
    }
}

impl<const N: usize> AudioInput<N> {
    /// The ring is sound, the state is one of those above and the volume is a percentage.
    pub closed spec fn wf(&self) -> bool {
        &&& self.ring.wf()
        &&& self.state <= STATE_ERROR
        &&& self.volume_percent <= VOLUME_MAX
    }

    pub fn new() -> (input: Self)
        requires
            ring_capacity(N as int),
        ensures
            input.wf(),
            input@ == InputView::closed_endpoint(),
    {
        Self::default()
    }

    /// The bytes that wait for the player.
    pub fn ring(&self) -> (ring: &InputRing<N>)
        requires
            self.wf(),
        ensures
            ring.wf(),
            ring@ == self@.queued,
    {
        &self.ring
    }

    /// Takes the control lock.
    pub fn try_control(&mut self) -> (result: Result<(), InputError>)
        requires
            old(self).wf(),
        ensures
            final(self).wf(),
            result == (if old(self)@.locked {
                Err::<(), InputError>(InputError::Busy)
            } else {
                Ok(())
            }),
            final(self)@ == (InputView { locked: true, ..old(self)@ }),
    {
        if self.control_lock {
            return Err(InputError::Busy);
        }
        self.control_lock = true;
        Ok(())
    }

    /// Gives the control lock back.
    pub fn release_control(&mut self)
        requires
            old(self).wf(),
        ensures
            final(self).wf(),
            final(self)@ == (InputView { locked: false, ..old(self)@ }),
    {
        self.control_lock = false;
    }

    /// Claims the endpoint for one client.
    pub fn open(&mut self) -> (result: Result<(), InputError>)
        requires
            old(self).wf(),
        ensures
            final(self).wf(),
            old(self)@.opens(result, final(self)@),
    {
        if self.opened {
            return Err(InputError::Busy);
        }
        self.try_control()?;
        self.opened = true;
        self.format = 0;
        self.sample_rate_hint = 0;
        self.channels_hint = 0;
        self.volume_percent = VOLUME_DEFAULT;
        self.reset_counters();
        self.invalidate_and_reset(STATE_IDLE);
        self.release_control();
        Ok(())
    }

    pub fn close(&mut self) -> (result: Result<(), InputError>)
        requires
            old(self).wf(),
        ensures
            final(self).wf(),
            old(self)@.closes(result, final(self)@),
    {
        self.try_control()?;
        self.invalidate_and_reset(STATE_CLOSED);
        self.format = 0;
        self.sample_rate_hint = 0;
        self.channels_hint = 0;
        self.opened = false;
        self.release_control();
        Ok(())
    }

    pub fn set_format(&mut self, format: &FormatV1) -> (result: Result<(), InputError>)
        requires
            old(self).wf(),
        ensures
            final(self).wf(),
            old(self)@.takes_format(*format, result, final(self)@),
    {
        self.try_control()?;
        if !self.opened || !format.is_acceptable() {
            self.release_control();
            return Err(InputError::Invalid);
        }
        if self.state != STATE_IDLE && self.state != STATE_CONFIGURED && self.state
            != STATE_STOPPED {
            self.release_control();
            return Err(InputError::Busy);
        }
        self.reset_counters();
        self.invalidate_and_reset(STATE_CONFIGURED);
        self.format = format.format;
        self.sample_rate_hint = format.sample_rate_hint;
        self.channels_hint = format.channels_hint;
        self.release_control();
        Ok(())
    }

    pub fn start(&mut self) -> (result: Result<(), InputError>)
        requires
            old(self).wf(),
        ensures
            final(self).wf(),
            old(self)@.starts(result, final(self)@),
    {
        self.try_control()?;
        if self.format != FORMAT_MP3 || (self.state != STATE_CONFIGURED && self.state
            != STATE_STOPPED) {
            self.release_control();
            return Err(InputError::Invalid);
        }
        self.reset_playback(STATE_BUFFERING);
        self.release_control();
        Ok(())
    }

    pub fn pause(&mut self) -> (result: Result<(), InputError>)
        requires
            old(self).wf(),
        ensures
            final(self).wf(),
            old(self)@.pauses(result, final(self)@),
    {
        self.try_control()?;
        let allowed = self.state == STATE_BUFFERING || self.state == STATE_PLAYING;
        self.leave_for(allowed, STATE_PAUSED)
    }

    pub fn resume(&mut self) -> (result: Result<(), InputError>)
        requires
            old(self).wf(),
        ensures
            final(self).wf(),
            old(self)@.resumes(result, final(self)@),
    {
        self.try_control()?;
        let allowed = self.state == STATE_PAUSED;
        self.leave_for(allowed, STATE_BUFFERING)
    }

    pub fn stop(&mut self) -> (result: Result<(), InputError>)
        requires
            old(self).wf(),
        ensures
            final(self).wf(),
            old(self)@.stops(result, final(self)@),
    {
        self.try_control()?;
        if !self.opened {
            self.release_control();
            return Err(InputError::Pipe);
        }
        self.invalidate_and_reset(STATE_STOPPED);
        self.release_control();
        Ok(())
    }

    pub fn flush(&mut self) -> (result: Result<(), InputError>)
        requires
            old(self).wf(),
        ensures
            final(self).wf(),
            old(self)@.flushes(result, final(self)@),
    {
        self.try_control()?;
        if self.format == 0 {
            self.release_control();
            return Err(InputError::Pipe);
        }
        self.invalidate_and_reset(STATE_CONFIGURED);
        self.release_control();
        Ok(())
    }

    /// No more input comes: what is queued is played, and then the endpoint stops.
    pub fn drain(&mut self) -> (result: Result<(), InputError>)
        requires
            old(self).wf(),
        ensures
            final(self).wf(),
            old(self)@.drains(result, final(self)@),
    {
        self.try_control()?;
        let allowed = self.state == STATE_BUFFERING || self.state == STATE_PLAYING || self.state
            == STATE_PAUSED;
        self.leave_for(allowed, STATE_DRAINING)
    }

    /// Queues as much of `input` as there is room for.
    pub fn write(&mut self, input: &[u8]) -> (result: Result<usize, InputError>)
        requires
            old(self).wf(),
        ensures
            final(self).wf(),
            old(self)@.takes_input(N as int, input@, result, final(self)@),
    {
        if !self.opened || self.format == 0 {
            return Err(InputError::Pipe);
        }
        if self.state == STATE_DRAINING || self.state == STATE_CLOSED || self.state == STATE_IDLE {
            return Err(InputError::Pipe);
        }
        if self.state == STATE_ERROR {
            return Err(InputError::Io);
        }
        proof {
            self.ring.lemma_capacity();
        }
        let ghost queued = self.ring@;
        let count = self.ring.write(input);
        if count == 0 && input.len() > 0 {
            assert(queued + input@.take(0) =~= queued);
            return Err(InputError::Again);
        }
        self.bytes_accepted = self.bytes_accepted.wrapping_add(count as u32);
        Ok(count)
    }

    pub fn state(&self) -> (state: u32)
        ensures
            state == self@.state,
    {
        self.state
    }

    pub fn generation(&self) -> (generation: u32)
        ensures
            generation == self@.generation,
    {
        self.generation
    }

    pub fn status(&self) -> (status: StatusV1)
        requires
            self.wf(),
        ensures
            status == self@.status(N as nat),
            status.input_capacity == N,
            status.input_used == self@.queued.len(),
            status.input_used + status.input_free == status.input_capacity,
    {
        proof {
            self.ring.lemma_capacity();
        }
        let used = self.ring.used() as u32;
        StatusV1 {
            struct_size: STATUS_V1_SIZE,
            abi_version: ABI_VERSION,
            state: self.state(),
            last_error: self.last_error,
            format: self.format,
            input_capacity: N as u32,
            input_used: used,
            input_free: N as u32 - used,
            decoded_sample_rate: self.decoded_sample_rate,
            decoded_channels: self.decoded_channels,
            negotiated_bitpool: self.negotiated_bitpool,
            bytes_accepted: self.bytes_accepted,
            bytes_consumed: self.bytes_consumed,
            pcm_frames: self.pcm_frames,
            rtp_packets: self.rtp_packets,
            underruns: self.underruns,
            generation: self.generation(),
            volume_percent: self.volume(),
        }
    }

    pub fn set_volume(&mut self, volume_percent: u32) -> (result: Result<(), InputError>)
        requires
            old(self).wf(),
        ensures
            final(self).wf(),
            old(self)@.takes_volume(volume_percent, result, final(self)@),
    {
        if !self.opened || volume_percent > VOLUME_MAX {
            return Err(InputError::Invalid);
        }
        self.volume_percent = volume_percent;
        Ok(())
    }

    pub fn volume(&self) -> (volume: u32)
        ensures
            volume == self@.volume_percent,
            self.wf() ==> volume <= VOLUME_MAX,
    {
        self.volume_percent
    }

    /// What the decoder found agrees with what the client announced, as far as it announced
    /// anything.
    pub fn decoded_format_matches(&self, sample_rate: u32, channels: u32) -> (matching: bool)
        ensures
            matching == self@.hints_allow(sample_rate, channels),
    {
        (self.sample_rate_hint == 0 || self.sample_rate_hint == sample_rate) && (self.channels_hint
            == 0 || self.channels_hint == channels)
    }

    /// Takes the oldest queued bytes.
    pub fn consume(&mut self, output: &mut [u8]) -> (count: usize)
        requires
            old(self).wf(),
        ensures
            final(self).wf(),
            old(self)@.gives_output(old(output)@, count, final(self)@, final(output)@),
    {
        proof {
            self.ring.lemma_capacity();
        }
        let count = self.ring.read(output);
        self.bytes_consumed = self.bytes_consumed.wrapping_add(count as u32);
        count
    }

    pub fn mark_playing(&mut self, generation: u32, sample_rate: u32, channels: u32, bitpool: u32) -> (
    current: bool)
        requires
            old(self).wf(),
        ensures
            final(self).wf(),
            current == (old(self)@.generation == generation),
            final(self)@ == old(self)@.playing(generation, sample_rate, channels, bitpool),
    {
        if self.generation != generation {
            return false;
        }
        self.decoded_sample_rate = sample_rate;
        self.decoded_channels = channels;
        self.negotiated_bitpool = bitpool;
        if self.state != STATE_DRAINING {
            self.state = STATE_PLAYING;
        }
        true
    }

    pub fn add_pcm_frames(&mut self, generation: u32, frames: u32)
        requires
            old(self).wf(),
        ensures
            final(self).wf(),
            final(self)@ == old(self)@.with_pcm_frames(generation, frames),
    {
        if self.generation == generation {
            self.pcm_frames = self.pcm_frames.wrapping_add(frames);
        }
    }

    pub fn add_rtp_packets(&mut self, generation: u32, packets: u32)
        requires
            old(self).wf(),
        ensures
            final(self).wf(),
            final(self)@ == old(self)@.with_rtp_packets(generation, packets),
    {
        if self.generation == generation {
            self.rtp_packets = self.rtp_packets.wrapping_add(packets);
        }
    }

    pub fn mark_underrun(&mut self, generation: u32)
        requires
            old(self).wf(),
        ensures
            final(self).wf(),
            final(self)@ == old(self)@.underrun(generation),
    {
        if self.generation == generation {
            self.underruns = self.underruns.wrapping_add(1);
            if self.state != STATE_DRAINING {
                self.state = STATE_BUFFERING;
            }
        }
    }

    pub fn mark_drained(&mut self, generation: u32, pipeline_empty: bool)
        requires
            old(self).wf(),
        ensures
            final(self).wf(),
            final(self)@ == old(self)@.drained(generation, pipeline_empty),
    {
        if self.generation == generation && pipeline_empty && self.state == STATE_DRAINING
            && self.ring.used() == 0 {
            self.state = STATE_STOPPED;
        }
    }

    pub fn fail(&mut self, generation: u32, error: i32)
        requires
            old(self).wf(),
        ensures
            final(self).wf(),
            final(self)@ == old(self)@.failed(generation, error),
    {
        if self.generation == generation {
            self.last_error = error;
            self.state = STATE_ERROR;
        }
    }

    fn reset_counters(&mut self)
        requires
            old(self).wf(),
        ensures
            final(self).wf(),
            final(self)@ == old(self)@.with_counters_reset(),
    {
        self.bytes_accepted = 0;
        self.bytes_consumed = 0;
        self.pcm_frames = 0;
        self.rtp_packets = 0;
        self.underruns = 0;
    }

    fn reset_playback(&mut self, next_state: u32)
        requires
            old(self).wf(),
            next_state <= STATE_ERROR,
        ensures
            final(self).wf(),
            final(self)@ == old(self)@.with_playback_reset(next_state),
    {
        self.generation = self.generation.wrapping_add(1);
        self.last_error = 0;
        self.decoded_sample_rate = 0;
        self.decoded_channels = 0;
        self.negotiated_bitpool = 0;
        self.state = next_state;
    }

    fn invalidate_and_reset(&mut self, next_state: u32)
        requires
            old(self).wf(),
            next_state <= STATE_ERROR,
        ensures
            final(self).wf(),
            final(self)@ == old(self)@.invalidated(next_state),
    {
        self.ring.reset();
        self.reset_playback(next_state);
    }

    /// Ends a control operation that only changes the state.
    fn leave_for(&mut self, allowed: bool, next_state: u32) -> (result: Result<(), InputError>)
        requires
            old(self).wf(),
            next_state <= STATE_ERROR,
        ensures
            final(self).wf(),
            result == (if allowed {
                Ok::<(), InputError>(())
            } else {
                Err(InputError::Invalid)
            }),
            final(self)@ == (InputView {
                locked: false,
                state: if allowed {
                    next_state
                } else {
                    old(self)@.state
                },
                ..old(self)@
            }),
    {
        if allowed {
            self.state = next_state;
        }
        self.release_control();
        if allowed {
            Ok(())
        } else {
            Err(InputError::Invalid)
        }
    }
}

/// Every change of what is played starts a generation that differs from the one before.
pub proof fn law_changes_start_a_generation(input: InputView, format: FormatV1)
    ensures
        input.opening().generation != input.generation,
        input.closing().generation != input.generation,
        input.configuring(format).generation != input.generation,
        input.starting().generation != input.generation,
        input.invalidated(STATE_STOPPED).generation != input.generation,
        input.invalidated(STATE_CONFIGURED).generation != input.generation,
{
}

/// Work that was begun for another generation has no effect.
pub proof fn law_stale_work_has_no_effect(input: InputView, generation: u32, a: u32, b: u32, c: u32)
    requires
        generation != input.generation,
    ensures
        input.playing(generation, a, b, c) == input,
        input.with_pcm_frames(generation, a) == input,
        input.with_rtp_packets(generation, a) == input,
        input.underrun(generation) == input,
        forall|empty: bool| input.drained(generation, empty) == input,
        forall|error: i32| input.failed(generation, error) == input,
{
}

/// Work for the present generation keeps the generation and what is queued, and never ends a
/// drain but by emptying the queue.
pub proof fn law_draining_ends_empty(input: InputView, a: u32, b: u32, c: u32, empty: bool)
    requires
        input.state == STATE_DRAINING,
    ensures
        input.refusal_to_write() == Some(InputError::Pipe),
        input.playing(input.generation, a, b, c).state == STATE_DRAINING,
        input.underrun(input.generation).state == STATE_DRAINING,
        input.drained(input.generation, empty).state == (if empty && input.queued.len() == 0 {
            STATE_STOPPED
        } else {
            STATE_DRAINING
        }),
{
}

/// Pausing and resuming leave everything but the state as it was.
pub proof fn law_pause_and_resume(input: InputView)
    requires
        input.refusal_to_pause() is None,
    ensures
        input.in_state(STATE_PAUSED).refusal_to_resume() is None,
        input.in_state(STATE_PAUSED).in_state(STATE_BUFFERING) == input.in_state(STATE_BUFFERING),
        input.in_state(STATE_PAUSED).generation == input.generation,
        input.in_state(STATE_PAUSED).queued == input.queued,
{
}

/// A fresh session: after opening, nothing of the client before is left, and the lock is as it
/// was.
pub proof fn law_opening_forgets(input: InputView)
    ensures
        ({
            let opened = input.opening();
            &&& opened.queued.len() == 0
            &&& opened.format == 0
            &&& opened.bytes_accepted == 0
            &&& opened.bytes_consumed == 0
            &&& opened.pcm_frames == 0
            &&& opened.rtp_packets == 0
            &&& opened.underruns == 0
            &&& opened.last_error == 0
            &&& opened.volume_percent == VOLUME_DEFAULT
            &&& opened.locked == input.locked
        }),
{
}

/// Where the counters say how much is queued, they still do after writing and after consuming.
pub proof fn law_queue_counts(input: InputView, bytes: Seq<u8>, count: int)
    requires
        0 <= count <= input.queued.len(),
        input.queued.len() == (input.bytes_accepted - input.bytes_consumed) % 0x1_0000_0000,
        input.queued.len() + bytes.len() < 0x1_0000_0000,
    ensures
        ({
            let after = input.accepting(bytes);
            after.queued.len() == (after.bytes_accepted - after.bytes_consumed) % 0x1_0000_0000
        }),
        ({
            let after = input.consuming(count);
            after.queued.len() == (after.bytes_accepted - after.bytes_consumed) % 0x1_0000_0000
        }),
{
}

/// The endpoint belongs to one client: once opened it can be opened again only after it was
/// closed, and nothing else releases it.
pub proof fn law_one_client_at_a_time(input: InputView, format: FormatV1, bytes: Seq<u8>)
    ensures
        input.opening().refusal_to_open() == Some(InputError::Busy),
        input.closing().refusal_to_open() is None,
        input.configuring(format).opened == input.opened,
        input.starting().opened == input.opened,
        forall|state: u32| #[trigger] input.in_state(state).opened == input.opened,
        forall|state: u32| #[trigger] input.invalidated(state).opened == input.opened,
        input.accepting(bytes).opened == input.opened,
        forall|count: int| #[trigger] input.consuming(count).opened == input.opened,
{
}

/// Stopping, flushing, closing and a new format discard what is queued; starting keeps it.
pub proof fn law_what_is_discarded(input: InputView, format: FormatV1)
    ensures
        forall|state: u32| (#[trigger] input.invalidated(state)).queued.len() == 0,
        input.closing().queued.len() == 0,
        input.configuring(format).queued.len() == 0,
        input.starting().queued == input.queued,
{
}

} // verus!
