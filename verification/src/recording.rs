//! Recording sessions: what a capture is set up with, when its worker
//! ends, and the rule that one recording is active at a time.
//!
//! The device, the sink and the worker thread are driven from outside. The
//! decisions are made here: whether a device can be captured from, which
//! frames of a block are written, whether the worker goes on, and whether
//! a start or a stop is accepted.

use crate::error::CoreError;
use crate::resample::{emitted, picks_emitted, Resampler, TARGET_RATE};
use vstd::prelude::*;

verus! {

/// The time, in milliseconds, a recording worker sleeps between two looks
/// at its cancellation flag and its deadline.
pub const POLL_INTERVAL_MS: u64 = 100;

/// The format of the samples a device delivers.
#[derive(Clone, Copy, Debug, PartialEq, Eq, Structural)]
pub enum DeviceSampleFormat {
    I8,
    I16,
    I32,
    F32,
    /// Any format the capture path does not read.
    Other,
}

/// What a device delivers by default.
#[derive(Clone, Copy, Debug, PartialEq, Eq, Structural)]
pub struct DeviceConfig {
    pub channels: u16,
    pub sample_rate: u32,
    pub format: DeviceSampleFormat,
}

/// The format of the capture artifact.
#[derive(Clone, Copy, Debug, PartialEq, Eq, Structural)]
pub struct SinkFormat {
    pub channels: u16,
    pub sample_rate: u32,
    pub bits_per_sample: u16,
}

/// Why a device cannot be captured from, if it cannot: there is none, or
/// it delivers no channel, no rate or an unread sample format.
pub open spec fn capture_obstacle(device: Option<DeviceConfig>) -> Option<CoreError> {
    match device {
        None => Some(CoreError::DeviceUnavailable),
        Some(config) => if config.channels == 0 || config.sample_rate == 0 || config.format
            == DeviceSampleFormat::Other {
            Some(CoreError::StreamFormatUnsupported)
        } else {
            None
        },
    }
}

/// Why a capture cannot begin, if it cannot: the sink could not be made,
/// or the device cannot be captured from. The sink is made first, so its
/// failure is the one reported when both fail.
pub open spec fn setup_obstacle(sink_created: bool, device: Option<DeviceConfig>) -> Option<
    CoreError,
> {
    if !sink_created {
        Some(CoreError::SinkIOError)
    } else {
        capture_obstacle(device)
    }
}

/// What the end of a capture gives: the artifact's path once the sink is
/// sealed, a sink failure if it could not be.
pub open spec fn spec_finish(path: Seq<char>, sealed: bool) -> Result<Seq<char>, CoreError> {
    if sealed {
        Ok(path)
    } else {
        Err(CoreError::SinkIOError)
    }
}

/// The worker ends once it was cancelled or its time is up.
pub open spec fn spec_should_stop(
    cancelled: bool,
    max_duration_secs: Option<u64>,
    elapsed_secs: u64,
) -> bool {
    cancelled || match max_duration_secs {
        Some(max) => elapsed_secs >= max,
        None => false,
    }
}

/// The number of frames in a block of interleaved samples. A block that
/// ends within a frame counts that part as a frame.
pub open spec fn spec_frame_count(samples: nat, channels: nat) -> nat {
    if channels == 0 {
        0
    } else {
        ((samples + channels - 1) / channels as int) as nat
    }
}

/// Whether a recording worker ends its loop.
pub fn worker_should_stop(cancelled: bool, max_duration_secs: Option<u64>, elapsed_secs: u64) -> (stop:
    bool)
    ensures
        stop == spec_should_stop(cancelled, max_duration_secs, elapsed_secs),
{
    if cancelled {
        return true;
    }
    match max_duration_secs {
        Some(max) => elapsed_secs >= max,
        None => false,
    }
}

/// One capture: a device stream bound to a sink and to the state of the
/// rate conversion.
pub struct CaptureSession {
    path: String,
    sink: SinkFormat,
    config: DeviceConfig,
    max_duration_secs: Option<u64>,
    resampler: Resampler,
}

impl CaptureSession {
    /// Where the artifact is written.
    pub closed spec fn path(self) -> Seq<char> {
        self.path@
    }

    /// The artifact's format.
    pub closed spec fn sink(self) -> SinkFormat {
        self.sink
    }

    /// What the device delivers.
    pub closed spec fn config(self) -> DeviceConfig {
        self.config
    }

    /// The time after which the worker ends by itself, if any.
    pub closed spec fn max_duration_secs(self) -> Option<u64> {
        self.max_duration_secs
    }

    /// The number of device frames taken so far.
    pub closed spec fn frames(self) -> nat {
        self.resampler.frames()
    }

    /// The session converts from the device's rate to the sink's, and the
    /// device is one that can be captured from.
    pub closed spec fn wf(self) -> bool {
        &&& capture_obstacle(Some(self.config)) is None
        &&& self.resampler.wf()
        &&& self.resampler.input_rate() == self.config.sample_rate
        &&& self.resampler.target_rate() == self.sink.sample_rate
    }

    /// Where the artifact is written.
    pub fn output_path(&self) -> (path: &String)
        ensures
            path@ == self.path(),
    {
        &self.path
    }

    /// The artifact's format.
    pub fn sink_format(&self) -> (sink: SinkFormat)
        ensures
            sink == self.sink(),
    {
        self.sink
    }

    /// What the device delivers.
    pub fn device_config(&self) -> (config: DeviceConfig)
        ensures
            config == self.config(),
    {
        self.config
    }

    /// The time after which the worker ends by itself, if any.
    pub fn time_limit(&self) -> (limit: Option<u64>)
        ensures
            limit == self.max_duration_secs(),
    {
        self.max_duration_secs
    }

    /// Whether the worker of this session ends its loop, given the state
    /// of the cancellation flag and the seconds since the capture began.
    pub fn should_stop(&self, cancelled: bool, elapsed_secs: u64) -> (stop: bool)
        ensures
            stop == spec_should_stop(cancelled, self.max_duration_secs(), elapsed_secs),
    {
        worker_should_stop(cancelled, self.max_duration_secs, elapsed_secs)
    }

    /// Ends the capture. `sealed` says whether the sink could be flushed
    /// and sealed after the device stream was dropped.
    pub fn finish(self, sealed: bool) -> (result: Result<String, CoreError>)
        ensures
            match result {
                Ok(path) => spec_finish(self.path(), sealed) == Ok::<Seq<char>, CoreError>(path@),
                Err(e) => spec_finish(self.path(), sealed) == Err::<Seq<char>, CoreError>(e),
            },
    {
        if sealed {
            Ok(self.path)
        } else {
            Err(CoreError::SinkIOError)
        }
    }

    /// Takes a block of `samples` interleaved samples from the device and
    /// lists, in rising order, the frames of the block to mix down and
    /// write. Blocks may be of any size.
    pub fn select_frames(&mut self, samples: usize) -> (picked: Vec<usize>)
        requires
            old(self).wf(),
        ensures
            final(self).wf(),
            final(self).path() == old(self).path(),
            final(self).sink() == old(self).sink(),
            final(self).config() == old(self).config(),
            final(self).max_duration_secs() == old(self).max_duration_secs(),
            final(self).frames() == old(self).frames() + spec_frame_count(
                samples as nat,
                old(self).config().channels as nat,
            ),
            picks_emitted(
                picked@,
                old(self).config().sample_rate as nat,
                old(self).sink().sample_rate as nat,
                old(self).frames(),
                spec_frame_count(samples as nat, old(self).config().channels as nat),
            ),
            picked@.len() == emitted(
                old(self).config().sample_rate as nat,
                old(self).sink().sample_rate as nat,
                final(self).frames(),
            ) - emitted(
                old(self).config().sample_rate as nat,
                old(self).sink().sample_rate as nat,
                old(self).frames(),
            ),
    {
        let channels: usize = self.config.channels as usize;
        let whole: usize = samples / channels;
        assert(samples % channels != 0 ==> whole < samples) by (nonlinear_arith)
            requires
                channels > 0,
                whole == samples / channels,
        ;
        let frames: usize = if samples % channels == 0 {
            whole
        } else {
            whole + 1
        };
        assert(frames == spec_frame_count(samples as nat, channels as nat)) by (nonlinear_arith)
            requires
                channels > 0,
                whole == samples / channels,
                frames == if samples % channels == 0 {
                    whole as int
                } else {
                    whole + 1
                },
        ;
        self.resampler.select(frames)
    }
}

/// Sets up recordings at the rate the engine decodes.
pub struct AudioRecorder {
    sample_rate: u32,
}

impl AudioRecorder {
    /// The rate of the artifacts this recorder makes.
    pub closed spec fn rate(self) -> u32 {
        self.sample_rate
    }

    /// The format of the artifacts this recorder makes: one channel of
    /// sixteen-bit samples at the recorder's rate.
    pub open spec fn spec_sink_format(self) -> SinkFormat {
        SinkFormat { channels: 1, sample_rate: self.rate(), bits_per_sample: 16 }
    }

    /// The session that `device` is captured with, or the reason why it
    /// cannot be.
    pub open spec fn opens(
        self,
        session: CaptureSession,
        output_path: Seq<char>,
        max_duration_secs: Option<u64>,
        config: DeviceConfig,
    ) -> bool {
        &&& session.wf()
        &&& session.path() == output_path
        &&& session.sink() == self.spec_sink_format()
        &&& session.config() == config
        &&& session.max_duration_secs() == max_duration_secs
        &&& session.frames() == 0
    }

    /// A recorder for the engine's rate.
    pub fn new() -> (recorder: Self)
        ensures
            recorder.rate() == TARGET_RATE,
    {
        AudioRecorder { sample_rate: TARGET_RATE }
    }

    /// The rate of the artifacts this recorder makes.
    pub fn sample_rate(&self) -> (rate: u32)
        ensures
            rate == self.rate(),
    {
        self.sample_rate
    }

    /// The format of the artifacts this recorder makes.
    pub fn sink_format(&self) -> (sink: SinkFormat)
        ensures
            sink == self.spec_sink_format(),
    {
        SinkFormat { channels: 1, sample_rate: self.sample_rate, bits_per_sample: 16 }
    }

    /// Sets up a recording of `duration_secs` seconds. `sink_created` says
    /// whether the sink at `output_path` could be made; `device` is the
    /// default input device's configuration, or `None` if there is no such
    /// device.
    pub fn record_to_file(
        &self,
        output_path: String,
        duration_secs: u64,
        sink_created: bool,
        device: Option<DeviceConfig>,
    ) -> (result: Result<CaptureSession, CoreError>)
        ensures
            match result {
                Ok(session) => setup_obstacle(sink_created, device) is None && self.opens(
                    session,
                    output_path@,
                    Some(duration_secs),
                    device.unwrap(),
                ),
                Err(e) => setup_obstacle(sink_created, device) == Some(e),
            },
    {
        self.record_to_file_cancellable(output_path, Some(duration_secs), sink_created, device)
    }

    /// Sets up a recording that lasts until it is cancelled or, if a limit
    /// is given, until the limit is reached.
    pub fn record_to_file_cancellable(
        &self,
        output_path: String,
        max_duration_secs: Option<u64>,
        sink_created: bool,
        device: Option<DeviceConfig>,
    ) -> (result: Result<CaptureSession, CoreError>)
        ensures
            match result {
                Ok(session) => setup_obstacle(sink_created, device) is None && self.opens(
                    session,
                    output_path@,
                    max_duration_secs,
                    device.unwrap(),
                ),
                Err(e) => setup_obstacle(sink_created, device) == Some(e),
            },
    {
        if !sink_created {
            return Err(CoreError::SinkIOError);
        }
        let config = match device {
            None => {
                return Err(CoreError::DeviceUnavailable);
            },
            Some(config) => config,
        };
        if config.channels == 0 {
            return Err(CoreError::StreamFormatUnsupported);
        }
        match config.format {
            DeviceSampleFormat::Other => {
                return Err(CoreError::StreamFormatUnsupported);
            },
            _ => {},
        }
        match Resampler::new(config.sample_rate, self.sample_rate) {
            Err(e) => Err(e),
            Ok(resampler) => Ok(
                CaptureSession {
                    path: output_path,
                    sink: self.sink_format(),
                    config,
                    max_duration_secs,
                    resampler,
                },
            ),
        }
    }
}

/// The one active recording: where it is written, and the caller's handle
/// on its worker.
pub struct RecordingState<H> {
    pub path: String,
    pub handle: H,
}

/// A start that was turned down, with the handle that was offered.
pub struct StartRejected<H> {
    pub error: CoreError,
    pub handle: H,
}

/// Holds the active recording, if there is one.
pub struct RecordingController<H> {
    active: Option<RecordingState<H>>,
}

impl<H> RecordingController<H> {
    /// The active recording.
    pub closed spec fn active(self) -> Option<RecordingState<H>> {
        self.active
    }

    /// The controller after a start with `path` and `handle`: unchanged
    /// while a recording is active, else recording to `path`.
    pub open spec fn after_start(self, path: String, handle: H) -> Option<RecordingState<H>> {
        match self.active() {
            Some(state) => Some(state),
            None => Some(RecordingState { path, handle }),
        }
    }

    /// What a start returns: a conflict while a recording is active.
    pub open spec fn start_result(self, handle: H) -> Result<(), StartRejected<H>> {
        match self.active() {
            Some(_) => Err(StartRejected { error: CoreError::ActiveSessionConflict, handle }),
            None => Ok(()),
        }
    }

    /// What a stop returns: the active recording, or a conflict if there
    /// is none.
    pub open spec fn stop_result(self) -> Result<RecordingState<H>, CoreError> {
        match self.active() {
            Some(state) => Ok(state),
            None => Err(CoreError::ActiveSessionConflict),
        }
    }

    /// A controller with no recording.
    pub fn new() -> (controller: Self)
        ensures
            controller.active() is None,
    {
        RecordingController { active: None }
    }

    /// Whether a recording is active.
    pub fn is_recording(&self) -> (recording: bool)
        ensures
            recording == (self.active() is Some),
    {
        self.active.is_some()
    }

    /// Where the active recording is written.
    pub fn active_path(&self) -> (path: Option<&String>)
        ensures
            match path {
                Some(p) => self.active() is Some && self.active().unwrap().path == *p,
                None => self.active() is None,
            },
    {
        match &self.active {
            Some(state) => Some(&state.path),
            None => None,
        }
    }

    /// Whether a start would be accepted now. To be asked before the sink
    /// is made and the device is opened.
    pub fn check_idle(&self) -> (result: Result<(), CoreError>)
        ensures
            match result {
                Ok(_) => self.active() is None,
                Err(e) => self.active() is Some && e == CoreError::ActiveSessionConflict,
            },
    {
        if self.active.is_some() {
            Err(CoreError::ActiveSessionConflict)
        } else {
            Ok(())
        }
    }

    /// Makes the recording to `path` the active one. While another is
    /// active the start is turned down, the handle comes back and the
    /// active recording is left as it is.
    pub fn start(&mut self, path: String, handle: H) -> (result: Result<(), StartRejected<H>>)
        ensures
            result == old(self).start_result(handle),
            final(self).active() == old(self).after_start(path, handle),
    {
        if self.active.is_some() {
            Err(StartRejected { error: CoreError::ActiveSessionConflict, handle })
        } else {
            self.active = Some(RecordingState { path, handle });
            Ok(())
        }
    }

    /// Ends the active recording and hands out its state, so that the
    /// caller can cancel the worker and wait for it after it has let go
    /// of the controller. With no recording active the stop is a conflict.
    pub fn stop(&mut self) -> (result: Result<RecordingState<H>, CoreError>)
        ensures
            result == old(self).stop_result(),
            final(self).active() is None,
    {
        match self.active.take() {
            Some(state) => Ok(state),
            None => Err(CoreError::ActiveSessionConflict),
        }
    }

    /// A start while a recording is active is a conflict and changes
    /// nothing: the recording, its path and its handle stay.
    pub proof fn lemma_start_while_active(self, path: String, handle: H)
        requires
            self.active() is Some,
        ensures
            self.start_result(handle) == Err::<(), StartRejected<H>>(
                StartRejected { error: CoreError::ActiveSessionConflict, handle },
            ),
            self.after_start(path, handle) == self.active(),
    {
    }

    /// A stop with no recording active is a conflict. As every stop leaves
    /// no recording active, each stop that follows another is one.
    pub proof fn lemma_stop_while_idle(self)
        requires
            self.active() is None,
        ensures
            self.stop_result() == Err::<RecordingState<H>, CoreError>(
                CoreError::ActiveSessionConflict,
            ),
    {
    }
}

} // verus!
