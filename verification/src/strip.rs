//! The strip: its lights, the device they are written to, and the renderer's
//! life from idle to stopped.

use crate::color::Color;
use crate::config::Config;
use crate::led::{
    all_cleared, all_colored, dark_frame, frame_of, lemma_cleared_frame_is_dark, LedCollection,
    LedView,
};
use crate::router::{route_event, routed, RouteOutcome};
use crate::state::{state_name, ServiceState};
use crate::systemd::ServiceEvent;
use vstd::prelude::*;

verus! {

/// What a device reports when a write fails.
#[derive(Debug, Clone, PartialEq, Eq)]
pub struct DeviceError {
    pub message: String,
}

/// The device that takes the frames. A write reports how many bytes the
/// device took, or that it failed.
pub trait SpiDevice {
    fn write(&mut self, data: &[u8]) -> Result<usize, DeviceError>;
}

/// What a strip is built from.
#[derive(Debug, Clone)]
pub struct StripConfig {
    /// The device's bus and chip select, such as `0.0`.
    pub device_path: String,
    /// Lights on the strip.
    pub length: usize,
    /// Colour channels per light.
    pub channels: usize,
    /// Refresh frequency in hertz.
    pub frequency: u32,
}

/// Where the renderer stands in its life.
#[derive(Debug, Clone, Copy, PartialEq, Eq, Structural)]
pub enum RendererState {
    /// Built, not started.
    Idle,
    /// Frames are written at every tick.
    Running,
    /// Shutdown was asked for; the dark frame is on its way.
    Draining,
    /// The dark frame was written, or its write failed. Nothing is written
    /// any more.
    Stopped,
}

/// Why the strip refused an operation.
#[derive(Debug, Clone, PartialEq, Eq)]
pub enum StripError {
    /// Every light of the strip already stands for a unit.
    CapacityExceeded { length: usize },
    /// More units are configured than the strip has lights.
    TooManyServices { services: usize, length: usize },
    /// A refresh frequency of zero has no period.
    InvalidFrequency,
    /// The frame of a strip this long would not fit in memory.
    LengthTooLarge { length: usize },
    /// No light stands at the position.
    NoSuchLed { position: usize },
    /// The renderer has stopped: nothing is written any more.
    Stopped,
    /// The device failed to write.
    Device(DeviceError),
}

/// How a write that the device accepted went.
#[derive(Debug, Clone, Copy, PartialEq, Eq, Structural)]
pub enum WriteOutcome {
    /// The device took the whole frame.
    Complete { written: usize },
    /// The device took fewer or more bytes than the frame has.
    Partial { written: usize, expected: usize },
}

/// What a call of `stop` did.
#[derive(Debug, PartialEq, Eq)]
pub enum StopReport {
    /// The renderer had stopped before: nothing was reset or written.
    AlreadyStopped,
    /// The lights were reset and the dark frame was handed to the device once,
    /// with this result.
    Flushed(Result<WriteOutcome, StripError>),
}

/// The colour of every light before its unit's state is known.
pub open spec fn loading_color() -> Color {
    Color { red: 60, green: 60, blue: 60, white: 60 }
}

/// The time between two frames, in whole milliseconds.
pub open spec fn period_millis(frequency: u32) -> int
    recommends
        frequency > 0,
{
    1000int / (frequency as int)
}

/// The verdict on what a device answered to a write of `expected` bytes.
pub open spec fn write_verdict(answer: Result<usize, DeviceError>, expected: usize) -> Result<
    WriteOutcome,
    StripError,
> {
    match answer {
        Ok(written) => if written == expected {
            Ok(WriteOutcome::Complete { written })
        } else {
            Ok(WriteOutcome::Partial { written, expected })
        },
        Err(e) => Err(StripError::Device(e)),
    }
}

/// Judges what a device answered to a write of `expected` bytes. A short
/// write is an anomaly to report, not a failure.
pub fn classify_write(answer: Result<usize, DeviceError>, expected: usize) -> (r: Result<
    WriteOutcome,
    StripError,
>)
    ensures
        r == write_verdict(answer, expected),
{
    match answer {
        Ok(written) => if written == expected {
            Ok(WriteOutcome::Complete { written })
        } else {
            Ok(WriteOutcome::Partial { written, expected })
        },
        Err(e) => Err(StripError::Device(e)),
    }
}

impl RendererState {
    /// The state after `start`: an idle renderer runs, any other stays as it
    /// is.
    pub open spec fn after_start(self) -> RendererState {
        if self == RendererState::Idle {
            RendererState::Running
        } else {
            self
        }
    }

    /// The state after `stop`.
    pub open spec fn after_stop(self) -> RendererState {
        RendererState::Stopped
    }

    /// How many dark frames a `stop` in this state hands to the device.
    pub open spec fn frames_on_stop(self) -> nat {
        if self == RendererState::Stopped {
            0
        } else {
            1
        }
    }

    /// Whether frames may be written in this state.
    pub open spec fn may_write(self) -> bool {
        self != RendererState::Stopped
    }
}

/// Two stops in a row hand the device as many dark frames as one, and end in
/// the same state: the second does nothing.
pub proof fn lemma_stop_idempotent(state: RendererState)
    ensures
        state.after_stop().frames_on_stop() == 0,
        state.after_stop().after_stop() == state.after_stop(),
        state.frames_on_stop() + state.after_stop().frames_on_stop() == state.frames_on_stop(),
        state.frames_on_stop() <= 1,
        !state.after_stop().may_write(),
{
}

/// The lights, the device and the renderer's state.
pub struct Strip<D: SpiDevice> {
    config: StripConfig,
    spi_device: D,
    led_collection: LedCollection,
    state: RendererState,
    update_interval_millis: u64,
    handed: Ghost<Seq<Seq<u8>>>,
}

impl<D: SpiDevice> Strip<D> {
    /// The lights as plain values.
    pub closed spec fn leds(&self) -> Seq<LedView> {
        self.led_collection@
    }

    /// The configuration the strip was built from.
    pub closed spec fn spec_config(&self) -> StripConfig {
        self.config
    }

    /// The renderer's state.
    pub closed spec fn spec_state(&self) -> RendererState {
        self.state
    }

    /// The device.
    pub closed spec fn spec_device(&self) -> D {
        self.spi_device
    }

    /// The frames that the strip has handed to its device so far, oldest
    /// first, whatever the device made of them.
    pub closed spec fn frames_handed(&self) -> Seq<Seq<u8>> {
        self.handed@
    }

    /// The strip's invariant: no more lights than its length, each at its
    /// position; a frequency above zero; a frame that fits in memory.
    pub closed spec fn wf(&self) -> bool {
        &&& self.led_collection.wf()
        &&& self.led_collection.spec_capacity() == self.config.length
        &&& self.config.frequency > 0
        &&& self.config.length * 4 <= usize::MAX
        &&& self.update_interval_millis == period_millis(self.config.frequency)
    }

    /// What the invariant says of the lights and the configuration.
    pub proof fn lemma_wf(&self)
        requires
            self.wf(),
        ensures
            self.leds().len() <= self.spec_config().length,
            forall|i: int| 0 <= i < self.leds().len() ==> (#[trigger] self.leds()[i]).position == i,
            self.spec_config().frequency > 0,
            self.spec_config().length * 4 <= usize::MAX,
    {
    }

    /// A strip without lights on the device given, idle. A frequency of zero
    /// is refused, and so is a length whose frame would not fit in memory.
    pub fn with_spi_device(config: StripConfig, spi_device: D) -> (r: Result<Strip<D>, StripError>)
        ensures
            match r {
                Ok(strip) => {
                    &&& config.frequency > 0
                    &&& config.length * 4 <= usize::MAX
                    &&& strip.wf()
                    &&& strip.leds() == Seq::<LedView>::empty()
                    &&& strip.spec_config() == config
                    &&& strip.spec_device() == spi_device
                    &&& strip.spec_state() == RendererState::Idle
                    &&& strip.frames_handed() == Seq::<Seq<u8>>::empty()
                },
                Err(e) => if config.frequency == 0 {
                    e == StripError::InvalidFrequency
                } else {
                    &&& config.length * 4 > usize::MAX
                    &&& e == (StripError::LengthTooLarge { length: config.length })
                },
            },
    {
        if config.frequency == 0 {
            return Err(StripError::InvalidFrequency);
        }
        if config.length > usize::MAX / 4 {
            return Err(StripError::LengthTooLarge { length: config.length });
        }
        let led_collection = LedCollection::new(config.length);
        let update_interval_millis: u64 = 1000 / (config.frequency as u64);
        Ok(
            Strip {
                config,
                spi_device,
                led_collection,
                state: RendererState::Idle,
                update_interval_millis,
                handed: Ghost(Seq::empty()),
            },
        )
    }

    /// A strip with one light per configured unit, in the configuration's
    /// order, each showing the loading colour. More units than lights are
    /// refused first, then a frequency of zero.
    pub fn from_config(config: &Config, spi_device: D) -> (r: Result<Strip<D>, StripError>)
        ensures
            match r {
                Ok(strip) => {
                    &&& config.services@.len() <= config.strip.length
                    &&& config.strip.hertz > 0
                    &&& strip.wf()
                    &&& strip.spec_state() == RendererState::Idle
                    &&& strip.spec_device() == spi_device
                    &&& strip.frames_handed() == Seq::<Seq<u8>>::empty()
                    &&& strip.spec_config().length == config.strip.length
                    &&& strip.spec_config().channels == config.strip.channels
                    &&& strip.spec_config().frequency == config.strip.hertz
                    &&& strip.spec_config().device_path@ == config.strip.spidev@
                    &&& strip.leds().len() == config.services@.len()
                    &&& forall|i: int|
                        0 <= i < config.services@.len() ==> #[trigger] strip.leds()[i]
                            == LedView::fresh(i as nat, config.services@[i].name@).with_color(
                            loading_color(),
                        )
                },
                Err(e) => if config.services@.len() > config.strip.length {
                    e == (StripError::TooManyServices {
                        services: config.services@.len() as usize,
                        length: config.strip.length as usize,
                    })
                } else {
                    config.strip.hertz == 0 && e == StripError::InvalidFrequency
                },
            },
    {
        let length = config.strip.length as usize;
        if config.services.len() > length {
            return Err(StripError::TooManyServices { services: config.services.len(), length });
        }
        let strip_config = StripConfig {
            device_path: config.strip.spidev.clone(),
            length,
            channels: config.strip.channels as usize,
            frequency: config.strip.hertz,
        };
        let mut strip = match Strip::with_spi_device(strip_config, spi_device) {
            Ok(strip) => strip,
            Err(e) => {
                return Err(e);
            },
        };
        let mut i: usize = 0;
        while i < config.services.len()
            invariant
                i <= config.services@.len() <= length,
                strip.wf(),
                strip.spec_state() == RendererState::Idle,
                strip.spec_device() == spi_device,
                strip.frames_handed() == Seq::<Seq<u8>>::empty(),
                strip.spec_config() == strip_config,
                strip_config.length == length,
                strip.leds().len() == i,
                forall|j: int|
                    0 <= j < i ==> #[trigger] strip.leds()[j] == LedView::fresh(
                        j as nat,
                        config.services@[j].name@,
                    ),
            decreases config.services@.len() - i,
        {
            let added = strip.add_service(config.services[i].name.clone());
            assert(added is Ok);
            i += 1;
        }
        let _ = strip.set_loading_pattern();
        Ok(strip)
    }

    /// Adds a light for `unit_name` at the next free position. A full strip
    /// refuses and stays as it is.
    pub fn add_service(&mut self, unit_name: String) -> (r: Result<(), StripError>)
        requires
            old(self).wf(),
        ensures
            final(self).wf(),
            final(self).spec_config() == old(self).spec_config(),
            final(self).spec_state() == old(self).spec_state(),
            final(self).spec_device() == old(self).spec_device(),
            final(self).frames_handed() == old(self).frames_handed(),
            match r {
                Ok(_) => {
                    &&& old(self).leds().len() < old(self).spec_config().length
                    &&& final(self).leds() == old(self).leds().push(
                        LedView::fresh(old(self).leds().len(), unit_name@),
                    )
                },
                Err(e) => {
                    &&& old(self).leds().len() == old(self).spec_config().length
                    &&& e == (StripError::CapacityExceeded {
                        length: old(self).spec_config().length,
                    })
                    &&& final(self).leds() == old(self).leds()
                },
            },
    {
        if self.led_collection.len() >= self.config.length {
            return Err(StripError::CapacityExceeded { length: self.config.length });
        }
        let added = self.led_collection.add_led(unit_name);
        assert(added is Ok);
        Ok(())
    }

    /// The lights.
    pub fn led_collection(&self) -> (leds: &LedCollection)
        ensures
            leds@ == self.leds(),
            self.wf() ==> leds.wf() && leds.spec_capacity() == self.spec_config().length,
    {
        &self.led_collection
    }

    /// Gives the light at `position` another colour.
    pub fn set_color(&mut self, position: usize, color: Color) -> (r: Result<(), StripError>)
        requires
            old(self).wf(),
        ensures
            final(self).wf(),
            final(self).spec_config() == old(self).spec_config(),
            final(self).spec_state() == old(self).spec_state(),
            final(self).spec_device() == old(self).spec_device(),
            final(self).frames_handed() == old(self).frames_handed(),
            match r {
                Ok(_) => {
                    &&& position < old(self).leds().len()
                    &&& final(self).leds() == old(self).leds().update(
                        position as int,
                        old(self).leds()[position as int].with_color(color),
                    )
                },
                Err(e) => {
                    &&& position >= old(self).leds().len()
                    &&& e == (StripError::NoSuchLed { position })
                    &&& final(self).leds() == old(self).leds()
                },
            },
    {
        match self.led_collection.set_color(position, color) {
            Ok(_) => Ok(()),
            Err(_) => Err(StripError::NoSuchLed { position }),
        }
    }

    /// Records a state for the light at `position`, with its colour where one
    /// is given.
    pub fn set_state(&mut self, position: usize, state: ServiceState, color: Option<Color>) -> (r:
        Result<(), StripError>)
        requires
            old(self).wf(),
        ensures
            final(self).wf(),
            final(self).spec_config() == old(self).spec_config(),
            final(self).spec_state() == old(self).spec_state(),
            final(self).spec_device() == old(self).spec_device(),
            final(self).frames_handed() == old(self).frames_handed(),
            match r {
                Ok(_) => {
                    &&& position < old(self).leds().len()
                    &&& final(self).leds() == old(self).leds().update(
                        position as int,
                        old(self).leds()[position as int].with_state(state, color),
                    )
                },
                Err(e) => {
                    &&& position >= old(self).leds().len()
                    &&& e == (StripError::NoSuchLed { position })
                    &&& final(self).leds() == old(self).leds()
                },
            },
    {
        match self.led_collection.set_state(position, state, color) {
            Ok(_) => Ok(()),
            Err(_) => Err(StripError::NoSuchLed { position }),
        }
    }

    /// Applies an event to the lights: the light of the event's unit takes
    /// its state and the colour that `config` gives for it. An event for a
    /// unit without a light changes nothing.
    pub fn apply_event(&mut self, config: &Config, event: &ServiceEvent) -> (outcome: RouteOutcome)
        requires
            old(self).wf(),
        ensures
            final(self).wf(),
            final(self).spec_config() == old(self).spec_config(),
            final(self).spec_state() == old(self).spec_state(),
            final(self).spec_device() == old(self).spec_device(),
            final(self).frames_handed() == old(self).frames_handed(),
            final(self).leds() == routed(*config, old(self).leds(), event.unit_name@, event.state),
            match outcome {
                RouteOutcome::UnknownUnit => crate::led::first_for_unit(
                    old(self).leds(),
                    event.unit_name@,
                ) is None,
                RouteOutcome::Applied { position, color } => {
                    &&& crate::led::first_for_unit(old(self).leds(), event.unit_name@) == Some(
                        position as int,
                    )
                    &&& color == config.resolve(position as int, state_name(event.state))
                },
            },
    {
        route_event(config, &mut self.led_collection, event)
    }

    /// The frame that shows the lights as they are now.
    pub fn frame(&self) -> (frame: Vec<u8>)
        requires
            self.wf(),
        ensures
            frame@ == frame_of(self.leds(), self.spec_config().length as nat),
    {
        self.led_collection.to_buffer(self.config.length)
    }

    /// Writes the current frame to the device, once. A stopped renderer
    /// writes nothing. Otherwise the result is the verdict on the device's
    /// answer; whatever the device does, lights, configuration and state stay
    /// as they are.
    pub fn update(&mut self) -> (r: Result<WriteOutcome, StripError>)
        requires
            old(self).wf(),
        ensures
            final(self).wf(),
            final(self).leds() == old(self).leds(),
            final(self).spec_config() == old(self).spec_config(),
            final(self).spec_state() == old(self).spec_state(),
            !old(self).spec_state().may_write() ==> {
                &&& r == Err::<WriteOutcome, StripError>(StripError::Stopped)
                &&& final(self).spec_device() == old(self).spec_device()
                &&& final(self).frames_handed() == old(self).frames_handed()
            },
            old(self).spec_state().may_write() ==> {
                &&& final(self).frames_handed() == old(self).frames_handed().push(
                    frame_of(old(self).leds(), old(self).spec_config().length as nat),
                )
                &&& exists|answer: Result<usize, DeviceError>|
                    r == #[trigger] write_verdict(
                        answer,
                        (4 * old(self).spec_config().length) as usize,
                    )
            },
    {
        if self.state == RendererState::Stopped {
            return Err(StripError::Stopped);
        }
        let frame = self.frame();
        let answer = self.spi_device.write(frame.as_slice());
        self.handed = Ghost(self.handed@.push(frame@));
        let verdict = classify_write(answer, frame.len());
        assert(verdict == write_verdict(answer, (4 * self.config.length) as usize));
        verdict
    }

    /// Gives every light the loading colour.
    pub fn set_loading_pattern(&mut self) -> (r: Result<(), StripError>)
        requires
            old(self).wf(),
        ensures
            r is Ok,
            final(self).wf(),
            final(self).leds() == all_colored(old(self).leds(), loading_color()),
            final(self).spec_config() == old(self).spec_config(),
            final(self).spec_state() == old(self).spec_state(),
            final(self).spec_device() == old(self).spec_device(),
            final(self).frames_handed() == old(self).frames_handed(),
    {
        self.led_collection.fill(Color { red: 60, green: 60, blue: 60, white: 60 });
        Ok(())
    }

    /// Switches every light off and forgets every state. Nothing is written.
    pub fn turn_off_all(&mut self)
        requires
            old(self).wf(),
        ensures
            final(self).wf(),
            final(self).leds() == all_cleared(old(self).leds()),
            final(self).spec_config() == old(self).spec_config(),
            final(self).spec_state() == old(self).spec_state(),
            final(self).spec_device() == old(self).spec_device(),
            final(self).frames_handed() == old(self).frames_handed(),
    {
        self.led_collection.reset_all();
    }

    /// The configuration the strip was built from.
    pub fn config(&self) -> (c: &StripConfig)
        ensures
            *c == self.spec_config(),
    {
        &self.config
    }

    /// The device.
    pub fn spi_device(&self) -> (d: &D)
        ensures
            *d == self.spec_device(),
    {
        &self.spi_device
    }

    /// How many units have a light.
    pub fn service_count(&self) -> (n: usize)
        ensures
            n == self.leds().len(),
    {
        self.led_collection.len()
    }

    /// Whether every light of the strip stands for a unit.
    pub fn is_full(&self) -> (full: bool)
        ensures
            full == (self.leds().len() >= self.spec_config().length),
    {
        self.led_collection.len() >= self.config.length
    }

    /// The renderer's state.
    pub fn state(&self) -> (s: RendererState)
        ensures
            s == self.spec_state(),
    {
        self.state
    }

    /// The time between two frames, in whole milliseconds.
    pub fn update_interval_millis(&self) -> (millis: u64)
        requires
            self.wf(),
        ensures
            millis == period_millis(self.spec_config().frequency),
    {
        self.update_interval_millis
    }

    /// Starts the renderer: an idle one runs from now on, and the result is
    /// `true`. In any other state nothing changes.
    pub fn start(&mut self) -> (started: bool)
        ensures
            started == (old(self).spec_state() == RendererState::Idle),
            final(self).spec_state() == old(self).spec_state().after_start(),
            final(self).leds() == old(self).leds(),
            final(self).spec_config() == old(self).spec_config(),
            final(self).spec_device() == old(self).spec_device(),
            final(self).frames_handed() == old(self).frames_handed(),
            old(self).wf() ==> final(self).wf(),
    {
        if self.state == RendererState::Idle {
            self.state = RendererState::Running;
            true
        } else {
            false
        }
    }

    /// Begins the shutdown: unless the renderer has stopped or is draining
    /// already, the lights are reset, the state becomes `Draining`, and the
    /// result is the dark frame to write. Otherwise nothing changes and there
    /// is nothing to write.
    pub fn begin_stop(&mut self) -> (frame: Option<Vec<u8>>)
        requires
            old(self).wf(),
        ensures
            final(self).wf(),
            final(self).spec_config() == old(self).spec_config(),
            final(self).spec_device() == old(self).spec_device(),
            final(self).frames_handed() == old(self).frames_handed(),
            match frame {
                Some(bytes) => {
                    &&& old(self).spec_state() == RendererState::Idle || old(self).spec_state()
                        == RendererState::Running
                    &&& final(self).spec_state() == RendererState::Draining
                    &&& final(self).leds() == all_cleared(old(self).leds())
                    &&& bytes@ == frame_of(final(self).leds(), old(self).spec_config().length as nat)
                    &&& bytes@ == dark_frame(old(self).spec_config().length as nat)
                },
                None => {
                    &&& old(self).spec_state() == RendererState::Draining || old(self).spec_state()
                        == RendererState::Stopped
                    &&& final(self).spec_state() == old(self).spec_state()
                    &&& final(self).leds() == old(self).leds()
                },
            },
    {
        match self.state {
            RendererState::Draining | RendererState::Stopped => None,
            _ => {
                proof {
                    lemma_cleared_frame_is_dark(self.leds(), self.config.length as nat);
                }
                self.state = RendererState::Draining;
                self.led_collection.reset_all();
                Some(self.frame())
            },
        }
    }

    /// Ends the shutdown: a draining renderer is stopped, whether the dark
    /// frame was written or not. In any other state nothing changes.
    pub fn finish_stop(&mut self)
        ensures
            final(self).spec_state() == if old(self).spec_state() == RendererState::Draining {
                RendererState::Stopped
            } else {
                old(self).spec_state()
            },
            final(self).leds() == old(self).leds(),
            final(self).spec_config() == old(self).spec_config(),
            final(self).spec_device() == old(self).spec_device(),
            final(self).frames_handed() == old(self).frames_handed(),
            old(self).wf() ==> final(self).wf(),
    {
        if self.state == RendererState::Draining {
            self.state = RendererState::Stopped;
        }
    }

    /// Stops the renderer. Unless it has stopped before, the lights are
    /// reset and the dark frame is handed to the device exactly once; the
    /// renderer is stopped afterwards whether that write succeeded or not. A
    /// stopped renderer is left as it is: nothing is reset, nothing written.
    pub fn stop(&mut self) -> (report: StopReport)
        requires
            old(self).wf(),
        ensures
            final(self).wf(),
            final(self).spec_state() == old(self).spec_state().after_stop(),
            final(self).spec_config() == old(self).spec_config(),
            report is AlreadyStopped <==> old(self).spec_state().frames_on_stop() == 0,
            old(self).spec_state() == RendererState::Stopped ==> {
                &&& final(self).leds() == old(self).leds()
                &&& final(self).spec_device() == old(self).spec_device()
                &&& final(self).frames_handed() == old(self).frames_handed()
            },
            old(self).spec_state() != RendererState::Stopped ==> {
                &&& final(self).leds() == all_cleared(old(self).leds())
                &&& final(self).frames_handed() == old(self).frames_handed().push(
                    dark_frame(old(self).spec_config().length as nat),
                )
                &&& exists|answer: Result<usize, DeviceError>|
                    report == StopReport::Flushed(
                        #[trigger] write_verdict(
                            answer,
                            (4 * old(self).spec_config().length) as usize,
                        ),
                    )
            },
    {
        if self.state == RendererState::Stopped {
            return StopReport::AlreadyStopped;
        }
        proof {
            lemma_cleared_frame_is_dark(self.leds(), self.config.length as nat);
        }
        self.state = RendererState::Draining;
        self.led_collection.reset_all();
        let frame = self.frame();
        let answer = self.spi_device.write(frame.as_slice());
        self.handed = Ghost(self.handed@.push(frame@));
        let verdict = classify_write(answer, frame.len());
        assert(verdict == write_verdict(answer, (4 * self.config.length) as usize));
        self.state = RendererState::Stopped;
        let report = StopReport::Flushed(verdict);
        assert(report == StopReport::Flushed(
            write_verdict(answer, (4 * old(self).spec_config().length) as usize),
        ));
        report
    }
}

} // verus!
