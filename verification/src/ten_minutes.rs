//! Periodic activity-window state machine.
//!
//! Once per tick the meter samples the wall clock modulo the window length,
//! detects window rollover, and derives a display icon from the accumulated
//! activity flags and the time remaining in the window.

use vstd::prelude::*;
use crate::classify::LogEvent;

verus! {

/// Length of one activity window, in seconds.
pub const TEN_MINUTES: u16 = 600;

/// Seconds before the end of a window in which the warning icon is shown.
pub const WARNING_THRESHOLD: u16 = 5;

/// Control messages fed into the meter by the event dispatcher.
#[derive(Clone, Copy, Debug, PartialEq, Eq, Structural)]
pub enum MeterControlMessage {
    PhotoDone,
    ScreenShotDone,
}

/// The display state surfaced to the icon sink, ordered by display priority.
#[derive(Clone, Copy, Debug, PartialEq, Eq, Structural)]
pub enum Icon {
    Stop,
    OK,
    Smile,
    Warning,
}

impl Icon {
    /// Name of the icon resource, as the icon sink expects it.
    pub open spec fn spec_name(self) -> Seq<char> {
        match self {
            Icon::Stop => "Stop"@,
            Icon::OK => "OK"@,
            Icon::Smile => "Smile"@,
            Icon::Warning => "Warning"@,
        }
    }

    /// Resource name of this icon.
    pub fn resource_name(&self) -> (s: String)
        ensures
            s@ == self.spec_name(),
    {
        match self {
            Icon::Stop => "Stop".to_owned(),
            Icon::OK => "OK".to_owned(),
            Icon::Smile => "Smile".to_owned(),
            Icon::Warning => "Warning".to_owned(),
        }
    }
}

/// The wall-clock sample of a tick: seconds since the epoch, modulo the
/// window length.
pub open spec fn elapsed_of(now_seconds: u64) -> u16 {
    (now_seconds % (TEN_MINUTES as u64)) as u16
}

/// Icon derived from the activity flags and the position in the window.
///
/// Priority order: a warning close to the end of the window dominates; then
/// both activities done; then the photo alone; otherwise stop.
pub open spec fn derive_icon(photo_done: bool, screenshot_done: bool, elapsed: u16) -> Icon {
    if TEN_MINUTES - elapsed <= WARNING_THRESHOLD {
        Icon::Warning
    } else if photo_done && screenshot_done {
        Icon::Smile
    } else if photo_done {
        Icon::OK
    } else {
        Icon::Stop
    }
}

/// The control message a classified log event feeds into the meter: a
/// finished camera picture counts as the photo, a saved screenshot as the
/// screenshot; other events drive no meter change.
pub open spec fn control_message_spec(event: LogEvent) -> Option<MeterControlMessage> {
    match event {
        LogEvent::CameraFinish => Some(MeterControlMessage::PhotoDone),
        LogEvent::ScreenshotSaved => Some(MeterControlMessage::ScreenShotDone),
        _ => None,
    }
}

/// The control message to forward to the meter for a classified event, if
/// any.
pub fn control_message_for(event: &LogEvent) -> (r: Option<MeterControlMessage>)
    ensures
        r == control_message_spec(*event),
{
    match event {
        LogEvent::CameraFinish => Some(MeterControlMessage::PhotoDone),
        LogEvent::ScreenshotSaved => Some(MeterControlMessage::ScreenShotDone),
        _ => None,
    }
}

/// Activity flags and display state over one ten-minute window.
pub struct TenMinutesMeter {
    /// Wall-clock sample (seconds modulo window length) of the previous tick.
    pub last_reminder: u16,
    /// A photo was taken in the current window.
    pub photo_done: bool,
    /// A screenshot was saved in the current window.
    pub screenshot_done: bool,
    /// The icon last emitted to the icon sink.
    pub current_icon: Icon,
}

/// The tick observes a smaller sample than the previous one: the window has
/// wrapped around since the last tick.
pub open spec fn rolled_over(m: TenMinutesMeter, now_seconds: u64) -> bool {
    m.last_reminder > elapsed_of(now_seconds)
}

/// The meter after one tick at the given wall-clock reading: on rollover
/// both flags clear; the icon is derived from the surviving flags and the
/// position in the window; the sample is retained for the next tick.
pub open spec fn spec_tick(m: TenMinutesMeter, now_seconds: u64) -> TenMinutesMeter {
    let elapsed = elapsed_of(now_seconds);
    let photo = !rolled_over(m, now_seconds) && m.photo_done;
    let screenshot = !rolled_over(m, now_seconds) && m.screenshot_done;
    TenMinutesMeter {
        last_reminder: elapsed,
        photo_done: photo,
        screenshot_done: screenshot,
        current_icon: derive_icon(photo, screenshot, elapsed),
    }
}

/// What a tick emits to the icon sink: the newly derived icon, or nothing
/// when it equals the icon already shown.
pub open spec fn spec_emit(m: TenMinutesMeter, now_seconds: u64) -> Option<Icon> {
    if spec_tick(m, now_seconds).current_icon == m.current_icon {
        None
    } else {
        Some(spec_tick(m, now_seconds).current_icon)
    }
}

impl TenMinutesMeter {
    /// A meter at the start: no activity seen, stop icon shown.
    pub fn new() -> (m: TenMinutesMeter)
        ensures
            m.last_reminder == 0,
            !m.photo_done,
            !m.screenshot_done,
            m.current_icon == Icon::Stop,
    {
        TenMinutesMeter {
            last_reminder: 0,
            photo_done: false,
            screenshot_done: false,
            current_icon: Icon::Stop,
        }
    }

    /// Record one pending activity signal. Signals only ever set flags; they
    /// are cleared together at window rollover.
    pub fn apply_signal(&mut self, m: &MeterControlMessage)
        ensures
            final(self).photo_done == (old(self).photo_done || *m is PhotoDone),
            final(self).screenshot_done == (old(self).screenshot_done || *m is ScreenShotDone),
            final(self).last_reminder == old(self).last_reminder,
            final(self).current_icon == old(self).current_icon,
    {
        match m {
            MeterControlMessage::PhotoDone => {
                self.photo_done = true;
            },
            MeterControlMessage::ScreenShotDone => {
                self.screenshot_done = true;
            },
        }
    }

    /// One timer tick: sample the clock modulo the window length, clear both
    /// flags on rollover, derive the icon, and report it only when it
    /// changes.
    ///
    /// Returns the icon to emit to the icon sink, or `None` when the derived
    /// icon equals the one already shown.
    pub fn tick(&mut self, now_seconds: u64) -> (emit: Option<Icon>)
        ensures
            *final(self) == spec_tick(*old(self), now_seconds),
            emit == spec_emit(*old(self), now_seconds),
    {
        let reminder: u16 = (now_seconds % (TEN_MINUTES as u64)) as u16;

        if self.last_reminder > reminder {
            self.photo_done = false;
            self.screenshot_done = false;
        }

        let icon: Icon = if TEN_MINUTES - reminder <= WARNING_THRESHOLD {
            Icon::Warning
        } else if self.photo_done && self.screenshot_done {
            Icon::Smile
        } else if self.photo_done {
            Icon::OK
        } else {
            Icon::Stop
        };

        self.last_reminder = reminder;

        if icon != self.current_icon {
            self.current_icon = icon;
            Some(icon)
        } else {
            None
        }
    }
}

/// Window rollover clears both flags: a tick that observes a smaller sample
/// than the previous tick resets both activity flags, and outside the
/// warning zone the derived state falls back to stop, whatever the flags
/// held before.
pub proof fn lemma_rollover_clears_flags(m: TenMinutesMeter, now_seconds: u64)
    requires
        rolled_over(m, now_seconds),
        TEN_MINUTES - elapsed_of(now_seconds) > WARNING_THRESHOLD,
    ensures
        !spec_tick(m, now_seconds).photo_done,
        !spec_tick(m, now_seconds).screenshot_done,
        spec_tick(m, now_seconds).current_icon == Icon::Stop,
{
}

/// Warning dominates: within the last seconds of the window the derived
/// icon is the warning, regardless of the flag values.
pub proof fn lemma_warning_dominates(photo_done: bool, screenshot_done: bool, elapsed: u16)
    requires
        TEN_MINUTES - elapsed <= WARNING_THRESHOLD,
    ensures
        derive_icon(photo_done, screenshot_done, elapsed) == Icon::Warning,
{
}

/// Idempotent ticks: a second tick with no new signals, no rollover, and an
/// unchanged warning-zone position emits nothing to the icon sink and leaves
/// the flags and the shown icon as they were.
pub proof fn lemma_second_tick_emits_nothing(m: TenMinutesMeter, now1: u64, now2: u64)
    requires
        elapsed_of(now1) <= elapsed_of(now2),
        (TEN_MINUTES - elapsed_of(now1) <= WARNING_THRESHOLD) == (TEN_MINUTES - elapsed_of(now2)
            <= WARNING_THRESHOLD),
    ensures
        spec_emit(spec_tick(m, now1), now2) is None,
        spec_tick(spec_tick(m, now1), now2).photo_done == spec_tick(m, now1).photo_done,
        spec_tick(spec_tick(m, now1), now2).screenshot_done == spec_tick(m, now1).screenshot_done,
        spec_tick(spec_tick(m, now1), now2).current_icon == spec_tick(m, now1).current_icon,
{
}

} // verus!
