//! What the user asks for, and the run that it leads to.

use crate::backlight::Intel;
use crate::backlight::IntelView;
use crate::engine::initial;
use crate::engine::Engine;
use crate::percent::native_of;
use crate::percent::shift_native;
use crate::percent::shifted_native;
use crate::percent::Percent;
use crate::transition::as_ints;
use crate::transition::interval_spec;
use crate::transition::steps_spec;
use vstd::prelude::*;

verus! {

/// What is to be done with the brightness.
#[derive(Clone, Copy, Debug, PartialEq, Eq)]
pub enum Action {
    /// Report the level.
    Get,
    /// Go to the share `set` of the highest level.
    SetTo { set: Percent },
    /// Go up by the share `inc` of the highest level.
    Inc { inc: Percent },
    /// Go down by the share `dec` of the highest level.
    Dec { dec: Percent },
}

/// One invocation: what is to be done, and how.
#[derive(Debug)]
pub struct Opt {
    /// Show nothing and print nothing.
    pub quiet: bool,
    /// The time that the change is to take, in milliseconds.
    pub time: Option<u64>,
    /// What is to be done.
    pub action: Action,
    /// The device, where it is not the usual one: `file://` and a directory.
    pub device: Option<String>,
}

impl Action {
    /// The level that the action asks for on a device that is at `current`
    /// and whose highest level is `max`, rounded to the nearest unit and held
    /// to the device's range. `Get` asks for none.
    pub open spec fn target_spec(self, current: int, max: int) -> Option<int> {
        match self {
            Action::Get => None,
            Action::SetTo { set } => Some(native_of(set.thousandths as int, max)),
            Action::Inc { inc } => Some(shifted_native(current, inc.thousandths as int, max)),
            Action::Dec { dec } => Some(shifted_native(current, -(dec.thousandths as int), max)),
        }
    }

    /// Computes `target_spec`.
    pub fn target(&self, current: i32, max: i32) -> (level: Option<i32>)
        requires
            max > 0,
        ensures
            match self.target_spec(current as int, max as int) {
                Some(native) => level == Some(native as i32) && 0 <= native <= max,
                None => level is None,
            },
    {
        match *self {
            Action::Get => None,
            Action::SetTo { set } => Some(set.to_native(max)),
            Action::Inc { inc } => Some(shift_native(current, inc.thousandths as i64, max)),
            Action::Dec { dec } => Some(shift_native(current, -(dec.thousandths as i64), max)),
        }
    }
}

/// The device that is used where none is named.
pub const DEFAULT_DEVICE: &'static str = "file:///sys/class/backlight/intel_backlight";

impl Opt {
    /// The device to use: the one that was named, else the usual one.
    pub fn device_name(&self) -> (name: &str)
        ensures
            name@ == (match self.device {
                Some(named) => named@,
                None => DEFAULT_DEVICE@,
            }),
    {
        match &self.device {
            Some(named) => named.as_str(),
            None => DEFAULT_DEVICE,
        }
    }

    /// Begins the run that this invocation asks for on `device`, with `id` as
    /// the notification that an earlier run has left.
    ///
    /// There is none for `Get`, and none before the device has been read.
    /// Otherwise the run goes from the device's level to the level that the
    /// action asks for, paced where a time was given.
    pub fn transition(&self, device: &Intel, id: Option<u32>) -> (engine: Option<Engine>)
        ensures
            match transition_target(self.action, device@) {
                None => engine is None,
                Some(target) => engine is Some && engine->0@.wf() && engine->0@ == initial(
                    engine->0@.steps,
                    engine->0@.interval,
                    self.quiet,
                    id,
                ) && as_ints(engine->0@.steps) == steps_spec(
                    device@.actual->0 as int,
                    target,
                    self.time is Some,
                ) && engine->0@.interval == interval_spec(
                    device@.actual->0 as int,
                    target,
                    self.time,
                ),
            },
    {
        let max = device.max();
        match device.get() {
            None => None,
            Some((_, current)) => {
                let max: i32 = max.unwrap();
                match self.action.target(current, max) {
                    None => None,
                    Some(target) => Some(
                        Engine::new(current, target, max, self.time, self.quiet, id),
                    ),
                }
            },
        }
    }
}

/// The level that `action` leads to on `device`, where it leads anywhere:
/// none for `Get`, and none while the device's level is unknown.
pub open spec fn transition_target(action: Action, device: IntelView) -> Option<int> {
    if device.actual is None || device.max is None {
        None
    } else {
        action.target_spec(device.actual->0 as int, device.max->0 as int)
    }
}

} // verus!
