//! A backlight whose brightness is read from and written to small text
//! files, one number each, under one directory.
//!
//! Nothing here opens a file. `Intel` keeps what has been read, says which
//! file is to be read next and what is to be written, and takes the contents
//! of the files as text.

use crate::decimal::decimal_text;
use crate::decimal::lemma_render_then_parse;
use crate::decimal::parse_i32_spec;
use crate::decimal::parse_trimmed_i32;
use crate::decimal::render_i32;
use crate::decimal::trim;
use crate::error::Error;
use crate::percent::native_of;
use crate::percent::percent_of;
use crate::percent::percent_of_native;
use crate::percent::Percent;
use crate::util::clamp;
use crate::util::clamp_int;
use vstd::prelude::*;
use vstd::string::StringExecFns;
use vstd::string::StringSliceAdditionalSpecFns;
use vstd::utf8::encode_utf8;
use vstd::utf8::is_char_boundary;

verus! {

/// One of the files of a device.
#[derive(Clone, Copy, Debug, PartialEq, Eq)]
pub enum Attribute {
    /// The highest level that the device can be set to. Read only.
    MaxBrightness,
    /// The level that the device is at. Read only.
    ActualBrightness,
    /// The level that the device is to go to. Written only.
    Brightness,
}

impl Attribute {
    /// The name of the file, as characters.
    pub open spec fn name_spec(self) -> Seq<char> {
        match self {
            Attribute::MaxBrightness => "max_brightness"@,
            Attribute::ActualBrightness => "actual_brightness"@,
            Attribute::Brightness => "brightness"@,
        }
    }

    /// The name of the file, below the device's directory.
    pub fn name(self) -> (name: &'static str)
        ensures
            name@ == self.name_spec(),
    {
        match self {
            Attribute::MaxBrightness => "max_brightness",
            Attribute::ActualBrightness => "actual_brightness",
            Attribute::Brightness => "brightness",
        }
    }
}

/// A device as a mathematical value: where it is, and what is known of it.
pub struct IntelView {
    /// The device's directory.
    pub path: Seq<char>,
    /// The highest level, once it has been read.
    pub max: Option<i32>,
    /// The level that the device is at, as far as known: as last read, or as
    /// last set.
    pub actual: Option<i32>,
}

impl IntelView {
    /// What is known of the device is possible: the highest level is above
    /// zero, and the level lies between zero and the highest level, which is
    /// always known first.
    pub open spec fn wf(self) -> bool {
        &&& self.max is Some ==> self.max->0 > 0
        &&& self.actual is Some ==> self.max is Some && 0 <= self.actual->0 <= self.max->0
    }

    /// The file that is to be read next: the highest level first, then the
    /// current level, then nothing.
    pub open spec fn missing(self) -> Option<Attribute> {
        if self.max is None {
            Some(Attribute::MaxBrightness)
        } else if self.actual is None {
            Some(Attribute::ActualBrightness)
        } else {
            None
        }
    }

    /// The device after `contents` was read from the file that was missing,
    /// or why `contents` cannot be what that file holds.
    pub open spec fn updated(self, contents: Seq<char>) -> Result<IntelView, Error> {
        match self.missing() {
            None => Ok(self),
            Some(attribute) => match parse_i32_spec(trim(contents)) {
                None => Err(Error::NotANumber),
                Some(number) => if attribute == Attribute::MaxBrightness {
                    if number > 0 {
                        Ok(IntelView { max: Some(number), ..self })
                    } else {
                        Err(Error::OutOfRange)
                    }
                } else {
                    if 0 <= number <= self.max->0 {
                        Ok(IntelView { actual: Some(number), ..self })
                    } else {
                        Err(Error::OutOfRange)
                    }
                },
            },
        }
    }

    /// The level that a request for `value` sets the device to: `value` held
    /// to the device's range.
    pub open spec fn level_for(self, value: int) -> int
        recommends
            self.max is Some,
    {
        clamp_int(value, 0, self.max->0 as int)
    }

    /// The device after it was set to `value`.
    pub open spec fn after_set(self, value: int) -> IntelView
        recommends
            self.max is Some,
    {
        IntelView { actual: Some(self.level_for(value) as i32), ..self }
    }

    /// The device with its level forgotten, so that it is read again.
    pub open spec fn refreshed(self) -> IntelView {
        IntelView { actual: None, ..self }
    }
}

/// A backlight under a directory of its own, with the files of `Attribute`.
pub struct Intel {
    path: String,
    max: Option<i32>,
    actual: Option<i32>,
}

impl View for Intel {
    type V = IntelView;

    closed spec fn view(&self) -> IntelView {
        IntelView { path: self.path@, max: self.max, actual: self.actual }
    }
}

impl Intel {
    #[verifier::type_invariant]
    closed spec fn inv(self) -> bool {
        self@.wf()
    }

    /// The device under the directory `path`, with nothing read yet.
    pub fn new(path: &str) -> (device: Intel)
        ensures
            device@ == (IntelView { path: path@, max: None, actual: None }),
            device@.wf(),
    {
        Intel { path: String::from_str(path), max: None, actual: None }
    }

    /// The file that is to be read next and handed to `update_internal`, if
    /// anything is still to be read.
    pub fn missing(&self) -> (attribute: Option<Attribute>)
        ensures
            attribute == self@.missing(),
            self@.wf(),
    {
        proof {
            use_type_invariant(self);
        }
        if self.max.is_none() {
            Some(Attribute::MaxBrightness)
        } else if self.actual.is_none() {
            Some(Attribute::ActualBrightness)
        } else {
            None
        }
    }

    /// The full name of one of the device's files: the directory, a slash, and
    /// the file's name.
    pub fn file(&self, attribute: Attribute) -> (name: String)
        ensures
            name@ == self@.path + seq!['/'] + attribute.name_spec(),
    {
        proof {
            reveal_strlit("/");
        }
        let mut name = self.path.clone();
        name.append("/");
        name.append(attribute.name());
        assert("/"@ =~= seq!['/']);
        name
    }

    /// Reads the number that a device file holds: a decimal integer of 32
    /// bits, with blanks allowed around it. Anything else is `NotANumber`.
    pub fn get_number(contents: &str) -> (number: Result<i32, Error>)
        ensures
            match parse_i32_spec(trim(contents@)) {
                Some(value) => number == Ok::<i32, Error>(value),
                None => number == Err::<i32, Error>(Error::NotANumber),
            },
    {
        match parse_trimmed_i32(contents) {
            Some(value) => Ok(value),
            None => Err(Error::NotANumber),
        }
    }

    /// Takes in the contents of the file that `missing` named.
    ///
    /// The number is kept for the rest of the device's life. Contents that are
    /// no number, a highest level that is not above zero, and a level outside
    /// the device's range are refused, and leave the device as it was. Where
    /// nothing was missing, nothing changes.
    pub fn update_internal(&mut self, contents: &str) -> (outcome: Result<(), Error>)
        ensures
            match old(self)@.updated(contents@) {
                Ok(device) => outcome is Ok && final(self)@ == device,
                Err(error) => outcome == Err::<(), Error>(error) && final(self)@ == old(self)@,
            },
            final(self)@.wf(),
    {
        proof {
            use_type_invariant(&*self);
        }
        match self.max {
            None => {
                let number = Self::get_number(contents)?;
                if number > 0 {
                    self.max = Some(number);
                    Ok(())
                } else {
                    Err(Error::OutOfRange)
                }
            },
            Some(max) => {
                if self.actual.is_none() {
                    let number = Self::get_number(contents)?;
                    if 0 <= number && number <= max {
                        self.actual = Some(number);
                        Ok(())
                    } else {
                        Err(Error::OutOfRange)
                    }
                } else {
                    Ok(())
                }
            },
        }
    }

    /// The highest level of the device, once it has been read.
    pub fn max(&self) -> (max: Option<i32>)
        ensures
            max == self@.max,
            self@.wf(),
    {
        proof {
            use_type_invariant(self);
        }
        self.max
    }

    /// The level of the device, as a share of the highest level and in the
    /// device's own unit, once both have been read.
    pub fn get(&self) -> (level: Option<(Percent, i32)>)
        ensures
            self@.wf(),
            match level {
                Some((share, native)) => self@.actual == Some(native) && share.thousandths
                    == percent_of(native as int, self@.max->0 as int),
                None => self@.actual is None,
            },
    {
        proof {
            use_type_invariant(self);
        }
        match (self.max, self.actual) {
            (Some(max), Some(actual)) => Some((percent_of_native(actual, max), actual)),
            _ => None,
        }
    }

    /// Sets the device to `value`, held to the device's range, and hands out
    /// the text to write to the file `Brightness`.
    ///
    /// The device counts as being at the new level from here on. The same
    /// value asked for twice is handed out twice: nothing is held back
    /// because the device should be there already. Before the highest level
    /// has been read nothing can be set, and nothing is handed out.
    pub fn set_native(&mut self, value: i32) -> (text: Option<String>)
        ensures
            final(self)@.wf(),
            old(self)@.max is None ==> text is None && final(self)@ == old(self)@,
            old(self)@.max is Some ==> text is Some && final(self)@ == old(self)@.after_set(
                value as int,
            ) && text->0@ == decimal_text(old(self)@.level_for(value as int)),
            text is Some ==> parse_i32_spec(trim(text->0@)) == final(self)@.actual,
    {
        proof {
            use_type_invariant(&*self);
        }
        match self.max {
            None => None,
            Some(max) => {
                let level: i32 = clamp(value, 0, max);
                proof {
                    lemma_render_then_parse(level);
                }
                self.actual = Some(level);
                Some(render_i32(level))
            },
        }
    }

    /// Sets the device to the share `value` of its highest level, rounded to
    /// the nearest unit of the device, as `set_native` does.
    pub fn set(&mut self, value: Percent) -> (text: Option<String>)
        ensures
            final(self)@.wf(),
            old(self)@.max is None ==> text is None && final(self)@ == old(self)@,
            old(self)@.max is Some ==> text is Some && final(self)@ == old(self)@.after_set(
                native_of(value.thousandths as int, old(self)@.max->0 as int),
            ) && text->0@ == decimal_text(
                native_of(value.thousandths as int, old(self)@.max->0 as int),
            ),
            text is Some ==> parse_i32_spec(trim(text->0@)) == final(self)@.actual,
    {
        proof {
            use_type_invariant(&*self);
        }
        match self.max {
            None => None,
            Some(max) => {
                let level: i32 = value.to_native(max);
                self.set_native(level)
            },
        }
    }

    /// Forgets the level, so that `missing` asks for it to be read again.
    pub fn refresh(&mut self)
        ensures
            final(self)@ == old(self)@.refreshed(),
            final(self)@.wf(),
    {
        proof {
            use_type_invariant(&*self);
        }
        self.actual = None;
    }
}

/// The device that `device` names: what follows the first seven bytes, which
/// hold the scheme, `file://`.
pub fn create_backlight(device: &str) -> (backlight: Intel)
    requires
        is_char_boundary(device.spec_bytes(), 7),
    ensures
        encode_utf8(backlight@.path) == device.spec_bytes().subrange(
            7,
            device.spec_bytes().len() as int,
        ),
        backlight@.max is None,
        backlight@.actual is None,
{
    let (_, path) = device.split_at(7);
    Intel::new(path)
}

/// Setting a share of the highest level and reading the device again gives
/// that share of the highest level, rounded to the nearest unit and held to
/// the device's range: the text that goes to the device is read back as the
/// level that was set.
pub proof fn lemma_set_then_read(device: IntelView, share: int)
    requires
        device.wf(),
        device.max is Some,
    ensures
        device.after_set(native_of(share, device.max->0 as int)).refreshed().updated(
            decimal_text(native_of(share, device.max->0 as int)),
        ) == Ok::<IntelView, Error>(device.after_set(native_of(share, device.max->0 as int))),
        device.after_set(native_of(share, device.max->0 as int)).actual == Some(
            native_of(share, device.max->0 as int) as i32,
        ),
{
    let level = native_of(share, device.max->0 as int);
    lemma_render_then_parse(level as i32);
}

} // verus!
