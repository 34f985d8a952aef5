//! The one stateful entity: a resolved backlight interface in memory.
//!
//! A `Device` owns the paths of its two backing files, the raw brightness
//! last loaded or set, and the immutable maximum.  Construction parses
//! the text of both files; mutation is purely in memory; `save_payload`
//! renders the text that the shell writes back.  No operation here
//! touches the filesystem.
//!
//! Two invocations of the tool against the same interface race at the
//! filesystem level (last writer wins); nothing here locks the files.

use crate::errors::BrightnessError;
use crate::numtext::dec_digits;
use crate::numtext::dec_val;
use crate::numtext::is_u32_text;
use crate::numtext::lemma_render_parse_round_trip;
use crate::numtext::parse_trimmed_u32;
use crate::numtext::render_u64;
use crate::numtext::spec_trim;
use crate::numtext::unsigned_digits;
use crate::percent::clamp_percent;
use crate::percent::lemma_percent_round_trip;
use crate::percent::lemma_raw_in_range;
use crate::percent::MAX_PERCENT_MILLI;
use crate::percent::MIN_PERCENT_MILLI;
use crate::percent::PERCENT_SCALE_MILLI;
use crate::percent::get_percentage;
use crate::percent::get_value_from_percentage;
use crate::percent::spec_clamp_percent;
use crate::percent::spec_percent_from_raw;
use crate::percent::spec_raw_from_percent;
use crate::resolve::brightness_path_of;
use crate::resolve::max_brightness_path_of;
use crate::resolve::spec_brightness_path;
use crate::resolve::spec_max_brightness_path;
use vstd::prelude::*;

verus! {

/// The in-memory state of one resolved backlight interface.
pub struct Device {
    /// Where the mutable raw brightness lives on disk.
    pub brightness_path: String,
    /// Where the read-only maximum lives on disk; read once, never written.
    pub max_brightness_path: String,
    /// The current raw value, in the device's native range.  In memory
    /// only until the payload of `save_payload` is written back.
    pub brightness: u32,
    /// The top of the native range; constant for the device's lifetime.
    pub max_brightness: u32,
}

impl Device {
    /// Well-formed: a usable device has a positive maximum, so that
    /// percentage conversions are defined.
    pub open spec fn wf(self) -> bool {
        self.max_brightness >= 1
    }

    /// Build a device for `interface_name` from the text of its two
    /// backing files.  Both texts must parse as trimmed unsigned
    /// integers; a maximum of zero is rejected like any other
    /// out-of-range value, since no percentage is defined on it.  Any
    /// failure aborts construction: there is no partial device.
    pub fn new(interface_name: &str, brightness_text: &str, max_brightness_text: &str) -> (r:
        Result<Device, BrightnessError>)
        ensures
            r is Ok <==> is_u32_text(spec_trim(brightness_text@)) && is_u32_text(
                spec_trim(max_brightness_text@),
            ) && dec_val(unsigned_digits(spec_trim(max_brightness_text@))) >= 1,
            r matches Ok(d) ==> d.wf() && d.brightness as int == dec_val(
                unsigned_digits(spec_trim(brightness_text@)),
            ) && d.max_brightness as int == dec_val(unsigned_digits(spec_trim(max_brightness_text@)))
                && d.brightness_path@ == spec_brightness_path(interface_name@)
                && d.max_brightness_path@ == spec_max_brightness_path(interface_name@),
            r matches Err(e) ==> e is ReadError,
    {
        let brightness = match parse_trimmed_u32(brightness_text) {
            Some(v) => v,
            None => {
                return Err(BrightnessError::ReadError);
            },
        };
        let max_brightness = match parse_trimmed_u32(max_brightness_text) {
            Some(v) => v,
            None => {
                return Err(BrightnessError::ReadError);
            },
        };
        if max_brightness == 0 {
            return Err(BrightnessError::ReadError);
        }
        Ok(
            Device {
                brightness_path: brightness_path_of(interface_name),
                max_brightness_path: max_brightness_path_of(interface_name),
                brightness,
                max_brightness,
            },
        )
    }

    /// The current brightness as milli-percent of the maximum.  No
    /// clamping: a raw value beyond the maximum (written by someone
    /// else) reads as more than 100%.
    pub fn get_brightness(&self) -> (r: u64)
        requires
            self.wf(),
        ensures
            r as int == spec_percent_from_raw(self.brightness as int, self.max_brightness as int),
    {
        get_percentage(self.brightness, self.max_brightness)
    }

    /// Set the brightness to a percentage: the input is clamped into
    /// `[0.1%, 100%]`, converted to a raw value with truncation, and
    /// stored.  In memory only; paths and maximum stay as they are.
    pub fn set_brightness(&mut self, percent_milli: i64)
        requires
            old(self).wf(),
        ensures
            final(self).wf(),
            final(self).brightness as int == spec_raw_from_percent(
                spec_clamp_percent(percent_milli as int),
                old(self).max_brightness as int,
            ),
            final(self).brightness <= final(self).max_brightness,
            final(self).max_brightness == old(self).max_brightness,
            final(self).brightness_path == old(self).brightness_path,
            final(self).max_brightness_path == old(self).max_brightness_path,
    {
        let clamped: u64 = clamp_percent(percent_milli as i128);
        self.brightness = get_value_from_percentage(clamped, self.max_brightness);
    }

    /// Change the brightness by a signed percentage delta: exactly
    /// setting to the current percentage plus the delta, so the clamp
    /// applies to the resulting absolute percentage, never to the delta
    /// itself.
    pub fn adjust_signed(&mut self, delta_milli: i128)
        requires
            old(self).wf(),
            i64::MIN as i128 - 1 <= delta_milli <= i64::MAX as i128 + 1,
        ensures
            final(self).wf(),
            final(self).brightness as int == spec_raw_from_percent(
                spec_clamp_percent(
                    spec_percent_from_raw(
                        old(self).brightness as int,
                        old(self).max_brightness as int,
                    ) + delta_milli,
                ),
                old(self).max_brightness as int,
            ),
            final(self).brightness <= final(self).max_brightness,
            final(self).max_brightness == old(self).max_brightness,
            final(self).brightness_path == old(self).brightness_path,
            final(self).max_brightness_path == old(self).max_brightness_path,
    {
        let current: u64 = get_percentage(self.brightness, self.max_brightness);
        let sum: i128 = current as i128 + delta_milli;
        let clamped: u64 = clamp_percent(sum);
        self.brightness = get_value_from_percentage(clamped, self.max_brightness);
    }

    /// Change the brightness by a signed percentage delta.
    pub fn adjust_brightness(&mut self, delta_milli: i64)
        requires
            old(self).wf(),
        ensures
            final(self).wf(),
            final(self).brightness as int == spec_raw_from_percent(
                spec_clamp_percent(
                    spec_percent_from_raw(
                        old(self).brightness as int,
                        old(self).max_brightness as int,
                    ) + delta_milli,
                ),
                old(self).max_brightness as int,
            ),
            final(self).brightness <= final(self).max_brightness,
            final(self).max_brightness == old(self).max_brightness,
            final(self).brightness_path == old(self).brightness_path,
            final(self).max_brightness_path == old(self).max_brightness_path,
    {
        self.adjust_signed(delta_milli as i128);
    }

    /// The exact text to write back to `brightness_path`: the decimal
    /// digits of the current raw value, overwriting the whole file.
    pub fn save_payload(&self) -> (r: String)
        ensures
            r@ == dec_digits(self.brightness as int),
    {
        render_u64(self.brightness as u64)
    }

    /// Save round trip: the text that `save_payload` writes parses back
    /// to the same raw value, so a device rebuilt from the saved file and
    /// the unchanged maximum file reads the same percentage.
    pub proof fn lemma_save_round_trip(self)
        ensures
            is_u32_text(spec_trim(dec_digits(self.brightness as int))),
            dec_val(unsigned_digits(spec_trim(dec_digits(self.brightness as int))))
                == self.brightness as int,
    {
        lemma_render_parse_round_trip(self.brightness as int);
    }

    /// Set, save, reload: after setting a valid percentage `p`, the saved
    /// text parses back to the stored raw value, and the percentage a
    /// rebuilt device reads never exceeds `p` and falls short of it by
    /// less than one raw unit's worth plus one milli-percent.
    pub proof fn lemma_set_save_reload(self, p: int)
        requires
            self.wf(),
            MIN_PERCENT_MILLI as int <= p <= MAX_PERCENT_MILLI as int,
        ensures
            is_u32_text(
                spec_trim(dec_digits(spec_raw_from_percent(p, self.max_brightness as int))),
            ),
            dec_val(
                unsigned_digits(
                    spec_trim(dec_digits(spec_raw_from_percent(p, self.max_brightness as int))),
                ),
            ) == spec_raw_from_percent(p, self.max_brightness as int),
            spec_percent_from_raw(
                spec_raw_from_percent(p, self.max_brightness as int),
                self.max_brightness as int,
            ) <= p,
            (p - spec_percent_from_raw(
                spec_raw_from_percent(p, self.max_brightness as int),
                self.max_brightness as int,
            )) * (self.max_brightness as int) < (PERCENT_SCALE_MILLI as int) + (
            self.max_brightness as int),
    {
        let max = self.max_brightness as int;
        lemma_raw_in_range(p, max);
        lemma_render_parse_round_trip(spec_raw_from_percent(p, max));
        lemma_percent_round_trip(p, max);
    }
}

} // verus!
