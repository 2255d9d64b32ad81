//! Borrowing the system default recording device for the length of a voice
//! session: switch it to the virtual cable's recording end, remember the
//! previous device, restore it afterwards. Off by default. This module holds
//! the decisions; reading and writing the default device is done by the
//! caller.
use vstd::prelude::*;
use crate::text::{chars_of, contains_chars, contains_seq, lower_chars, lower_seq, same_chars};

verus! {

pub open spec fn cable_output_marker() -> Seq<char> {
    seq!['c', 'a', 'b', 'l', 'e', ' ', 'o', 'u', 't', 'p', 'u', 't']
}

/// The virtual cable's recording endpoint: its name holds "CABLE Output"
/// (ASCII case ignored).
pub open spec fn spec_is_virtual_cable_output_name(name: Seq<char>) -> bool {
    contains_seq(lower_seq(name), cable_output_marker())
}

/// Whether a recording endpoint name is the virtual cable's recording end.
pub fn is_virtual_cable_output_name(name: &str) -> (b: bool)
    ensures
        b == spec_is_virtual_cable_output_name(name@),
{
    let chars = chars_of(name);
    let lowered = lower_chars(chars.as_slice());
    let marker = vec!['c', 'a', 'b', 'l', 'e', ' ', 'o', 'u', 't', 'p', 'u', 't'];
    assert(marker@ =~= cable_output_marker());
    contains_chars(lowered.as_slice(), marker.as_slice())
}

/// Start-up self check: a default recording device that looks like the
/// virtual cable means the last borrow was not restored.
pub fn looks_like_stale_borrow(default_capture_name: &str) -> (b: bool)
    ensures
        b == spec_is_virtual_cable_output_name(default_capture_name@),
{
    is_virtual_cable_output_name(default_capture_name)
}

/// The feature switch and the remembered device.
#[derive(Debug)]
pub struct DefaultCaptureBorrow {
    enabled: bool,
    saved: Option<String>,
}

pub open spec fn saved_view(o: Option<String>) -> Option<Seq<char>> {
    match o {
        Some(s) => Some(s@),
        None => None,
    }
}

impl DefaultCaptureBorrow {
    pub closed spec fn is_on(self) -> bool {
        self.enabled
    }

    /// The device to restore, if a borrow is in effect.
    pub closed spec fn saved_device(self) -> Option<Seq<char>> {
        saved_view(self.saved)
    }

    /// Switched off, nothing borrowed.
    pub fn new() -> (b: Self)
        ensures
            !b.is_on(),
            b.saved_device() is None,
    {
        DefaultCaptureBorrow { enabled: false, saved: None }
    }

    /// Turns the feature on or off; turning it off restores at once and
    /// returns the device to make default again, if one was borrowed.
    pub fn set_enabled(&mut self, enabled: bool) -> (restore_to: Option<String>)
        ensures
            final(self).is_on() == enabled,
            enabled ==> final(self).saved_device() == old(self).saved_device() && restore_to is None,
            !enabled ==> final(self).saved_device() is None && saved_view(restore_to) == old(
                self,
            ).saved_device(),
    {
        self.enabled = enabled;
        if !enabled {
            self.restore()
        } else {
            None
        }
    }

    pub fn is_enabled(&self) -> (b: bool)
        ensures
            b == self.is_on(),
    {
        self.enabled
    }

    pub fn borrowed(&self) -> (b: bool)
        ensures
            b == self.saved_device() is Some,
    {
        self.saved.is_some()
    }

    /// Whether switching to `target` is needed, given the current default
    /// `previous`: not while a borrow is in effect (the first saved device is
    /// kept), not when the target already is the default.
    pub fn needs_switch(&self, previous: &str, target: &str) -> (b: bool)
        ensures
            b == (self.saved_device() is None && previous@ != target@),
    {
        if self.saved.is_some() {
            return false;
        }
        let p = chars_of(previous);
        let t = chars_of(target);
        !same_chars(p.as_slice(), t.as_slice())
    }

    /// Records the device that was the default before a successful switch.
    pub fn remember(&mut self, previous: String)
        requires
            old(self).saved_device() is None,
        ensures
            final(self).saved_device() == Some(previous@),
            final(self).is_on() == old(self).is_on(),
    {
        self.saved = Some(previous);
    }

    /// Ends the borrow: returns the device to make default again (none when
    /// nothing was borrowed) and forgets it.
    pub fn restore(&mut self) -> (restore_to: Option<String>)
        ensures
            saved_view(restore_to) == old(self).saved_device(),
            final(self).saved_device() is None,
            final(self).is_on() == old(self).is_on(),
    {
        let mut taken: Option<String> = None;
        std::mem::swap(&mut taken, &mut self.saved);
        taken
    }

    /// The device to borrow for a voice session: only when switched on and
    /// a virtual cable recording endpoint was found.
    pub fn borrow_target(&self, cable_capture_id: Option<String>) -> (t: Option<String>)
        ensures
            saved_view(t) == if self.is_on() {
                saved_view(cable_capture_id)
            } else {
                None
            },
    {
        if !self.enabled {
            return None;
        }
        cable_capture_id
    }
}


} // verus!
