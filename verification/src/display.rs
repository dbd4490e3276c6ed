//! What the locker decides about its X11 display: the extensions it uses,
//! whether the monitor is powered, how to change that, and which events to
//! listen for on the windows it observes.

use vstd::prelude::*;
use crate::config::Locker;

verus! {

/// `KeyPressMask` of the X11 protocol.
pub const KEY_PRESS_MASK: i64 = 0x0000_0001;

/// `KeyReleaseMask` of the X11 protocol.
pub const KEY_RELEASE_MASK: i64 = 0x0000_0002;

/// `PointerMotionMask` of the X11 protocol.
pub const POINTER_MOTION_MASK: i64 = 0x0000_0040;

/// `SubstructureNotifyMask` of the X11 protocol.
pub const SUBSTRUCTURE_NOTIFY_MASK: i64 = 0x0008_0000;

/// The predefined atom `CARDINAL` of the X11 protocol.
pub const XA_CARDINAL: u64 = 6;

/// The event and error bases of an X11 extension.
#[derive(Clone, Copy, Debug, PartialEq, Eq, Structural)]
pub struct Extension {
    event: i32,
    error: i32,
}

impl Extension {
    /// The first event code of the extension.
    pub closed spec fn event_base(self) -> i32 {
        self.event
    }

    /// The first error code of the extension.
    pub closed spec fn error_base(self) -> i32 {
        self.error
    }

    /// An extension with the given event and error bases.
    pub fn new(event: i32, error: i32) -> (e: Extension)
        ensures
            e.event_base() == event,
            e.error_base() == error,
    {
        Extension { event, error }
    }

    /// The code of the extension's event number `event`.
    pub fn event(&self, event: i32) -> (code: i32)
        requires
            i32::MIN <= self.event_base() + event <= i32::MAX,
        ensures
            code == self.event_base() + event,
    {
        self.event + event
    }

    /// The code of the extension's error number `error`.
    pub fn error(&self, error: i32) -> (code: i32)
        requires
            i32::MIN <= self.error_base() + error <= i32::MAX,
        ensures
            code == self.error_base() + error,
    {
        self.error + error
    }
}

/// Atoms that the locker interns on its display.
#[derive(Clone, Copy, Debug, PartialEq, Eq, Structural)]
pub struct Atoms {
    /// The atom that marks the locker's own windows.
    pub saver: u64,
}

/// The power levels of DPMS.
#[derive(Clone, Copy, Debug, PartialEq, Eq, Structural)]
pub enum DpmsLevel {
    On,
    Standby,
    Suspend,
    Off,
}

impl DpmsLevel {
    /// The level with the given DPMS protocol number, if there is one.
    pub fn from_raw(level: u16) -> (r: Option<DpmsLevel>)
        ensures
            r == (if level == 0 {
                Some(DpmsLevel::On)
            } else if level == 1 {
                Some(DpmsLevel::Standby)
            } else if level == 2 {
                Some(DpmsLevel::Suspend)
            } else if level == 3 {
                Some(DpmsLevel::Off)
            } else {
                None
            }),
    {
        if level == 0 {
            Some(DpmsLevel::On)
        } else if level == 1 {
            Some(DpmsLevel::Standby)
        } else if level == 2 {
            Some(DpmsLevel::Suspend)
        } else if level == 3 {
            Some(DpmsLevel::Off)
        } else {
            None
        }
    }

    /// The DPMS protocol number of the level.
    pub fn raw(&self) -> (r: u16)
        ensures
            DpmsLevel::from_raw_spec(r) == Some(*self),
    {
        match self {
            DpmsLevel::On => 0,
            DpmsLevel::Standby => 1,
            DpmsLevel::Suspend => 2,
            DpmsLevel::Off => 3,
        }
    }

    /// The level with the given DPMS protocol number, if there is one.
    pub open spec fn from_raw_spec(level: u16) -> Option<DpmsLevel> {
        if level == 0 {
            Some(DpmsLevel::On)
        } else if level == 1 {
            Some(DpmsLevel::Standby)
        } else if level == 2 {
            Some(DpmsLevel::Suspend)
        } else if level == 3 {
            Some(DpmsLevel::Off)
        } else {
            None
        }
    }
}

/// What DPMS reports of the monitor.
#[derive(Clone, Copy, Debug, PartialEq, Eq, Structural)]
pub struct DpmsInfo {
    /// The current power level.
    pub level: DpmsLevel,
    /// Whether DPMS is enabled.
    pub enabled: bool,
}

/// What the locker knows of its display besides the connection itself.
#[derive(Clone, Copy, Debug, PartialEq, Eq, Structural)]
pub struct DisplayState {
    /// The RandR extension, when the server has it.
    pub randr: Option<Extension>,
    /// The DPMS extension, when it is used.
    pub dpms: Option<Extension>,
    /// The interned atoms.
    pub atoms: Atoms,
}

/// Whether the monitor is on, given what DPMS reports of it.
pub open spec fn powered(dpms: Option<Extension>, info: Option<DpmsInfo>) -> bool {
    dpms is None || !info->0.enabled || info->0.level == DpmsLevel::On
}

/// The level to force so that the monitor is on (`value`) or off, if any.
pub open spec fn power_change(dpms: Option<Extension>, info: Option<DpmsInfo>, value: bool) -> Option<
    DpmsLevel,
> {
    if dpms is None || powered(dpms, info) == value {
        None
    } else if value {
        Some(DpmsLevel::On)
    } else {
        Some(DpmsLevel::Off)
    }
}

impl DisplayState {
    /// The state of a freshly opened display. `randr` is what the RandR
    /// query reported (event and error bases), `dpms` what the DPMS query
    /// reported when the server is DPMS capable; DPMS is only used when the
    /// configuration allows it.
    pub fn open(config: &Locker, randr: Option<(i32, i32)>, dpms: Option<(i32, i32)>, saver: u64) -> (d:
        DisplayState)
        ensures
            d.randr is Some <==> randr is Some,
            randr matches Some((event, error)) ==> d.randr->0.event_base() == event
                && d.randr->0.error_base() == error,
            d.dpms is Some <==> (config.dpms && dpms is Some),
            dpms matches Some((event, error)) ==> (config.dpms ==> d.dpms->0.event_base() == event
                && d.dpms->0.error_base() == error),
            d.atoms.saver == saver,
    {
        let randr = match randr {
            Some((event, error)) => Some(Extension::new(event, error)),
            None => None,
        };
        let dpms = match dpms {
            Some((event, error)) => if config.dpms {
                Some(Extension::new(event, error))
            } else {
                None
            },
            None => None,
        };
        DisplayState { randr, dpms, atoms: Atoms { saver } }
    }

    /// Whether the monitor is powered on: always without DPMS; with DPMS,
    /// when DPMS is disabled or the level is `On`.
    pub fn is_powered(&self, info: Option<DpmsInfo>) -> (r: bool)
        requires
            self.dpms is Some ==> info is Some,
        ensures
            r == powered(self.dpms, info),
    {
        match self.dpms {
            None => true,
            Some(_) => {
                let info = info.unwrap();
                if !info.enabled {
                    return true;
                }
                match info.level {
                    DpmsLevel::On => true,
                    DpmsLevel::Off | DpmsLevel::Standby | DpmsLevel::Suspend => false,
                }
            },
        }
    }

    /// The level to force to turn the monitor on (`value`) or off: none
    /// without DPMS or when the monitor already is so.
    pub fn power(&self, info: Option<DpmsInfo>, value: bool) -> (r: Option<DpmsLevel>)
        requires
            self.dpms is Some ==> info is Some,
        ensures
            r == power_change(self.dpms, info, value),
            self.dpms is None ==> r is None,
    {
        if self.dpms.is_none() || self.is_powered(info) == value {
            return None;
        }
        if value {
            Some(DpmsLevel::On)
        } else {
            Some(DpmsLevel::Off)
        }
    }

    /// Whether sanitizing the display resets DPMS (the screen saver timeout
    /// is reset in any case).
    pub fn sanitize(&self) -> (reset_dpms: bool)
        ensures
            reset_dpms == self.dpms is Some,
    {
        self.dpms.is_some()
    }

    /// Whether a window whose marker property has type `kind` is one of the
    /// locker's own windows.
    pub fn is_own_window(&self, kind: u64) -> (r: bool)
        ensures
            r == (kind == XA_CARDINAL),
    {
        kind == XA_CARDINAL
    }
}

/// The events to select on an observed window whose clients selected
/// `all_event_masks` and asked not to propagate `do_not_propagate_mask`:
/// key presses and releases only if the window already gets them, so that
/// its keys are not stolen; pointer motion and window changes always.
pub open spec fn observe_mask_spec(all_event_masks: i64, do_not_propagate_mask: i64) -> i64 {
    (all_event_masks | do_not_propagate_mask) & (KEY_PRESS_MASK | KEY_RELEASE_MASK) | (
    POINTER_MOTION_MASK | SUBSTRUCTURE_NOTIFY_MASK)
}

/// The events to select on an observed window.
pub fn observe_mask(all_event_masks: i64, do_not_propagate_mask: i64) -> (mask: i64)
    ensures
        mask == observe_mask_spec(all_event_masks, do_not_propagate_mask),
        mask & POINTER_MOTION_MASK == POINTER_MOTION_MASK,
        mask & SUBSTRUCTURE_NOTIFY_MASK == SUBSTRUCTURE_NOTIFY_MASK,
        mask & KEY_PRESS_MASK == (all_event_masks | do_not_propagate_mask) & KEY_PRESS_MASK,
        mask & KEY_RELEASE_MASK == (all_event_masks | do_not_propagate_mask) & KEY_RELEASE_MASK,
        mask & !(KEY_PRESS_MASK | KEY_RELEASE_MASK | POINTER_MOTION_MASK | SUBSTRUCTURE_NOTIFY_MASK)
            == 0,
{
    let kp: i64 = KEY_PRESS_MASK;
    let kr: i64 = KEY_RELEASE_MASK;
    let pm: i64 = POINTER_MOTION_MASK;
    let sn: i64 = SUBSTRUCTURE_NOTIFY_MASK;
    let mask = (all_event_masks | do_not_propagate_mask) & (kp | kr) | (pm | sn);
    assert(mask & pm == pm && mask & sn == sn && mask & kp == (all_event_masks
        | do_not_propagate_mask) & kp && mask & kr == (all_event_masks | do_not_propagate_mask) & kr
        && mask & !(kp | kr | pm | sn) == 0) by (bit_vector)
        requires
            mask == (all_event_masks | do_not_propagate_mask) & (kp | kr) | (pm | sn),
            kp == 1,
            kr == 2,
            pm == 0x40,
            sn == 0x80000,
    ;
    mask
}

/// Forcing the level that `power` asks for leaves nothing more to do: once
/// DPMS reports that level, asking for the same state again changes nothing.
pub proof fn lemma_power_settles(dpms: Option<Extension>, info: Option<DpmsInfo>, value: bool)
    requires
        power_change(dpms, info, value) is Some,
    ensures
        power_change(
            dpms,
            Some(DpmsInfo { level: power_change(dpms, info, value)->0, enabled: true }),
            value,
        ) is None,
{
}

/// Without DPMS the monitor counts as powered on whatever is reported, and
/// asking to turn it on or off changes nothing.
pub proof fn lemma_no_dpms_no_power_change(info: Option<DpmsInfo>, value: bool)
    ensures
        powered(None, info),
        power_change(None, info, value) is None,
{
}

/// With DPMS in use, a level is forced exactly when the monitor is not
/// already as asked (it is on when DPMS is disabled or its level is `On`),
/// and the level forced is `On` to turn it on and `Off` to turn it off.
pub proof fn lemma_power_forces_the_asked_state(dpms: Option<Extension>, info: DpmsInfo, value: bool)
    requires
        dpms is Some,
    ensures
        power_change(dpms, Some(info), value) is None <==> ((!info.enabled || info.level
            == DpmsLevel::On) == value),
        power_change(dpms, Some(info), value) matches Some(level) ==> (value ==> level
            == DpmsLevel::On) && (!value ==> level == DpmsLevel::Off),
{
}

} // verus!
