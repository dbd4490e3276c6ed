use screenruster::config::Locker;
use screenruster::display::{
    observe_mask, DisplayState, DpmsInfo, DpmsLevel, Extension, Atoms,
};

fn state(dpms: bool) -> DisplayState {
    DisplayState {
        randr: None,
        dpms: if dpms { Some(Extension::new(100, 200)) } else { None },
        atoms: Atoms { saver: 300 },
    }
}

fn info(level: DpmsLevel, enabled: bool) -> Option<DpmsInfo> {
    Some(DpmsInfo { level, enabled })
}

#[test]
fn extension_codes_are_offsets_from_the_bases() {
    let e = Extension::new(89, 147);
    assert_eq!(e.event(0), 89);
    assert_eq!(e.event(1), 90);
    assert_eq!(e.error(3), 150);
}

#[test]
fn dpms_levels_from_raw() {
    assert_eq!(DpmsLevel::from_raw(0), Some(DpmsLevel::On));
    assert_eq!(DpmsLevel::from_raw(1), Some(DpmsLevel::Standby));
    assert_eq!(DpmsLevel::from_raw(2), Some(DpmsLevel::Suspend));
    assert_eq!(DpmsLevel::from_raw(3), Some(DpmsLevel::Off));
    assert_eq!(DpmsLevel::from_raw(4), None);
    for level in [DpmsLevel::On, DpmsLevel::Standby, DpmsLevel::Suspend, DpmsLevel::Off] {
        assert_eq!(DpmsLevel::from_raw(level.raw()), Some(level));
    }
}

#[test]
fn without_dpms_the_monitor_is_powered() {
    assert!(state(false).is_powered(None));
    assert!(state(false).is_powered(info(DpmsLevel::Off, true)));
}

#[test]
fn with_dpms_disabled_the_monitor_is_powered() {
    assert!(state(true).is_powered(info(DpmsLevel::Off, false)));
}

#[test]
fn with_dpms_the_level_decides() {
    let d = state(true);
    assert!(d.is_powered(info(DpmsLevel::On, true)));
    assert!(!d.is_powered(info(DpmsLevel::Off, true)));
    assert!(!d.is_powered(info(DpmsLevel::Standby, true)));
    assert!(!d.is_powered(info(DpmsLevel::Suspend, true)));
}

#[test]
fn power_without_dpms_does_nothing() {
    assert_eq!(state(false).power(None, false), None);
    assert_eq!(state(false).power(None, true), None);
}

#[test]
fn power_changes_only_what_differs() {
    let d = state(true);
    assert_eq!(d.power(info(DpmsLevel::On, true), true), None);
    assert_eq!(d.power(info(DpmsLevel::On, true), false), Some(DpmsLevel::Off));
    assert_eq!(d.power(info(DpmsLevel::Standby, true), true), Some(DpmsLevel::On));
    assert_eq!(d.power(info(DpmsLevel::Off, true), false), None);
    assert_eq!(d.power(info(DpmsLevel::Off, false), true), None);
    assert_eq!(d.power(info(DpmsLevel::Off, false), false), Some(DpmsLevel::Off));
}

#[test]
fn power_settles_after_forcing_the_level() {
    let d = state(true);
    let level = d.power(info(DpmsLevel::On, true), false).unwrap();
    assert_eq!(d.power(info(level, true), false), None);
    let level = d.power(info(DpmsLevel::Suspend, true), true).unwrap();
    assert_eq!(d.power(info(level, true), true), None);
}

#[test]
fn sanitize_resets_dpms_only_when_used() {
    assert!(state(true).sanitize());
    assert!(!state(false).sanitize());
}

#[test]
fn open_uses_dpms_only_when_configured() {
    let on = Locker { display: None, dpms: true };
    let off = Locker { display: None, dpms: false };
    let d = DisplayState::open(&on, Some((89, 147)), Some((0, 5)), 42);
    assert_eq!(d.randr.unwrap().event(0), 89);
    assert_eq!(d.randr.unwrap().error(0), 147);
    assert_eq!(d.dpms.unwrap().error(1), 6);
    assert_eq!(d.atoms.saver, 42);
    let d = DisplayState::open(&off, None, Some((0, 5)), 42);
    assert!(d.randr.is_none());
    assert!(d.dpms.is_none());
    let d = DisplayState::open(&on, None, None, 1);
    assert!(d.dpms.is_none());
}

#[test]
fn observe_mask_keeps_keys_only_if_listened() {
    assert_eq!(observe_mask(0, 0), 0x80040);
    assert_eq!(observe_mask(1, 0), 0x80041);
    assert_eq!(observe_mask(0, 2), 0x80042);
    assert_eq!(observe_mask(0xffff_ffff, 0), 0x80043);
    assert_eq!(observe_mask(0x40, 0x80000), 0x80040);
}

#[test]
fn own_windows_are_marked_cardinal() {
    let d = state(false);
    assert!(d.is_own_window(6));
    assert!(!d.is_own_window(4));
}
