use screenruster::locker::{
    key_response, react, Event, EventPlan, LockerCore, Pointer, Request, RequestPlan, Response,
    SaverReaction, SaverReport, WindowInfo,
};

fn window(id: u64, root: u64, screen: i32) -> WindowInfo {
    WindowInfo { id, root, screen }
}

/// Three windows on three screens; only the first two share a root.
fn three_windows() -> LockerCore {
    let mut c = LockerCore::new();
    c.add_window(window(10, 1, 0));
    c.add_window(window(20, 1, 1));
    c.add_window(window(30, 2, 2));
    c
}

fn is_password(r: &Option<Response>, text: &str) -> bool {
    matches!(r, Some(Response::Password(p)) if p == text)
}

#[test]
fn escape_submits_an_empty_password() {
    assert!(is_password(&key_response(0xFF1B, 0), ""));
}

#[test]
fn keypad_keys_take_the_input_method_keysym() {
    assert!(is_password(&key_response(0xFF80, 0xFF1B), ""));
    assert!(is_password(&key_response(0xFFB9, 0xFF1B), ""));
    assert!(key_response(0xFFB5, 0x35).is_none());
    assert!(key_response(0xFFBA, 0xFF1B).is_none());
}

#[test]
fn keysyms_are_compared_as_32_bit_values() {
    assert!(is_password(&key_response(0x1_0000_FF1B, 0), ""));
}

#[test]
fn other_keys_give_no_response() {
    assert!(key_response(0x61, 0xFF1B).is_none());
    assert!(key_response(0xFF0D, 0).is_none());
}

#[test]
fn saver_reports_map_to_reactions() {
    assert_eq!(react(SaverReport::Failed), SaverReaction::Crashed);
    assert_eq!(react(SaverReport::Initialized), SaverReaction::Start);
    assert_eq!(react(SaverReport::Started), SaverReaction::Lock);
    assert_eq!(react(SaverReport::Stopped), SaverReaction::Stopped);
    assert_eq!(react(SaverReport::Silent), SaverReaction::Nothing);
}

#[test]
fn windows_are_kept_in_order() {
    let c = three_windows();
    assert_eq!(c.window_ids(), vec![10, 20, 30]);
    assert!(!c.has_saver(10));
    assert!(c.saver_ids().is_empty());
}

#[test]
fn adding_a_known_window_replaces_it_and_keeps_its_saver() {
    let mut c = three_windows();
    c.finish_start(&vec![false, true, false]);
    c.add_window(window(20, 5, 7));
    assert_eq!(c.window_ids(), vec![10, 20, 30]);
    assert!(c.has_saver(20));
    match c.on_event(Event::ScreenChange { root: 5, width: 1, height: 2 }) {
        EventPlan::Resize { targets, .. } => assert_eq!(targets, vec![(20, true)]),
        _ => panic!("a screen change plans a resize"),
    }
}

#[test]
fn sanitize_covers_every_window() {
    match three_windows().on_request(Request::Sanitize, 2) {
        RequestPlan::Sanitize(ids) => assert_eq!(ids, vec![10, 20, 30]),
        _ => panic!("wrong plan"),
    }
}

#[test]
fn start_without_savers_tries_none() {
    match three_windows().on_request(Request::Start, 0) {
        RequestPlan::Start(choices) => assert_eq!(choices, vec![(10, None), (20, None), (30, None)]),
        _ => panic!("wrong plan"),
    }
}

#[test]
fn start_with_savers_picks_one_for_each_window() {
    match three_windows().on_request(Request::Start, 1) {
        RequestPlan::Start(choices) => {
            assert_eq!(choices, vec![(10, Some(0)), (20, Some(0)), (30, Some(0))])
        },
        _ => panic!("wrong plan"),
    }
    for _ in 0..20 {
        match three_windows().on_request(Request::Start, 3) {
            RequestPlan::Start(choices) => {
                assert_eq!(choices.len(), 3);
                for (i, (id, choice)) in choices.iter().enumerate() {
                    assert_eq!(*id, [10, 20, 30][i]);
                    assert!(choice.unwrap() < 3);
                }
            },
            _ => panic!("wrong plan"),
        }
    }
}

#[test]
fn lock_does_nothing_and_power_is_passed_on() {
    assert!(matches!(three_windows().on_request(Request::Lock, 1), RequestPlan::Nothing));
    assert!(matches!(three_windows().on_request(Request::Power(false), 1), RequestPlan::Power(false)));
    assert!(matches!(three_windows().on_request(Request::Power(true), 0), RequestPlan::Power(true)));
}

#[test]
fn finish_start_locks_windows_without_saver() {
    let mut c = three_windows();
    let lock = c.finish_start(&vec![true, false, true]);
    assert_eq!(lock, vec![20]);
    assert!(c.has_saver(10));
    assert!(!c.has_saver(20));
    assert!(c.has_saver(30));
    assert_eq!(c.saver_ids(), vec![10, 30]);
}

#[test]
fn start_without_any_saver_locks_every_window() {
    let mut c = three_windows();
    let lock = c.finish_start(&vec![false, false, false]);
    assert_eq!(lock, vec![10, 20, 30]);
    assert!(c.saver_ids().is_empty());
}

#[test]
fn stop_targets_are_windows_with_savers() {
    let mut c = three_windows();
    c.finish_start(&vec![true, false, true]);
    match c.on_request(Request::Stop, 2) {
        RequestPlan::Stop(targets) => assert_eq!(targets, vec![(10, true), (20, false), (30, true)]),
        _ => panic!("wrong plan"),
    }
}

#[test]
fn finish_stop_unlocks_windows_whose_saver_did_not_stop() {
    let mut c = three_windows();
    c.finish_start(&vec![true, false, true]);
    let unlock = c.finish_stop(&vec![true, false, false]);
    assert_eq!(unlock, vec![20, 30]);
    assert!(c.has_saver(10));
    assert!(!c.has_saver(30));
    assert_eq!(c.saver_ids(), vec![10]);
}

#[test]
fn retire_removes_the_savers() {
    let mut c = three_windows();
    c.finish_start(&vec![true, true, true]);
    c.retire(&vec![30, 10]);
    assert_eq!(c.saver_ids(), vec![20]);
    c.retire(&vec![30]);
    assert_eq!(c.saver_ids(), vec![20]);
    assert_eq!(c.window_ids(), vec![10, 20, 30]);
}

#[test]
fn screen_change_resizes_the_windows_of_that_screen() {
    let mut c = three_windows();
    c.finish_start(&vec![false, true, false]);
    match c.on_event(Event::ScreenChange { root: 1, width: 1920, height: 1080 }) {
        EventPlan::Resize { targets, width, height } => {
            assert_eq!(targets, vec![(10, false), (20, true)]);
            assert_eq!((width, height), (1920, 1080));
        },
        _ => panic!("wrong plan"),
    }
    match c.on_event(Event::ScreenChange { root: 9, width: 1, height: 1 }) {
        EventPlan::Resize { targets, .. } => assert!(targets.is_empty()),
        _ => panic!("wrong plan"),
    }
}

#[test]
fn keys_on_locker_windows_go_to_every_saver() {
    let mut c = three_windows();
    c.finish_start(&vec![true, false, true]);
    match c.on_event(Event::Key { window: 20 }) {
        EventPlan::Keystroke { savers } => assert_eq!(savers, vec![10, 30]),
        _ => panic!("wrong plan"),
    }
}

#[test]
fn input_on_foreign_windows_is_activity() {
    let mut c = three_windows();
    c.finish_start(&vec![true, true, true]);
    assert!(matches!(c.on_event(Event::Key { window: 99 }), EventPlan::Activity));
    let p = Pointer::Move { x: 1, y: 2 };
    assert!(matches!(c.on_event(Event::Pointer { window: 99, pointer: p }), EventPlan::Activity));
}

#[test]
fn pointer_goes_to_the_saver_of_its_window() {
    let mut c = three_windows();
    c.finish_start(&vec![true, false, false]);
    let p = Pointer::Button { x: 3, y: 4, button: 1, press: true };
    match c.on_event(Event::Pointer { window: 10, pointer: p }) {
        EventPlan::Forward { saver, pointer } => {
            assert_eq!(saver, 10);
            assert_eq!(pointer, p);
        },
        _ => panic!("wrong plan"),
    }
    assert!(matches!(c.on_event(Event::Pointer { window: 20, pointer: p }), EventPlan::Nothing));
}

#[test]
fn retired_saver_gets_no_pointer_input() {
    let mut c = three_windows();
    c.finish_start(&vec![true, true, false]);
    c.retire(&vec![10]);
    let p = Pointer::Move { x: 0, y: 0 };
    assert!(matches!(c.on_event(Event::Pointer { window: 10, pointer: p }), EventPlan::Nothing));
    assert!(matches!(
        c.on_event(Event::Pointer { window: 20, pointer: p }),
        EventPlan::Forward { saver: 20, .. }
    ));
}

#[test]
fn structure_changes_are_observed_and_other_events_ignored() {
    let c = three_windows();
    assert!(matches!(c.on_event(Event::Structure { window: 77 }), EventPlan::Observe(77)));
    assert!(matches!(c.on_event(Event::Other), EventPlan::Nothing));
}
