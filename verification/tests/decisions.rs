use iced_mobile::control::{window_plan, WindowPlan};
use iced_mobile::conversion::{reported_mode, WindowMode};
use iced_mobile::flow::{change_flow, ControlFlow};
use iced_mobile::input::{finger_event, user_force_quit, FingerEvent, TouchPhase, WindowInput};
use iced_mobile::instance::{take_events, UiEvent};
use iced_mobile::platform::Platform;

fn key(character: Option<&str>, pressed: bool) -> WindowInput {
    WindowInput::Keyboard { character: character.map(String::from), pressed }
}

#[test]
fn an_earlier_deadline_stays() {
    let set = ControlFlow::WaitUntil(10);
    assert_eq!(change_flow(set, ControlFlow::WaitUntil(11), 0), None);
    assert_eq!(change_flow(set, ControlFlow::WaitUntil(10), 0), Some(ControlFlow::WaitUntil(10)));
    assert_eq!(change_flow(set, ControlFlow::WaitUntil(9), 0), Some(ControlFlow::WaitUntil(9)));
}

#[test]
fn a_deadline_to_come_beats_an_open_wait() {
    let set = ControlFlow::WaitUntil(10);
    assert_eq!(change_flow(set, ControlFlow::Wait, 9), None);
    assert_eq!(change_flow(set, ControlFlow::Wait, 10), Some(ControlFlow::Wait));
    assert_eq!(change_flow(set, ControlFlow::Wait, 11), Some(ControlFlow::Wait));
}

#[test]
fn polling_is_never_held_back() {
    for current in [ControlFlow::Poll, ControlFlow::Wait, ControlFlow::WaitUntil(5)] {
        assert_eq!(change_flow(current, ControlFlow::Poll, 0), Some(ControlFlow::Poll));
    }
    assert_eq!(
        change_flow(ControlFlow::Wait, ControlFlow::WaitUntil(3), 7),
        Some(ControlFlow::WaitUntil(3))
    );
}

#[test]
fn of_two_deadlines_the_earlier_one_is_in_force() {
    for (first, second) in [(3, 8), (8, 3)] {
        let mut flow = ControlFlow::Wait;
        for time in [first, second] {
            if let Some(set) = change_flow(flow, ControlFlow::WaitUntil(time), 0) {
                flow = set;
            }
        }
        assert_eq!(flow, ControlFlow::WaitUntil(3));
    }
}

#[test]
fn quits_on_command_q_on_macos_only() {
    let held = 0x800;
    assert!(user_force_quit(Platform::MacOs, &key(Some("q"), true), held));
    assert!(user_force_quit(Platform::MacOs, &key(Some("q"), true), held | 0x4));
    assert!(!user_force_quit(Platform::MacOs, &key(Some("q"), true), 0));
    assert!(!user_force_quit(Platform::MacOs, &key(Some("q"), true), 0x4));
    assert!(!user_force_quit(Platform::MacOs, &key(Some("q"), false), held));
    assert!(!user_force_quit(Platform::MacOs, &key(Some("w"), true), held));
    assert!(!user_force_quit(Platform::MacOs, &key(Some("qq"), true), held));
    assert!(!user_force_quit(Platform::MacOs, &key(Some(""), true), held));
    assert!(!user_force_quit(Platform::MacOs, &key(None, true), held));
    assert!(!user_force_quit(Platform::MacOs, &WindowInput::CloseRequested, held));
    assert!(!user_force_quit(Platform::Windows, &key(Some("q"), true), held));
    assert!(!user_force_quit(Platform::Ios, &key(Some("q"), true), held));
}

#[test]
fn a_cancelled_touch_lifts_the_finger() {
    assert_eq!(finger_event(TouchPhase::Started), FingerEvent::Pressed);
    assert_eq!(finger_event(TouchPhase::Moved), FingerEvent::Moved);
    assert_eq!(finger_event(TouchPhase::Ended), FingerEvent::Lifted);
    assert_eq!(finger_event(TouchPhase::Cancelled), FingerEvent::Lifted);
}

#[test]
fn a_window_of_unknown_visibility_counts_as_visible() {
    assert_eq!(reported_mode(None, false), WindowMode::Windowed);
    assert_eq!(reported_mode(None, true), WindowMode::Fullscreen);
    assert_eq!(reported_mode(Some(true), false), WindowMode::Windowed);
    assert_eq!(reported_mode(Some(true), true), WindowMode::Fullscreen);
    assert_eq!(reported_mode(Some(false), false), WindowMode::Hidden);
    assert_eq!(reported_mode(Some(false), true), WindowMode::Hidden);
}

#[test]
fn every_system_creates_windows_its_own_way() {
    let plain = WindowPlan {
        visible: false,
        fills_screen: false,
        follows_device: false,
        positioned_later: false,
        embedded: false,
    };
    assert_eq!(window_plan(Platform::Other), plain);
    assert_eq!(window_plan(Platform::Android), plain);
    assert_eq!(window_plan(Platform::Windows), plain);
    assert_eq!(
        window_plan(Platform::Ios),
        WindowPlan { fills_screen: true, follows_device: true, ..plain }
    );
    assert_eq!(window_plan(Platform::MacOs), WindowPlan { positioned_later: true, ..plain });
    assert_eq!(window_plan(Platform::Web), WindowPlan { embedded: true, ..plain });
}

#[test]
fn events_are_taken_window_by_window() {
    let mut events = vec![
        (1, UiEvent::Host('a')),
        (2, UiEvent::Host('b')),
        (1, UiEvent::Host('c')),
        (3, UiEvent::Closed),
    ];
    let first = take_events(&mut events, 1);
    assert!(matches!(first[..], [UiEvent::Host('a'), UiEvent::Host('c')]));
    assert!(matches!(events[..], [(2, UiEvent::Host('b')), (3, UiEvent::Closed)]));
    assert!(take_events(&mut events, 1).is_empty());
    let third = take_events(&mut events, 3);
    assert!(matches!(third[..], [UiEvent::Closed]));
    assert_eq!(events.len(), 1);
}
