use iced_mobile::counter::{tick, Counter, Item, Measures, Message, Theme, TICK_MILLISECONDS};
use iced_mobile::widgets::modal::{modal, Advance, ModalViewStatus, Starts};

type Status = ModalViewStatus<f32>;

fn measures(status: Status, step: f32) -> Measures<f32> {
    let progress = status.animation().unwrap_or(0.0);
    Measures {
        starts: Starts { zero: 0.0, remaining: 1.0 - progress },
        advance: if progress + step >= 1.0 {
            Advance::Complete
        } else {
            Advance::To(progress + step)
        },
    }
}

fn apply(counter: &mut Counter<f32>, message: Message<u64>, step: f32) {
    let measures = measures(counter.modal(), step);
    counter.update(message, measures);
}

fn shown(status: Status) -> Option<f32> {
    let remaining = 1.0 - status.animation().unwrap_or(0.0);
    status.progress(1.0, remaining)
}

fn labels(items: &[Item<u64>]) -> Vec<String> {
    items
        .iter()
        .map(|item| match item {
            Item::Button { label, on_press } => format!("{label} -> {on_press:?}"),
            Item::Text(text) => format!("text {text}"),
            Item::Value(value) => format!("value {value}"),
        })
        .collect()
}

#[test]
fn counts_up_and_down() {
    let mut counter = Counter::<f32>::default();
    assert_eq!(counter.value(), 0);
    apply(&mut counter, Message::Increment, 0.0);
    apply(&mut counter, Message::Increment, 0.0);
    assert_eq!(counter.value(), 2);
    apply(&mut counter, Message::Decrement, 0.0);
    apply(&mut counter, Message::Decrement, 0.0);
    apply(&mut counter, Message::Decrement, 0.0);
    assert_eq!(counter.value(), -1);
    apply(&mut counter, Message::Nothing, 0.0);
    assert_eq!(counter.value(), -1);
}

#[test]
fn starts_with_nord_and_no_modal() {
    let counter = Counter::<f32>::default();
    assert_eq!(counter.theme(), Theme::Nord);
    assert_eq!(counter.modal(), ModalViewStatus::Hidden);
    assert!(!counter.needs_redraw());
    assert_eq!(counter.subscription(), None);
}

#[test]
fn toggles_through_four_themes() {
    let mut counter = Counter::<f32>::default();
    let mut themes = vec![];
    for _ in 0..5 {
        apply(&mut counter, Message::ToggleTheme, 0.0);
        themes.push(counter.theme());
    }
    assert_eq!(
        themes,
        vec![Theme::Light, Theme::Dark, Theme::GruvboxLight, Theme::GruvboxDark, Theme::Light]
    );
    for apart in 1..4 {
        assert_ne!(themes[0], themes[apart]);
    }
}

#[test]
fn subscribes_to_ticks_while_the_modal_moves() {
    let mut counter = Counter::<f32>::default();
    apply(&mut counter, Message::ToggleModal, 0.0);
    assert_eq!(counter.modal(), ModalViewStatus::ShowAnimation(0.0));
    assert!(counter.needs_redraw());
    assert_eq!(counter.subscription(), Some(8));
    assert_eq!(TICK_MILLISECONDS, 8);
    apply(&mut counter, Message::AnimationTick(1), 0.25);
    assert_eq!(counter.modal(), ModalViewStatus::ShowAnimation(0.25));
    apply(&mut counter, Message::AnimationTick(2), 0.75);
    assert_eq!(counter.modal(), ModalViewStatus::Showing);
    assert_eq!(counter.subscription(), None);
    apply(&mut counter, Message::AnimationTick(3), 0.5);
    assert_eq!(counter.modal(), ModalViewStatus::Showing);
}

#[test]
fn a_tick_brings_its_time_along() {
    assert_eq!(tick(7u64), Message::AnimationTick(7));
    assert_eq!(tick(9u64), Message::AnimationTick(9));
    let mut counter = Counter::<f32>::default();
    apply(&mut counter, tick(1), 0.5);
    assert_eq!(counter, Counter::default());
    apply(&mut counter, Message::ToggleModal, 0.0);
    apply(&mut counter, tick(2), 0.5);
    assert_eq!(counter.modal(), ModalViewStatus::ShowAnimation(0.5));
}

#[test]
fn messages_change_one_thing() {
    let mut counter = Counter::<f32>::default();
    apply(&mut counter, Message::ToggleTheme, 0.0);
    apply(&mut counter, Message::ToggleModal, 0.0);
    apply(&mut counter, Message::Increment, 0.0);
    assert_eq!(counter.value(), 1);
    assert_eq!(counter.theme(), Theme::Light);
    assert_eq!(counter.modal(), ModalViewStatus::ShowAnimation(0.0));
}

#[test]
fn looks_like_a_column_of_buttons() {
    let mut counter = Counter::<f32>::default();
    apply(&mut counter, Message::Increment, 0.0);
    let screen = counter.view::<u64>(1.0, 1.0);
    assert_eq!(
        labels(&screen.content),
        vec![
            "+ -> Some(Increment)",
            "value 1",
            "- -> Some(Decrement)",
            "Toggle Modal -> Some(ToggleModal)",
            "Toggle Theme -> Some(ToggleTheme)",
        ]
    );
    assert!(screen.modal.is_none());
}

#[test]
fn shows_the_modal_in_front() {
    let mut counter = Counter::<f32>::default();
    apply(&mut counter, Message::ToggleModal, 0.0);
    apply(&mut counter, Message::AnimationTick(0), 0.5);
    let screen = counter.view::<u64>(1.0, 0.5);
    let in_front = screen.modal.expect("a modal");
    assert_eq!(in_front.progress, 0.5);
    assert_eq!(in_front.on_press_content, Message::Nothing);
    assert_eq!(in_front.on_press_around, Message::ToggleModal);
    assert_eq!(
        labels(&in_front.content),
        vec!["text Modal Content", "test -> None", "text Modal text"]
    );
}

#[test]
fn a_hidden_modal_has_no_place() {
    assert!(modal::<f32, u8, u64>(7, ModalViewStatus::Hidden, 1.0, 1.0).is_none());
    let in_front = modal::<f32, u8, u64>(7, ModalViewStatus::Showing, 1.0, 0.0).expect("a modal");
    assert_eq!(in_front.content, 7);
    assert_eq!(in_front.progress, 1.0);
}

#[test]
fn progress_follows_the_animation() {
    assert_eq!(shown(ModalViewStatus::Hidden), None);
    assert_eq!(shown(ModalViewStatus::ShowAnimation(0.25)), Some(0.25));
    assert_eq!(shown(ModalViewStatus::Showing), Some(1.0));
    assert_eq!(shown(ModalViewStatus::HideAnimation(0.25)), Some(0.75));
}

#[test]
fn only_a_hidden_modal_is_not_showing() {
    assert!(!Status::Hidden.is_showing());
    assert!(Status::ShowAnimation(0.0).is_showing());
    assert!(Status::Showing.is_showing());
    assert!(Status::HideAnimation(0.9).is_showing());
    assert!(Status::ShowAnimation(0.0).is_in_progress());
    assert!(Status::HideAnimation(0.0).is_in_progress());
    assert!(!Status::Showing.is_in_progress());
    assert!(!Status::Hidden.is_in_progress());
    assert_eq!(Status::default(), Status::Hidden);
}

#[test]
fn toggling_turns_a_modal_around_in_place() {
    let mut status = Status::ShowAnimation(0.25);
    let before = shown(status);
    status.toggle(measures(status, 0.0).starts);
    assert_eq!(status, Status::HideAnimation(0.75));
    assert_eq!(shown(status), before);
}

#[test]
fn toggling_a_modal_that_hides_hides_it_at_once() {
    let mut status = Status::HideAnimation(0.5);
    status.toggle(measures(status, 0.0).starts);
    assert_eq!(status, Status::Hidden);
}

#[test]
fn two_toggles_bring_a_modal_back() {
    for start in [Status::Hidden, Status::Showing] {
        let mut status = start;
        for _ in 0..2 {
            status.toggle(measures(status, 0.0).starts);
            assert!(status.is_in_progress());
            status.update(measures(status, 1.0).advance);
            assert!(!status.is_in_progress());
        }
        assert_eq!(status, start);
    }
}

#[test]
fn a_modal_at_rest_ignores_steps() {
    for start in [Status::Hidden, Status::Showing] {
        let mut status = start;
        status.update(Advance::Complete);
        assert_eq!(status, start);
        status.update(Advance::To(0.5));
        assert_eq!(status, start);
    }
    let mut status = Status::HideAnimation(0.25);
    status.update(Advance::To(0.5));
    assert_eq!(status, Status::HideAnimation(0.5));
    status.update(Advance::Complete);
    assert_eq!(status, Status::Hidden);
}
