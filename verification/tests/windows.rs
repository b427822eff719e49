use iced_mobile::rebuild::{build_user_interfaces, BuildStep};
use iced_mobile::update::{Polled, Update, UpdateReply, UpdateStep};
use iced_mobile::window_man::{RedrawRequest, Window, WindowManager};
use rustc_hash::FxHashMap;

fn window(id: u64, raw: u64) -> Window<&'static str> {
    Window {
        id,
        raw,
        exit_on_close_request: true,
        redraw_at: None,
        surface_version: 0,
        inner: "window",
    }
}

fn ids(manager: &WindowManager<&'static str>) -> Vec<u64> {
    (0..manager.len()).map(|place| manager.nth(place).id).collect()
}

#[test]
fn windows_are_kept_in_order() {
    let mut manager = WindowManager::new();
    assert!(manager.is_empty());
    assert!(manager.first().is_none());
    assert!(manager.last().is_none());
    for id in [5, 1, 3] {
        manager.insert(window(id, id + 100));
    }
    assert_eq!(ids(&manager), vec![1, 3, 5]);
    assert_eq!(manager.first().map(|window| window.id), Some(1));
    assert_eq!(manager.last().map(|window| window.id), Some(5));
    assert_eq!(manager.get(3).map(|window| window.raw), Some(103));
    assert!(manager.get(2).is_none());
}

#[test]
fn a_window_takes_the_place_of_the_one_with_its_identifier() {
    let mut manager = WindowManager::new();
    manager.insert(window(1, 101));
    manager.insert(Window { exit_on_close_request: false, ..window(1, 201) });
    assert_eq!(manager.len(), 1);
    assert_eq!(manager.get(1).map(|window| window.raw), Some(201));
    assert_eq!(manager.get_alias(201), Some(1));
}

#[test]
fn windows_are_found_by_their_name() {
    let mut manager = WindowManager::new();
    manager.insert(window(1, 101));
    manager.insert(window(2, 102));
    assert_eq!(manager.get_alias(102), Some(2));
    assert_eq!(manager.get_alias(2), None);
    let closed = manager.remove(2).expect("an open window");
    assert_eq!(closed.raw, 102);
    assert_eq!(manager.get_alias(102), None);
    assert_eq!(manager.get_alias(101), Some(1));
    assert!(manager.remove(2).is_none());
    assert_eq!(ids(&manager), vec![1]);
}

#[test]
fn what_a_window_holds_can_be_changed() {
    let mut manager = WindowManager::new();
    manager.insert(window(1, 101));
    *manager.get_mut(1).expect("an open window") = "changed";
    assert!(manager.get_mut(2).is_none());
    assert_eq!(manager.get(1).map(|window| window.inner), Some("changed"));
    manager.configured(1, 9);
    assert_eq!(manager.get(1).map(|window| window.surface_version), Some(9));
}

#[test]
fn the_earliest_redraw_counts() {
    let mut manager = WindowManager::new();
    for id in [1, 2, 3] {
        manager.insert(window(id, id));
    }
    assert!(manager.is_idle());
    assert_eq!(manager.redraw_at(), None);
    assert!(!manager.request_redraw(1, RedrawRequest::At(30)));
    assert!(!manager.request_redraw(3, RedrawRequest::At(20)));
    assert!(!manager.request_redraw(2, RedrawRequest::Wait));
    assert!(!manager.is_idle());
    assert_eq!(manager.redraw_at(), Some(20));
    assert!(manager.request_redraw(3, RedrawRequest::NextFrame));
    assert_eq!(manager.redraw_at(), Some(30));
    assert!(!manager.request_redraw(1, RedrawRequest::Wait));
    assert_eq!(manager.redraw_at(), Some(30));
}

#[test]
fn interfaces_are_built_for_every_window() {
    let mut manager = WindowManager::new();
    for id in [1, 2, 4] {
        manager.insert(window(id, id));
    }
    let mut caches: FxHashMap<u64, String> = FxHashMap::default();
    for id in [1, 3, 4] {
        caches.insert(id, format!("cache {id}"));
    }
    let mut interfaces: FxHashMap<u64, String> = FxHashMap::default();
    let mut build = build_user_interfaces(caches);
    let mut synchronized = vec![];
    let mut built = None;
    loop {
        match build.next(&manager, &mut interfaces, built.take()) {
            BuildStep::Synchronize(id) => synchronized.push(id),
            BuildStep::Build { id, cache } => {
                assert_eq!(synchronized, vec![1, 2, 4]);
                let cache = cache.unwrap_or_else(|| String::from("a fresh cache"));
                built = Some(format!("interface {id} of {cache}"));
            }
            BuildStep::Proceed => {}
            BuildStep::Done => break,
        }
    }
    assert_eq!(interfaces.len(), 3);
    assert_eq!(interfaces[&1], "interface 1 of cache 1");
    assert_eq!(interfaces[&2], "interface 2 of a fresh cache");
    assert_eq!(interfaces[&4], "interface 4 of cache 4");
}

#[test]
fn interfaces_take_a_known_number_of_steps() {
    let mut manager = WindowManager::new();
    for id in [5, 6] {
        manager.insert(window(id, id));
    }
    let mut interfaces: FxHashMap<u64, u64> = FxHashMap::default();
    let mut build = build_user_interfaces(FxHashMap::<u64, String>::default());
    let mut built = None;
    let mut steps = 0;
    loop {
        match build.next(&manager, &mut interfaces, built.take()) {
            BuildStep::Build { id, cache } => {
                assert_eq!(cache, None);
                built = Some(id);
            }
            BuildStep::Done => break,
            _ => {}
        }
        steps += 1;
        assert!(steps <= 3 * manager.len() + 2);
    }
    assert_eq!(interfaces[&5], 5);
    assert_eq!(interfaces[&6], 6);
}

#[test]
fn messages_are_applied_one_after_the_other() {
    let mut update: Update<&str, u32> = Update::new(vec!["silent", "chatty", "slow"]);
    let mut log = vec![];
    let mut chatty = vec![Polled::Finished, Polled::Item(2), Polled::Item(1)];
    let mut slow = vec![Polled::Pending, Polled::Item(3)];
    let mut current = "";
    let mut reply = UpdateReply::Nothing;
    loop {
        reply = match update.next(reply) {
            UpdateStep::Update(message) => {
                log.push(format!("update {message}"));
                current = message;
                UpdateReply::Stream(message != "silent")
            }
            UpdateStep::Poll => {
                let polled = if current == "chatty" { chatty.pop() } else { slow.pop() };
                UpdateReply::Polled(polled.expect("something to poll"))
            }
            UpdateStep::Spawn => {
                log.push(format!("spawn {current}"));
                UpdateReply::Nothing
            }
            UpdateStep::Track => {
                log.push(String::from("track"));
                UpdateReply::Nothing
            }
            UpdateStep::Done => break,
        };
    }
    assert_eq!(log, vec!["update silent", "update chatty", "update slow", "spawn slow", "track"]);
    assert_eq!(update.into_actions(), vec![1, 2, 3]);
}

#[test]
fn an_update_without_messages_still_tracks() {
    let mut update: Update<u8, u8> = Update::new(vec![]);
    assert!(matches!(update.next(UpdateReply::Nothing), UpdateStep::Track));
    assert!(matches!(update.next(UpdateReply::Nothing), UpdateStep::Done));
    assert!(update.into_actions().is_empty());
}
