use sintet::control::{
    place_kind, placer_step, select_step, toggle_combat, AppState, CursorMode, PlaceKind, PlacerStep, User,
};

#[test]
fn combat_toggles() {
    assert_eq!(toggle_combat(CursorMode::Free), CursorMode::Atack);
    assert_eq!(toggle_combat(CursorMode::Placer), CursorMode::Atack);
    assert_eq!(toggle_combat(CursorMode::Atack), CursorMode::Free);
    assert_eq!(CursorMode::default(), CursorMode::Free);
    assert_eq!(AppState::default(), AppState::ResourceCheck);
}

#[test]
fn placer_kinds_and_steps() {
    assert_eq!(place_kind("item"), PlaceKind::Item);
    assert_eq!(place_kind("object"), PlaceKind::Object);
    assert_eq!(place_kind("entity"), PlaceKind::Entity);
    assert_eq!(place_kind("tile"), PlaceKind::Invalid);
    assert_eq!(placer_step(CursorMode::Free, Some("item"), true, true), PlacerStep { spawn: None, reset: false });
    assert_eq!(
        placer_step(CursorMode::Placer, Some("object"), true, false),
        PlacerStep { spawn: Some(PlaceKind::Object), reset: false }
    );
    assert_eq!(placer_step(CursorMode::Placer, None, true, true), PlacerStep { spawn: None, reset: true });
    assert_eq!(placer_step(CursorMode::Placer, Some("item"), false, false), PlacerStep { spawn: None, reset: false });
}

#[test]
fn selection_clicks() {
    // clicking an item selects it
    let s = select_step(None, Some(5), None);
    assert_eq!((s.selected, s.marks), (Some(5), vec![(5, true)]));
    // clicking it again unselects it
    let s = select_step(Some(5), Some(5), Some(9));
    assert_eq!((s.selected, s.marks), (None, vec![(5, false)]));
    // clicking ground unselects
    let s = select_step(Some(5), None, Some(9));
    assert_eq!((s.selected, s.marks), (None, vec![(5, false)]));
    // clicking ground with nothing selected picks a nearby body
    let s = select_step(None, None, Some(9));
    assert_eq!((s.selected, s.marks), (Some(9), vec![(9, true)]));
    // an item and a nearby body: the body wins
    let s = select_step(Some(1), Some(5), Some(9));
    assert_eq!((s.selected, s.marks), (Some(9), vec![(1, false), (5, true), (5, false), (9, true)]));
    // item and body the same: it ends unselected
    let s = select_step(None, Some(5), Some(5));
    assert_eq!((s.selected, s.marks), (None, vec![(5, true), (5, false)]));
    let s = select_step(None, None, None);
    assert_eq!((s.selected, s.marks), (None, vec![]));
}

#[test]
fn default_user() {
    let u = User::default();
    assert_eq!(u.uid, 0);
    assert_eq!(u.user_name, "Admin");
    assert!(!User::user_is_controled_entity(&u));
    let v = User { uid: 1, user_name: "p".to_string(), control_entity: Some(3) };
    assert!(User::user_is_controled_entity(&v));
}
