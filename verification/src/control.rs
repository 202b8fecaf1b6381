//! What the player's input decides: cursor modes, the object placer, the
//! selection, and who controls which body.

use vstd::prelude::*;
use vstd::string::StringExecFns;

use crate::text::string_eq_str;

verus! {

/// Phases of the application.
#[derive(Debug, PartialEq, Eq, Clone, Copy, Hash, Structural)]
pub enum AppState {
    Start,
    ResourceCheck,
    ResourceLoading,
    MainMenu,
    LoadingInGame,
    Game,
    Pause,
    SavingGame,
    Finished,
}

impl Default for AppState {
    fn default() -> (r: Self)
        ensures
            r == AppState::ResourceCheck,
    {
        AppState::ResourceCheck
    }
}

/// What a mouse click means.
#[derive(Debug, PartialEq, Eq, Clone, Copy, Structural)]
pub enum CursorMode {
    Free,
    Placer,
    Build,
    Atack,
}

impl Default for CursorMode {
    fn default() -> (r: Self)
        ensures
            r == CursorMode::Free,
    {
        CursorMode::Free
    }
}

/// The combat key switches attacking on, or off again.
pub fn toggle_combat(mode: CursorMode) -> (r: CursorMode)
    ensures
        mode != CursorMode::Atack ==> r == CursorMode::Atack,
        mode == CursorMode::Atack ==> r == CursorMode::Free,
{
    if mode != CursorMode::Atack {
        CursorMode::Atack
    } else {
        CursorMode::Free
    }
}

/// What the placer puts down.
#[derive(Debug, PartialEq, Eq, Clone, Copy, Structural)]
pub enum PlaceKind {
    Item,
    Object,
    Entity,
    /// A kind the placer does not know.
    Invalid,
}

/// The kind named by the placer's kind word.
pub fn place_kind(kind: &str) -> (r: PlaceKind)
    ensures
        kind@ == "item"@ ==> r == PlaceKind::Item,
        kind@ == "object"@ ==> r == PlaceKind::Object,
        kind@ == "entity"@ ==> r == PlaceKind::Entity,
        kind@ != "item"@ && kind@ != "object"@ && kind@ != "entity"@ ==> r == PlaceKind::Invalid,
{
    proof {
        reveal_strlit("item");
        reveal_strlit("object");
        reveal_strlit("entity");
        assert("item"@.len() == 4 && "object"@.len() == 6 && "entity"@.len() == 6);
        assert("object"@[0] != "entity"@[0]);
    }
    let k = String::from_str(kind);
    if string_eq_str(&k, "item") {
        PlaceKind::Item
    } else if string_eq_str(&k, "object") {
        PlaceKind::Object
    } else if string_eq_str(&k, "entity") {
        PlaceKind::Entity
    } else {
        PlaceKind::Invalid
    }
}

/// What one frame of the placer does.
#[derive(Debug, PartialEq, Eq, Clone, Copy, Structural)]
pub struct PlacerStep {
    /// What to put down at the cursor, if anything.
    pub spawn: Option<PlaceKind>,
    /// True when the placer is emptied and the cursor freed.
    pub reset: bool,
}

/// The placer while the cursor is in placing mode: a click puts down what the
/// placer holds, Escape empties it and frees the cursor. In any other mode
/// nothing happens.
pub fn placer_step(mode: CursorMode, held_kind: Option<&str>, clicked: bool, escape: bool) -> (r: PlacerStep)
    ensures
        mode != CursorMode::Placer ==> r == (PlacerStep { spawn: None, reset: false }),
        mode == CursorMode::Placer ==> {
            &&& r.reset == escape
            &&& (clicked && held_kind is Some) ==> r.spawn is Some && (r.spawn->0 == PlaceKind::Item
                <==> held_kind->0@ == "item"@) && (r.spawn->0 == PlaceKind::Object <==> held_kind->0@
                == "object"@) && (r.spawn->0 == PlaceKind::Entity <==> held_kind->0@ == "entity"@)
            &&& !(clicked && held_kind is Some) ==> r.spawn is None
        },
{
    if mode != CursorMode::Placer {
        return PlacerStep { spawn: None, reset: false };
    }
    let spawn = if clicked {
        match held_kind {
            Some(k) => Some(place_kind(k)),
            None => None,
        }
    } else {
        None
    };
    PlacerStep { spawn, reset: escape }
}

/// What the selection click changes.
#[derive(Debug)]
pub struct SelectStep {
    /// What is selected afterwards.
    pub selected: Option<u64>,
    /// Marks removed and added, in order: `(id, true)` marks `id` as selected,
    /// `(id, false)` removes its mark.
    pub marks: Vec<(u64, bool)>,
}

/// The selection after a control-click. `current` is what is selected;
/// `at_cursor` is the placed item under the cursor, if any; `near` is the first
/// body close enough to the cursor, if any. Clicking the selected item again
/// unselects it; clicking empty ground unselects; otherwise the clicked item,
/// and then a nearby body, takes the selection, and clicking the selected body
/// again unselects it.
pub open spec fn spec_select(current: Option<u64>, at_cursor: Option<u64>, near: Option<u64>) -> (
    Option<u64>,
    Seq<(u64, bool)>,
) {
    let unmark = |s: Option<u64>|
        match s {
            Some(e) => seq![(e, false)],
            None => Seq::<(u64, bool)>::empty(),
        };
    match at_cursor {
        Some(hit) => if current != Some(hit) {
            let sel1 = Some(hit);
            let m1 = unmark(current) + seq![(hit, true)];
            match near {
                Some(e) => if sel1 != Some(e) {
                    (Some(e), m1 + unmark(sel1) + seq![(e, true)])
                } else {
                    (None, m1 + unmark(sel1))
                },
                None => (sel1, m1),
            }
        } else {
            (None, unmark(current))
        },
        None => match current {
            Some(c) => (None, seq![(c, false)]),
            None => match near {
                Some(e) => (Some(e), seq![(e, true)]),
                None => (None, Seq::empty()),
            },
        },
    }
}

fn unmark_into(marks: &mut Vec<(u64, bool)>, s: Option<u64>)
    ensures
        final(marks)@ == old(marks)@ + match s {
            Some(e) => seq![(e, false)],
            None => Seq::<(u64, bool)>::empty(),
        },
{
    match s {
        Some(e) => {
            marks.push((e, false));
            assert(marks@ =~= old(marks)@ + seq![(e, false)]);
        },
        None => {
            assert(marks@ =~= old(marks)@ + Seq::<(u64, bool)>::empty());
        },
    }
}

/// One control-click of the selection tool.
pub fn select_step(current: Option<u64>, at_cursor: Option<u64>, near: Option<u64>) -> (r: SelectStep)
    ensures
        (r.selected, r.marks@) == spec_select(current, at_cursor, near),
{
    let mut marks: Vec<(u64, bool)> = Vec::new();
    let mut selected = current;
    match at_cursor {
        Some(hit) => {
            if selected != Some(hit) {
                unmark_into(&mut marks, selected);
                selected = Some(hit);
                marks.push((hit, true));
            } else {
                unmark_into(&mut marks, selected);
                assert(marks@ =~= spec_select(current, at_cursor, near).1);
                return SelectStep { selected: None, marks };
            }
        },
        None => {
            if let Some(c) = selected {
                marks.push((c, false));
                assert(marks@ =~= spec_select(current, at_cursor, near).1);
                return SelectStep { selected: None, marks };
            }
        },
    }
    let ghost m1 = marks@;
    match near {
        Some(e) => {
            if selected != Some(e) {
                unmark_into(&mut marks, selected);
                selected = Some(e);
                marks.push((e, true));
            } else {
                unmark_into(&mut marks, selected);
                selected = None;
            }
        },
        None => {},
    }
    assert(marks@ =~= spec_select(current, at_cursor, near).1);
    SelectStep { selected, marks }
}

/// The last mark given to `id` in `marks` (true: marked selected, false:
/// unmarked), if it gets one.
pub open spec fn last_mark(marks: Seq<(u64, bool)>, id: u64) -> Option<bool>
    decreases marks.len(),
{
    if marks.len() == 0 {
        None
    } else if marks.last().0 == id {
        Some(marks.last().1)
    } else {
        last_mark(marks.drop_last(), id)
    }
}

/// After a click the marks agree with the selection: every id the click marks
/// ends marked exactly when it is the new selection, the new selection is marked,
/// and a selection that the click replaced or dropped is unmarked.
pub proof fn law_select_marks_follow_selection(
    current: Option<u64>,
    at_cursor: Option<u64>,
    near: Option<u64>,
)
    ensures
        ({
            let (sel, marks) = spec_select(current, at_cursor, near);
            &&& forall|id: u64|
                #[trigger] last_mark(marks, id) is Some ==> last_mark(marks, id) == Some(
                    sel == Some(id),
                )
            &&& sel matches Some(s) ==> last_mark(marks, s) == Some(true)
            &&& current matches Some(c) ==> (sel != Some(c) ==> last_mark(marks, c) == Some(
                false,
            ))
        }),
{
    reveal_with_fuel(last_mark, 5);
    let (sel, marks) = spec_select(current, at_cursor, near);
    match at_cursor {
        Some(hit) => {
            if current != Some(hit) {
                match near {
                    Some(e) => {
                        if Some(hit) != Some(e) {
                            match current {
                                Some(c) => assert(marks =~= seq![(c, false), (hit, true), (hit, false), (e, true)]),
                                None => assert(marks =~= seq![(hit, true), (hit, false), (e, true)]),
                            }
                        } else {
                            match current {
                                Some(c) => assert(marks =~= seq![(c, false), (hit, true), (hit, false)]),
                                None => assert(marks =~= seq![(hit, true), (hit, false)]),
                            }
                        }
                    },
                    None => {
                        match current {
                            Some(c) => assert(marks =~= seq![(c, false), (hit, true)]),
                            None => assert(marks =~= seq![(hit, true)]),
                        }
                    },
                }
            } else {
                assert(marks =~= seq![(hit, false)]);
            }
        },
        None => {},
    }
}

/// The person at the keyboard and the body they control, if any (by id).
#[derive(Debug)]
pub struct User {
    pub uid: usize,
    pub user_name: String,
    pub control_entity: Option<u64>,
}

impl Default for User {
    fn default() -> (r: Self)
        ensures
            r.uid == 0,
            r.user_name@ == "Admin"@,
            r.control_entity is None,
    {
        User { uid: 0, user_name: String::from_str("Admin"), control_entity: None }
    }
}

impl User {
    /// True when the user controls a body.
    pub fn user_is_controled_entity(user: &User) -> (r: bool)
        ensures
            r == user.control_entity is Some,
    {
        !user.control_entity.is_none()
    }
}

} // verus!
