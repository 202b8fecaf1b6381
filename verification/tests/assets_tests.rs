use sintet::assets::{index_atlas, match_assets, process_assets, process_ui_assets, try_index_atlas};

fn strings(v: &[&str]) -> Vec<String> {
    v.iter().map(|s| s.to_string()).collect()
}

#[test]
fn textures_matched_by_stem_once() {
    let find = strings(&["wood", "stone", "wood"]);
    let check = strings(&[
        "Data/Core/Textures/items/stone.png",
        "Data/Core/Textures/items/wood.png",
        "Data/Core/Textures/objects/wood.png",
        "Data/Core/Textures/items/iron.png",
    ]);
    let r = process_assets(&find, &check);
    assert_eq!(
        r,
        strings(&[
            "Data/Core/Textures/items/wood.png",
            "Data/Core/Textures/objects/wood.png",
            "Data/Core/Textures/items/stone.png",
        ])
    );
    assert_eq!(match_assets(&find, &check), Some(r));
}

#[test]
fn request_without_stem() {
    let find = strings(&[""]);
    let check = strings(&["a/b.png"]);
    assert_eq!(match_assets(&find, &check), None);
    let no_stem_files = strings(&["..", ""]);
    assert_eq!(match_assets(&find, &no_stem_files), Some(vec![]));
}

#[test]
fn ui_textures() {
    let check = strings(&["gui/select.png", "gui/other.png", "gui/inv_ui_btn.png", "x/select.jpg"]);
    assert_eq!(
        process_ui_assets(&check),
        strings(&["gui/select.png", "gui/inv_ui_btn.png", "x/select.jpg"])
    );
}

fn found(v: &[Option<&str>]) -> Vec<Option<String>> {
    v.iter().map(|o| o.map(|s| s.to_string())).collect()
}

#[test]
fn atlas_places_requested_pictures_in_folder_order() {
    let files = found(&[
        Some("Data/Core/Textures/items/wood.png"),
        None,
        Some("Data/Core/Textures/items/notes.txt"),
        Some("Data/Core/Textures/items/stone.png"),
        Some("Data/Core/Textures/items/iron.png"),
    ]);
    let images = vec![true, true, false, true, true];
    let requested = strings(&[
        "Data\\Core\\Textures\\items\\stone.png",
        "Data/Core/Textures/items/wood.png",
        "Data/Core/Textures/items/notes.txt",
    ]);
    let (ids, order) = index_atlas(&files, &images, &requested);
    assert_eq!(order, vec![0, 3]);
    assert_eq!(ids.get("wood"), Some(0));
    assert_eq!(ids.get("stone"), Some(1));
    assert_eq!(ids.get("notes"), None);
    assert_eq!(ids.get("iron"), None);
}

#[test]
fn atlas_repeats_a_picture_requested_twice() {
    let files = found(&[Some("a/wood.png"), Some("b/stone.png")]);
    let images = vec![true, true];
    let requested = strings(&["x/wood.png", "stone.png", "y\\wood.png"]);
    let (ids, order) = index_atlas(&files, &images, &requested);
    assert_eq!(order, vec![0, 0, 1]);
    assert_eq!(ids.get("wood"), Some(1));
    assert_eq!(ids.get("stone"), Some(2));
}

#[test]
fn atlas_name_is_stem_after_last_slash() {
    let files = found(&[Some("dir/sub\\tile.v2.png")]);
    let images = vec![true];
    let requested = strings(&["tile.v2.png"]);
    let (ids, order) = index_atlas(&files, &images, &requested);
    assert_eq!(order, vec![0]);
    assert_eq!(ids.get("sub\\tile.v2"), Some(0));
    assert_eq!(ids.get("tile.v2"), None);
}

#[test]
fn atlas_checked_refuses_nameless_or_mismatched() {
    let files = found(&[Some("a/..")]);
    let requested = strings(&["b/.."]);
    assert!(try_index_atlas(&files, &vec![true], &requested).is_none());
    assert!(try_index_atlas(&files, &vec![false], &requested).is_some());
    assert!(try_index_atlas(&files, &vec![true, true], &requested).is_none());
    let ok = found(&[Some("a/wood.png")]);
    let (ids, order) = try_index_atlas(&ok, &vec![true], &strings(&["wood.png"])).unwrap();
    assert_eq!(order, vec![0]);
    assert_eq!(ids.get("wood"), Some(0));
}
