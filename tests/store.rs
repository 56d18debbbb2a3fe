use strim_overlay::{MediaType, Position, ServerPlayer, Store};

fn item(name: &str) -> ServerPlayer {
    ServerPlayer::new(
        name.to_string(),
        format!("data:{name}"),
        MediaType::Image,
        Position::new(0, 0),
        100,
        None,
    )
}

fn names(store: &Store) -> Vec<String> {
    store.snapshot().into_iter().map(|(n, _)| n).collect()
}

fn store_with(list: &[&str]) -> Store {
    let mut store = Store::new();
    for n in list {
        let got = store.insert(n.to_string(), item(n));
        assert_eq!(got, *n);
    }
    store
}

#[test]
fn new_store_is_empty() {
    let store = Store::new();
    assert_eq!(store.len(), 0);
    assert!(store.snapshot().is_empty());
}

#[test]
fn insert_keeps_a_free_name() {
    let mut store = Store::new();
    assert_eq!(store.insert("clip".to_string(), item("whatever")), "clip");
    let snap = store.snapshot();
    assert_eq!(snap.len(), 1);
    assert_eq!(snap[0].0, "clip");
    assert_eq!(snap[0].1.name, "clip");
    assert_eq!(snap[0].1.data, "data:whatever");
}

#[test]
fn second_insert_of_a_name_gets_suffix_two() {
    let mut store = Store::new();
    assert_eq!(store.insert("clip".to_string(), item("clip")), "clip");
    assert_eq!(store.insert("clip".to_string(), item("clip")), "clip-2");
    assert_eq!(names(&store), vec!["clip", "clip-2"]);
}

#[test]
fn third_insert_of_a_name_gets_suffix_three() {
    let mut store = store_with(&["clip"]);
    assert_eq!(store.insert("clip".to_string(), item("clip")), "clip-2");
    assert_eq!(store.insert("clip".to_string(), item("clip")), "clip-3");
    assert_eq!(names(&store), vec!["clip", "clip-2", "clip-3"]);
}

#[test]
fn insert_collides_with_a_longer_name() {
    let mut store = store_with(&["clipper"]);
    assert_eq!(store.insert("clip".to_string(), item("clip")), "clip-2");
    assert_eq!(names(&store), vec!["clipper", "clip-2"]);
}

#[test]
fn insert_takes_the_smallest_free_suffix() {
    let mut store = store_with(&["clip", "clip-2", "clip-3"]);
    assert!(store.remove("clip-2").is_some());
    assert_eq!(store.insert("clip".to_string(), item("clip")), "clip-2");
    assert_eq!(names(&store), vec!["clip", "clip-3", "clip-2"]);
}

#[test]
fn many_colliding_inserts_give_unique_names() {
    let mut store = Store::new();
    let mut got = Vec::new();
    for _ in 0..25 {
        got.push(store.insert("a".to_string(), item("a")));
    }
    got.push(store.insert("a-1".to_string(), item("a")));
    got.push(store.insert("a-2".to_string(), item("a")));
    let mut sorted = got.clone();
    sorted.sort();
    sorted.dedup();
    assert_eq!(sorted.len(), got.len());
    assert_eq!(got[0], "a");
    assert_eq!(got[1], "a-2");
    assert_eq!(got[9], "a-10");
    assert_eq!(got[24], "a-25");
    assert_eq!(got[25], "a-1-2");
    assert_eq!(got[26], "a-2-2");
    assert_eq!(names(&store), got);
}

#[test]
fn remove_keeps_the_order_of_the_rest() {
    let mut store = store_with(&["a", "b", "c", "d"]);
    let removed = store.remove("b").unwrap();
    assert_eq!(removed.name, "b");
    assert_eq!(names(&store), vec!["a", "c", "d"]);
    assert!(store.remove("b").is_none());
    assert_eq!(names(&store), vec!["a", "c", "d"]);
}

#[test]
fn remove_unknown_name_changes_nothing() {
    let mut store = store_with(&["a", "b"]);
    assert!(store.remove("zzz").is_none());
    assert_eq!(names(&store), vec!["a", "b"]);
}

#[test]
fn move_up_first_and_down_last_are_noops() {
    let mut store = store_with(&["a", "b", "c"]);
    assert_eq!(store.move_up("a"), None);
    assert_eq!(store.move_down("c"), None);
    assert_eq!(names(&store), vec!["a", "b", "c"]);
}

#[test]
fn move_up_and_down_swap_neighbours() {
    let mut store = store_with(&["a", "b", "c"]);
    assert_eq!(store.move_up("c"), Some(1));
    assert_eq!(names(&store), vec!["a", "c", "b"]);
    assert_eq!(store.move_down("a"), Some(1));
    assert_eq!(names(&store), vec!["c", "a", "b"]);
    assert_eq!(store.move_up("nope"), None);
    assert_eq!(store.move_down("nope"), None);
}

#[test]
fn move_down_then_up_restores_every_pair() {
    let list = ["a", "b", "c", "d", "e"];
    for i in 0..list.len() - 1 {
        let mut store = store_with(&list);
        let name = list[i];
        assert_eq!(store.move_down(name), Some(i + 1));
        assert_eq!(store.move_up(name), Some(i));
        assert_eq!(names(&store), list.to_vec());
    }
}

#[test]
fn set_position_updates_one_item() {
    let mut store = store_with(&["a", "b"]);
    let updated = store.set_position("b", Position::new(-5, 17)).unwrap();
    assert_eq!(updated.position, Position::new(-5, 17));
    let snap = store.snapshot();
    assert_eq!(snap[1].1.position, Position::new(-5, 17));
    assert_eq!(snap[0].1.position, Position::new(0, 0));
    assert!(store.set_position("c", Position::new(1, 1)).is_none());
}

#[test]
fn set_size_updates_width_and_height() {
    let mut store = store_with(&["a"]);
    let updated = store.set_size("a", 320, Some(240)).unwrap();
    assert_eq!((updated.width, updated.height), (320, Some(240)));
    let updated = store.set_size("a", 50, None).unwrap();
    assert_eq!((updated.width, updated.height), (50, None));
    assert_eq!(store.snapshot()[0].1.width, 50);
    assert!(store.set_size("b", 1, None).is_none());
}

#[test]
fn flip_horizontal_sets_the_flag() {
    let mut store = store_with(&["a"]);
    assert!(!store.snapshot()[0].1.horizontal_flip);
    assert!(store.flip_horizontal("a", true).unwrap().horizontal_flip);
    assert!(store.snapshot()[0].1.horizontal_flip);
    assert!(!store.flip_horizontal("a", false).unwrap().horizontal_flip);
    assert!(store.flip_horizontal("b", true).is_none());
}

#[test]
fn upsert_replaces_in_place_or_appends() {
    let mut store = store_with(&["a", "b"]);
    let mut changed = item("a");
    changed.width = 7;
    store.upsert(changed);
    assert_eq!(names(&store), vec!["a", "b"]);
    assert_eq!(store.snapshot()[0].1.width, 7);
    store.upsert(item("c"));
    assert_eq!(names(&store), vec!["a", "b", "c"]);
}

#[test]
fn position_arithmetic_is_componentwise() {
    let a = Position::new(10, -4);
    let b = Position::new(3, 6);
    assert_eq!(a + b, Position::new(13, 2));
    assert_eq!(a - b, Position::new(7, -10));
}
