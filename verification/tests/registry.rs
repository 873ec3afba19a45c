use kahoot_clone_backend::api::RoomId;
use kahoot_clone_backend::registry::State;

#[test]
fn new_registry_is_empty() {
    let state: State<&str> = State::new();
    assert_eq!(state.room_count(), 0);
    assert_eq!(state.find_room(&RoomId { value: 0 }), None);
}

#[test]
fn inserted_room_is_found_under_its_id() {
    let mut state = State::new();
    let id = state.insert_room("lobby");
    assert_eq!(state.find_room(&id), Some(&"lobby"));
    assert_eq!(state.room_count(), 1);
}

#[test]
fn ids_of_open_rooms_differ() {
    let mut state = State::new();
    let mut ids = Vec::new();
    for n in 0..50u32 {
        let id = state.insert_room(n);
        assert!(!ids.contains(&id));
        ids.push(id);
    }
    assert_eq!(state.room_count(), 50);
    for (n, id) in ids.iter().enumerate() {
        assert_eq!(state.find_room(id), Some(&(n as u32)));
    }
}

#[test]
fn remove_is_idempotent() {
    let mut state = State::new();
    let a = state.insert_room(1);
    let b = state.insert_room(2);
    assert_eq!(state.remove_room(&a), Some(1));
    assert_eq!(state.remove_room(&a), None);
    assert_eq!(state.find_room(&a), None);
    assert_eq!(state.find_room(&b), Some(&2));
    assert_eq!(state.room_count(), 1);
}

#[test]
fn remove_of_unknown_id_changes_nothing() {
    let mut state = State::new();
    let a = state.insert_room(1);
    let unknown = RoomId { value: a.value.wrapping_add(17) };
    assert_eq!(state.remove_room(&unknown), None);
    assert_eq!(state.find_room(&a), Some(&1));
}

#[test]
fn id_is_fresh_after_removals() {
    let mut state = State::new();
    let a = state.insert_room('a');
    let b = state.insert_room('b');
    state.remove_room(&a);
    let c = state.insert_room('c');
    assert_ne!(c, b);
    assert_eq!(state.find_room(&b), Some(&'b'));
    assert_eq!(state.find_room(&c), Some(&'c'));
    assert_eq!(state.room_count(), 2);
}
