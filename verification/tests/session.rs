use kahoot_clone_backend::api::{Action, HostEvent, Question, RoomId, UserEvent};
use kahoot_clone_backend::game::GameEvent;
use kahoot_clone_backend::presence::PlayerEvent;
use kahoot_clone_backend::round::PlayerAnswer;
use kahoot_clone_backend::scoring::PointGains;
use kahoot_clone_backend::session::{
    first_action, relay_action, relay_announcement, relay_presence, PlayerInput, Role,
};

fn question() -> Question {
    Question {
        question: String::from("Fish?"),
        time: 30,
        choices: vec![String::from("foo"), String::from("bar")],
        answer: 0,
    }
}

#[test]
fn create_room_makes_a_host() {
    let role = first_action(Some(Action::CreateRoom { questions: vec![question()] }));
    assert_eq!(role, Role::Host { questions: vec![question()] });
}

#[test]
fn join_room_makes_a_player() {
    let role = first_action(Some(Action::JoinRoom {
        room_id: RoomId { value: 42 },
        username: String::from("Alice"),
    }));
    assert_eq!(
        role,
        Role::Player { room_id: RoomId { value: 42 }, username: String::from("Alice") }
    );
}

#[test]
fn other_first_messages_are_rejected() {
    assert_eq!(first_action(Some(Action::BeginRound)), Role::Rejected);
    assert_eq!(first_action(Some(Action::Answer { choice: 1 })), Role::Rejected);
    assert_eq!(first_action(None), Role::Rejected);
}

#[test]
fn presence_is_passed_on_to_the_host() {
    assert_eq!(
        relay_presence(PlayerEvent::Joined(String::from("Alice"))),
        HostEvent::UserJoined { username: String::from("Alice") }
    );
    assert_eq!(
        relay_presence(PlayerEvent::Left(String::from("Alice"))),
        HostEvent::UserLeft { username: String::from("Alice") }
    );
}

#[test]
fn player_is_told_only_the_own_gain() {
    let mut point_gains = PointGains::new();
    point_gains.credit(String::from("Alice"), 1000);
    point_gains.credit(String::from("Bob"), 909);
    let event = GameEvent::RoundEnd { point_gains };
    assert_eq!(
        relay_announcement(&event, &String::from("Bob")),
        Some(UserEvent::RoundEnd { point_gain: Some(909) })
    );
    assert_eq!(
        relay_announcement(&event, &String::from("Alice")),
        Some(UserEvent::RoundEnd { point_gain: Some(1000) })
    );
    assert_eq!(
        relay_announcement(&event, &String::from("Chris")),
        Some(UserEvent::RoundEnd { point_gain: None })
    );
}

#[test]
fn lobby_state_is_not_passed_on() {
    assert_eq!(relay_announcement(&GameEvent::InLobby, &String::from("Alice")), None);
}

#[test]
fn round_begin_and_game_end_are_passed_on() {
    let name = String::from("Alice");
    assert_eq!(
        relay_announcement(&GameEvent::RoundBegin { choice_count: 4 }, &name),
        Some(UserEvent::RoundBegin { choice_count: 4 })
    );
    assert_eq!(relay_announcement(&GameEvent::GameEnd, &name), Some(UserEvent::GameEnd));
}

#[test]
fn only_game_end_closes_the_connection() {
    assert!(UserEvent::GameEnd.is_last());
    assert!(!UserEvent::RoundBegin { choice_count: 2 }.is_last());
    assert!(!UserEvent::RoundEnd { point_gain: None }.is_last());
    assert!(!UserEvent::RoundEnd { point_gain: Some(1) }.is_last());
}

#[test]
fn answers_go_to_the_room_under_the_players_name() {
    let name = String::from("Alice");
    assert_eq!(
        relay_action(Some(Action::Answer { choice: 3 }), &name),
        PlayerInput::Forward(PlayerAnswer { username: String::from("Alice"), choice: 3 })
    );
}

#[test]
fn other_messages_of_a_player_are_ignored() {
    let name = String::from("Alice");
    assert_eq!(relay_action(Some(Action::BeginRound), &name), PlayerInput::Ignore);
    assert_eq!(
        relay_action(Some(Action::CreateRoom { questions: Vec::new() }), &name),
        PlayerInput::Ignore
    );
    assert_eq!(
        relay_action(
            Some(Action::JoinRoom { room_id: RoomId { value: 1 }, username: String::from("x") }),
            &name
        ),
        PlayerInput::Ignore
    );
}

#[test]
fn a_player_without_messages_is_gone() {
    assert_eq!(relay_action(None, &String::from("Alice")), PlayerInput::Closed);
}

#[test]
fn question_copy_is_equal() {
    let first = question();
    let copy = first.clone();
    assert_eq!(copy, first);
    assert_eq!(copy.choices.len(), 2);
    assert_eq!(copy.time, 30);
}
