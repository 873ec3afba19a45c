use std::cell::RefCell;
use std::rc::Rc;

use kahoot_clone_backend::api::{Action, HostEvent, Question, RoomId, UserEvent};
use kahoot_clone_backend::game::{Command, Event, GameEvent, Phase};
use kahoot_clone_backend::orchestrator::Orchestrator;
use kahoot_clone_backend::presence::{Presence, Users};
use kahoot_clone_backend::registry::State;
use kahoot_clone_backend::session::{
    first_action, relay_action, relay_announcement, relay_presence, PlayerInput, Role,
};

/// One room as a server keeps it, without sockets: what the host was sent
/// and what was announced is kept in lists.
struct Room {
    users: Users,
    game: Orchestrator,
    host_inbox: Vec<HostEvent>,
    announced: Vec<GameEvent>,
    deadline: Option<(usize, u64)>,
    relaying: bool,
}

type Handle = Rc<RefCell<Room>>;

struct Server {
    state: State<Handle>,
}

struct Host {
    room_id: RoomId,
    room: Handle,
    read: usize,
}

struct Player {
    room: Handle,
    username: String,
    presence: Option<Presence>,
    read: usize,
}

impl Server {
    fn new() -> Self {
        Server { state: State::new() }
    }

    fn carry_out(&mut self, room_id: RoomId, room: &Handle, commands: Vec<Command>) {
        for command in commands {
            let mut room = room.borrow_mut();
            match command {
                Command::NotifyHost(event) => room.host_inbox.push(event),
                Command::Broadcast(event) => room.announced.push(event),
                Command::StartDeadline { round, seconds } => room.deadline = Some((round, seconds)),
                Command::CancelDeadline => room.deadline = None,
                Command::StopRelay => room.relaying = false,
                Command::RemoveRoom => {
                    self.state.remove_room(&room_id);
                }
            }
        }
    }

    fn create_room(&mut self, questions: Vec<Question>) -> Host {
        match first_action(Some(Action::CreateRoom { questions })) {
            Role::Host { questions } => {
                let room = Rc::new(RefCell::new(Room {
                    users: Users::new(),
                    game: Orchestrator::new(questions),
                    host_inbox: Vec::new(),
                    announced: Vec::new(),
                    deadline: None,
                    relaying: true,
                }));
                let room_id = self.state.insert_room(Rc::clone(&room));
                room.borrow_mut().host_inbox.push(HostEvent::RoomCreated { room_id });
                let mut host = Host { room_id, room, read: 0 };
                assert_eq!(host.next(), Some(HostEvent::RoomCreated { room_id }));
                host
            }
            other => panic!("Unexpected role {other:?}"),
        }
    }

    fn join_room(&mut self, room_id: RoomId, username: String) -> Option<Player> {
        match first_action(Some(Action::JoinRoom { room_id, username })) {
            Role::Player { room_id, username } => {
                let room = Rc::clone(self.state.find_room(&room_id)?);
                let (presence, event) = room.borrow_mut().users.join_user(username.clone())?;
                let read = {
                    let mut room = room.borrow_mut();
                    if room.relaying {
                        room.host_inbox.push(relay_presence(event));
                    }
                    room.announced.len()
                };
                Some(Player { room, username, presence: Some(presence), read })
            }
            other => panic!("Unexpected role {other:?}"),
        }
    }

    fn step(&mut self, room_id: RoomId, room: &Handle, event: Event) {
        let commands = {
            let mut guard = room.borrow_mut();
            let room = &mut *guard;
            room.game.step(event, &room.users)
        };
        self.carry_out(room_id, room, commands);
    }

    fn host_sends(&mut self, host: &Host, action: Option<Action>) {
        assert!(host.room.borrow().game.awaits_host());
        self.step(host.room_id, &host.room, Event::Host(action));
    }

    fn player_sends(&mut self, room_id: RoomId, player: &Player, action: Action) {
        match relay_action(Some(action), &player.username) {
            PlayerInput::Forward(answer) => self.step(room_id, &player.room, Event::Answer(answer)),
            PlayerInput::Ignore => {}
            PlayerInput::Closed => panic!("the player sent something"),
        }
    }

    fn time_runs_out(&mut self, host: &Host) {
        let (round, _) = host.room.borrow().deadline.expect("a deadline runs");
        host.room.borrow_mut().deadline = None;
        self.step(host.room_id, &host.room, Event::Deadline { round });
    }
}

impl Host {
    fn next(&mut self) -> Option<HostEvent> {
        let event = self.room.borrow().host_inbox.get(self.read).cloned()?;
        self.read += 1;
        Some(event)
    }
}

impl Player {
    /// The next event for this player, of those announced since the player
    /// came.
    fn next(&mut self) -> Option<UserEvent> {
        loop {
            let event = {
                let room = self.room.borrow();
                room.announced.get(self.read)?.clone()
            };
            self.read += 1;
            if let Some(notice) = relay_announcement(&event, &self.username) {
                return Some(notice);
            }
        }
    }

    fn close(&mut self) {
        if let Some(presence) = self.presence.take() {
            let mut room = self.room.borrow_mut();
            if let Some(event) = room.users.leave(presence) {
                if room.relaying {
                    room.host_inbox.push(relay_presence(event));
                }
            }
        }
    }
}

/// A question with these choices, of which the one marked `true` is
/// correct.
fn fish(time: u64) -> Question {
    let mut answer = 0;
    let mut answer_count = 0;
    let mut choices = Vec::new();
    for (correct, choice) in [(true, "foo"), (false, "bar")] {
        choices.push(String::from(choice));
        if correct {
            answer_count += 1;
        } else {
            answer += 1;
        }
    }
    assert!(answer_count == 1, "Must have one correct answer");
    Question { question: String::from("Fish?"), time, choices, answer }
}

/// Tests a simple situation where there is one player and only one question.
#[test]
fn one_player_and_question() {
    // Start server
    let mut server = Server::new();

    // Sample question
    let question = fish(30);

    // Start room
    let mut host = server.create_room(vec![question.clone()]);
    let room_id = host.room_id;

    // Player joins
    let mut user = server.join_room(room_id, String::from("Johnny")).unwrap();

    // User joined event
    match host.next() {
        Some(HostEvent::UserJoined { username }) => assert_eq!("Johnny", &username),
        other => panic!("Unexpected event {other:?}"),
    }

    // Send begin round action
    server.host_sends(&host, Some(Action::BeginRound));

    // Round begin event
    match host.next() {
        // Check if the question is the same
        Some(HostEvent::RoundBegin { question: sent }) => assert_eq!(question, sent),
        other => panic!("Unexpected event {other:?}"),
    }
    match user.next() {
        // Has correct choice count
        Some(UserEvent::RoundBegin { choice_count }) => {
            assert_eq!(question.choices.len(), choice_count)
        }
        other => panic!("Unexpected event {other:?}"),
    }

    // Send correct answer
    server.player_sends(room_id, &user, Action::Answer { choice: question.answer });

    // User answered event
    match host.next() {
        Some(HostEvent::UserAnswered { username }) => assert_eq!("Johnny", &username),
        other => panic!("Unexpected event {other:?}"),
    }

    // Round end event
    match host.next() {
        // Johnny gained 1000 points
        Some(HostEvent::RoundEnd { point_gains }) => {
            assert_eq!(point_gains.get(&String::from("Johnny")), Some(1000))
        }
        other => panic!("Unexpected event {other:?}"),
    }
    match user.next() {
        // Gained 1000 points
        Some(UserEvent::RoundEnd { point_gain: Some(point_gain) }) => {
            assert_eq!(point_gain, 1000)
        }
        other => panic!("Unexpected event {other:?}"),
    }

    // Send begin round action
    server.host_sends(&host, Some(Action::BeginRound));

    // Game end event
    assert_eq!(host.next(), Some(HostEvent::GameEnd));
    assert_eq!(user.next(), Some(UserEvent::GameEnd));
    assert_eq!(host.next(), None);
    assert_eq!(user.next(), None);

    // The room is gone
    assert!(server.state.find_room(&room_id).is_none());
    assert!(server.join_room(room_id, String::from("Late")).is_none());
}

#[test]
fn join_leave() {
    let mut server = Server::new();

    let mut host = server.create_room(vec![fish(30)]);
    let room_id = host.room_id;

    // Alice join
    let mut alice = server.join_room(room_id, String::from("Alice")).unwrap();

    // Bob join
    let mut bob = server.join_room(room_id, String::from("Bob")).unwrap();

    // Alice leave
    alice.close();

    // Chris join
    let mut chris = server.join_room(room_id, String::from("Chris")).unwrap();

    // Chris leave
    chris.close();

    // Bob leave
    bob.close();

    // Host tests
    let mut joined: Vec<String> = Vec::new();
    let mut left: Vec<String> = Vec::new();

    let mut i = 0;
    while let Some(event) = host.next() {
        match event {
            HostEvent::UserJoined { username } => {
                assert!(!joined.contains(&username), "{username} joined twice");
                joined.push(username);
            }
            HostEvent::UserLeft { username } => {
                assert!(joined.contains(&username), "{username} left before joining");
                assert!(!left.contains(&username), "{username} left twice");
                left.push(username);
            }
            _ => panic!("Unexpected event {event:?}"),
        }

        i += 1;
        if i >= 6 {
            break;
        }
    }
    assert_eq!(i, 6);
    assert_eq!(host.next(), None);

    joined.sort();
    left.sort();
    let names = vec![String::from("Alice"), String::from("Bob"), String::from("Chris")];
    assert_eq!(joined, names);
    assert_eq!(left, names);
}

/// The same game with the first choice as the correct one.
#[test]
fn johnny_answers_the_first_choice() {
    let mut server = Server::new();
    let question = Question {
        question: String::from("Fish?"),
        time: 30,
        choices: vec![String::from("foo"), String::from("bar")],
        answer: 0,
    };
    let mut host = server.create_room(vec![question.clone()]);
    let room_id = host.room_id;
    let mut johnny = server.join_room(room_id, String::from("Johnny")).unwrap();
    server.host_sends(&host, Some(Action::BeginRound));
    assert_eq!(host.room.borrow().deadline, Some((0, 30)));
    server.player_sends(room_id, &johnny, Action::Answer { choice: 0 });
    assert_eq!(host.room.borrow().deadline, None);
    server.host_sends(&host, Some(Action::BeginRound));

    let mut seen = Vec::new();
    while let Some(event) = host.next() {
        seen.push(event);
    }
    let mut gains = kahoot_clone_backend::scoring::PointGains::new();
    gains.credit(String::from("Johnny"), 1000);
    assert_eq!(
        seen,
        vec![
            HostEvent::UserJoined { username: String::from("Johnny") },
            HostEvent::RoundBegin { question },
            HostEvent::UserAnswered { username: String::from("Johnny") },
            HostEvent::RoundEnd { point_gains: gains },
            HostEvent::GameEnd,
        ]
    );
    assert_eq!(johnny.next(), Some(UserEvent::RoundBegin { choice_count: 2 }));
    assert_eq!(johnny.next(), Some(UserEvent::RoundEnd { point_gain: Some(1000) }));
    assert_eq!(johnny.next(), Some(UserEvent::GameEnd));
    assert_eq!(johnny.next(), None);
    assert_eq!(host.room.borrow().game.phase(), Phase::GameOver);
}

#[test]
fn begin_round_in_an_empty_room_aborts_it() {
    let mut server = Server::new();
    let mut host = server.create_room(vec![fish(30)]);
    let room_id = host.room_id;
    assert!(server.state.find_room(&room_id).is_some());
    server.host_sends(&host, Some(Action::BeginRound));
    assert_eq!(host.room.borrow().game.phase(), Phase::Aborted);
    assert!(host.room.borrow().announced.is_empty());
    assert_eq!(host.next(), None);
    assert!(server.state.find_room(&room_id).is_none());
    assert_eq!(server.state.room_count(), 0);
    assert!(server.join_room(room_id, String::from("Alice")).is_none());
}

#[test]
fn one_correct_and_one_incorrect_answer() {
    let mut server = Server::new();
    let mut host = server.create_room(vec![fish(30)]);
    let room_id = host.room_id;
    let mut alice = server.join_room(room_id, String::from("Alice")).unwrap();
    let mut bob = server.join_room(room_id, String::from("Bob")).unwrap();
    server.host_sends(&host, Some(Action::BeginRound));
    server.player_sends(room_id, &alice, Action::Answer { choice: 0 });
    server.player_sends(room_id, &bob, Action::Answer { choice: 1 });
    let mut round_end = None;
    while let Some(event) = host.next() {
        if let HostEvent::RoundEnd { point_gains } = event {
            round_end = Some(point_gains);
        }
    }
    let point_gains = round_end.unwrap();
    assert_eq!(point_gains.len(), 1);
    assert_eq!(point_gains.get(&String::from("Bob")), Some(1000));
    assert_eq!(alice.next(), Some(UserEvent::RoundBegin { choice_count: 2 }));
    assert_eq!(alice.next(), Some(UserEvent::RoundEnd { point_gain: None }));
    assert_eq!(bob.next(), Some(UserEvent::RoundBegin { choice_count: 2 }));
    assert_eq!(bob.next(), Some(UserEvent::RoundEnd { point_gain: Some(1000) }));
}

#[test]
fn name_in_use_is_turned_away_without_a_trace() {
    let mut server = Server::new();
    let mut host = server.create_room(vec![fish(30)]);
    let room_id = host.room_id;
    let _alice = server.join_room(room_id, String::from("Alice")).unwrap();
    assert!(server.join_room(room_id, String::from("Alice")).is_none());
    assert_eq!(host.next(), Some(HostEvent::UserJoined { username: String::from("Alice") }));
    assert_eq!(host.next(), None);
    assert_eq!(host.room.borrow().users.player_count(), 1);
}

#[test]
fn unknown_room_cannot_be_joined() {
    let mut server = Server::new();
    let host = server.create_room(vec![fish(30)]);
    let unknown = RoomId { value: host.room_id.value.wrapping_add(1) };
    assert!(server.join_room(unknown, String::from("Alice")).is_none());
    assert_eq!(host.room.borrow().users.player_count(), 0);
}

#[test]
fn late_player_hears_only_what_follows() {
    let mut server = Server::new();
    let host = server.create_room(vec![fish(30), fish(30)]);
    let room_id = host.room_id;
    let mut alice = server.join_room(room_id, String::from("Alice")).unwrap();
    server.host_sends(&host, Some(Action::BeginRound));
    let mut bob = server.join_room(room_id, String::from("Bob")).unwrap();
    assert_eq!(bob.next(), None);
    assert_eq!(alice.next(), Some(UserEvent::RoundBegin { choice_count: 2 }));
    // the round now waits for Bob as well
    server.player_sends(room_id, &alice, Action::Answer { choice: 1 });
    assert_eq!(host.room.borrow().game.phase(), Phase::RoundActive(0));
    server.player_sends(room_id, &bob, Action::Answer { choice: 1 });
    assert_eq!(host.room.borrow().game.phase(), Phase::RoundSettling(0));
    assert_eq!(alice.next(), Some(UserEvent::RoundEnd { point_gain: Some(1000) }));
    assert_eq!(bob.next(), Some(UserEvent::RoundEnd { point_gain: Some(909) }));
}

#[test]
fn time_runs_out_before_everybody_answered() {
    let mut server = Server::new();
    let mut host = server.create_room(vec![fish(7)]);
    let room_id = host.room_id;
    let mut alice = server.join_room(room_id, String::from("Alice")).unwrap();
    let mut bob = server.join_room(room_id, String::from("Bob")).unwrap();
    server.host_sends(&host, Some(Action::BeginRound));
    assert_eq!(host.room.borrow().deadline, Some((0, 7)));
    server.player_sends(room_id, &bob, Action::Answer { choice: 1 });
    // out of turn: ignored
    server.player_sends(room_id, &bob, Action::BeginRound);
    server.player_sends(room_id, &bob, Action::Answer { choice: 0 });
    server.time_runs_out(&host);
    assert_eq!(host.room.borrow().game.phase(), Phase::RoundSettling(0));
    assert_eq!(alice.next(), Some(UserEvent::RoundBegin { choice_count: 2 }));
    assert_eq!(alice.next(), Some(UserEvent::RoundEnd { point_gain: None }));
    assert_eq!(bob.next(), Some(UserEvent::RoundBegin { choice_count: 2 }));
    assert_eq!(bob.next(), Some(UserEvent::RoundEnd { point_gain: Some(1000) }));
    let mut answered = 0;
    while let Some(event) = host.next() {
        if let HostEvent::UserAnswered { username } = event {
            assert_eq!(username, "Bob");
            answered += 1;
        }
    }
    assert_eq!(answered, 1);
}

#[test]
fn host_leaving_between_rounds_closes_the_room() {
    let mut server = Server::new();
    let mut host = server.create_room(vec![fish(30), fish(30)]);
    let room_id = host.room_id;
    let mut alice = server.join_room(room_id, String::from("Alice")).unwrap();
    server.host_sends(&host, Some(Action::BeginRound));
    server.player_sends(room_id, &alice, Action::Answer { choice: 1 });
    server.host_sends(&host, None);
    assert_eq!(host.room.borrow().game.phase(), Phase::Aborted);
    assert!(server.state.find_room(&room_id).is_none());
    // the players were told of the round, and of nothing after it
    assert_eq!(alice.next(), Some(UserEvent::RoundBegin { choice_count: 2 }));
    assert_eq!(alice.next(), Some(UserEvent::RoundEnd { point_gain: Some(1000) }));
    assert_eq!(alice.next(), None);
    // the leave of a player is no longer passed on
    while host.next().is_some() {}
    alice.close();
    assert_eq!(host.next(), None);
}

#[test]
fn two_rooms_do_not_mix() {
    let mut server = Server::new();
    let mut first = server.create_room(vec![fish(30)]);
    let mut second = server.create_room(vec![fish(30)]);
    assert_ne!(first.room_id, second.room_id);
    let _a = server.join_room(first.room_id, String::from("Alice")).unwrap();
    let _b = server.join_room(second.room_id, String::from("Alice")).unwrap();
    assert_eq!(first.next(), Some(HostEvent::UserJoined { username: String::from("Alice") }));
    assert_eq!(first.next(), None);
    assert_eq!(second.next(), Some(HostEvent::UserJoined { username: String::from("Alice") }));
    server.host_sends(&first, Some(Action::Answer { choice: 0 }));
    assert!(server.state.find_room(&first.room_id).is_none());
    assert!(server.state.find_room(&second.room_id).is_some());
    assert_eq!(second.room.borrow().game.phase(), Phase::Lobby);
}
