//! Decisions of the connection handlers.
//!
//! A connection becomes that of a host or of a player by its first
//! message. The host's handler passes the presence notifications on to the
//! host. A player's handler passes the announcements of the room on to the
//! player, cut down to what concerns that player, and the player's answers
//! into the room.

use vstd::prelude::*;
use crate::api::{
    question_views, Action, ActionView, HostEvent, HostEventView, Question, QuestionView, RoomId,
    UserEvent, UserEventView,
};
use crate::game::{GameEvent, GameEventView};
use crate::presence::{PlayerEvent, PlayerEventView};
use crate::round::{
    correct_count, gains_of, lemma_gain_by_answer, one_answer_each, PlayerAnswer, PlayerAnswerView,
};
use crate::scoring::{gain_of, points_at};

verus! {

/// What a new connection is, by its first message.
#[derive(Debug, PartialEq, Eq)]
pub enum Role {
    /// The connection opens a room with these questions and hosts it.
    Host { questions: Vec<Question> },
    /// The connection asks to play in a room under a name.
    Player { room_id: RoomId, username: String },
    /// The connection is dropped.
    Rejected,
}

/// Mathematical value of a [`Role`].
pub enum RoleView {
    Host { questions: Seq<QuestionView> },
    Player { room_id: RoomId, username: Seq<char> },
    Rejected,
}

impl View for Role {
    type V = RoleView;

    open spec fn view(&self) -> RoleView {
        match self {
            Role::Host { questions } => RoleView::Host { questions: question_views(questions@) },
            Role::Player { room_id, username } => RoleView::Player {
                room_id: *room_id,
                username: username@,
            },
            Role::Rejected => RoleView::Rejected,
        }
    }
}

/// The mathematical value of a message that may be missing.
pub open spec fn received(action: Option<Action>) -> Option<ActionView> {
    match action {
        Some(action) => Some(action@),
        None => None,
    }
}

/// The role that a first message gives: "create room" makes a host, "join
/// room" a player; any other message, and none at all, is rejected.
pub open spec fn role_of(first: Option<ActionView>) -> RoleView {
    match first {
        Some(ActionView::CreateRoom { questions }) => RoleView::Host { questions },
        Some(ActionView::JoinRoom { room_id, username }) => RoleView::Player { room_id, username },
        _ => RoleView::Rejected,
    }
}

/// Decides by its first message what a new connection is.
pub fn first_action(first: Option<Action>) -> (role: Role)
    ensures
        role@ == role_of(received(first)),
{
    match first {
        Some(Action::CreateRoom { questions }) => Role::Host { questions },
        Some(Action::JoinRoom { room_id, username }) => Role::Player { room_id, username },
        _ => Role::Rejected,
    }
}

/// The event that tells the host of a join or a leave.
pub open spec fn presence_notice(event: PlayerEventView) -> HostEventView {
    match event {
        PlayerEventView::Joined(username) => HostEventView::UserJoined { username },
        PlayerEventView::Left(username) => HostEventView::UserLeft { username },
    }
}

/// Turns a presence notification into the event for the host.
pub fn relay_presence(event: PlayerEvent) -> (notice: HostEvent)
    ensures
        notice@ == presence_notice(event@),
{
    match event {
        PlayerEvent::Joined(username) => HostEvent::UserJoined { username },
        PlayerEvent::Left(username) => HostEvent::UserLeft { username },
    }
}

/// What the player `username` is told of an announcement: of a round's
/// begin the number of choices, of its end the player's own points if there
/// are any, and the end of the game. The lobby state is not passed on.
pub open spec fn player_notice(event: GameEventView, username: Seq<char>) -> Option<UserEventView> {
    match event {
        GameEventView::InLobby => None,
        GameEventView::RoundBegin { choice_count } => Some(
            UserEventView::RoundBegin { choice_count },
        ),
        GameEventView::RoundEnd { point_gains } => Some(
            UserEventView::RoundEnd { point_gain: gain_of(point_gains, username) },
        ),
        GameEventView::GameEnd => Some(UserEventView::GameEnd),
    }
}

/// The mathematical value of an event that may be missing.
pub open spec fn told(event: Option<UserEvent>) -> Option<UserEventView> {
    match event {
        Some(event) => Some(event@),
        None => None,
    }
}

/// Cuts an announcement of the room down to the event for the player
/// `username`, or to `None` where the player is told nothing.
pub fn relay_announcement(event: &GameEvent, username: &String) -> (notice: Option<UserEvent>)
    ensures
        told(notice) == player_notice(event@, username@),
{
    match event {
        GameEvent::InLobby => None,
        GameEvent::RoundBegin { choice_count } => Some(
            UserEvent::RoundBegin { choice_count: *choice_count },
        ),
        GameEvent::RoundEnd { point_gains } => Some(
            UserEvent::RoundEnd { point_gain: point_gains.get(username) },
        ),
        GameEvent::GameEnd => Some(UserEvent::GameEnd),
    }
}

/// At the end of a round a player who answered is told the points of that
/// answer: the value of its rank among the correct answers where it is
/// correct, and none where it is not.
pub proof fn lemma_player_is_told_own_points(
    answers: Seq<PlayerAnswerView>,
    correct: nat,
    i: int,
)
    requires
        one_answer_each(answers),
        0 <= i < answers.len(),
    ensures
        player_notice(
            GameEventView::RoundEnd { point_gains: gains_of(answers, correct) },
            answers[i].username,
        ) == Some(
            UserEventView::RoundEnd {
                point_gain: if answers[i].choice == correct {
                    Some(points_at(correct_count(answers.take(i), correct)))
                } else {
                    None
                },
            },
        ),
{
    lemma_gain_by_answer(answers, correct, i);
}

/// What a player's handler does with what it read from the player.
#[derive(Debug, PartialEq, Eq)]
pub enum PlayerInput {
    /// Hand this answer to the room.
    Forward(PlayerAnswer),
    /// Drop the message and read on.
    Ignore,
    /// The player is gone: stop reading.
    Closed,
}

/// Mathematical value of a [`PlayerInput`].
pub enum PlayerInputView {
    Forward(PlayerAnswerView),
    Ignore,
    Closed,
}

impl View for PlayerInput {
    type V = PlayerInputView;

    open spec fn view(&self) -> PlayerInputView {
        match self {
            PlayerInput::Forward(answer) => PlayerInputView::Forward(answer@),
            PlayerInput::Ignore => PlayerInputView::Ignore,
            PlayerInput::Closed => PlayerInputView::Closed,
        }
    }
}

/// An answer goes to the room under the player's name; every other message
/// is dropped; without a message the player is gone.
pub open spec fn player_input(action: Option<ActionView>, username: Seq<char>) -> PlayerInputView {
    match action {
        Some(ActionView::Answer { choice }) => PlayerInputView::Forward(
            PlayerAnswerView { username, choice },
        ),
        Some(_) => PlayerInputView::Ignore,
        None => PlayerInputView::Closed,
    }
}

/// Decides what becomes of what was read from the player `username`.
pub fn relay_action(action: Option<Action>, username: &String) -> (input: PlayerInput)
    ensures
        input@ == player_input(received(action), username@),
{
    match action {
        Some(Action::Answer { choice }) => PlayerInput::Forward(
            PlayerAnswer { username: username.clone(), choice },
        ),
        Some(_) => PlayerInput::Ignore,
        None => PlayerInput::Closed,
    }
}

} // verus!
