//! Values of the wire protocol.
//!
//! Every message carries a `type` tag and the fields of its variant. The
//! client sends an [`Action`]; the server answers the host with
//! [`HostEvent`]s and each player with [`UserEvent`]s. How a message is
//! encoded is not decided here: these are the decoded values, and each has a
//! mathematical view that the contracts of this crate speak of.

use vstd::prelude::*;
use crate::scoring::PointGains;

verus! {

/// Token that identifies one room of the registry.
#[derive(Clone, Copy, Debug, PartialEq, Eq, Hash, Structural)]
pub struct RoomId {
    pub value: u64,
}

/// The views of a sequence of strings, element by element.
pub open spec fn texts(strings: Seq<String>) -> Seq<Seq<char>> {
    Seq::new(strings.len(), |i: int| strings[i]@)
}

/// One question of a game: a prompt, its choices in order, the index of the
/// correct choice and the time budget in seconds.
#[derive(Debug, PartialEq, Eq)]
pub struct Question {
    pub question: String,
    pub time: u64,
    pub choices: Vec<String>,
    pub answer: usize,
}

/// Mathematical value of a [`Question`].
pub struct QuestionView {
    pub question: Seq<char>,
    pub time: nat,
    pub choices: Seq<Seq<char>>,
    pub answer: nat,
}

impl View for Question {
    type V = QuestionView;

    open spec fn view(&self) -> QuestionView {
        QuestionView {
            question: self.question@,
            time: self.time as nat,
            choices: texts(self.choices@),
            answer: self.answer as nat,
        }
    }
}

impl Clone for Question {
    /// The copy holds the same prompt, time, choices and answer.
    fn clone(&self) -> (copy: Self)
        ensures
            copy@ == self@,
    {
        let mut choices: Vec<String> = Vec::new();
        let mut i: usize = 0;
        while i < self.choices.len()
            invariant
                i <= self.choices.len(),
                choices.len() == i,
                forall|k: int| 0 <= k < i ==> choices[k]@ == self.choices[k]@,
            decreases self.choices.len() - i,
        {
            choices.push(self.choices[i].clone());
            i += 1;
        }
        assert(texts(choices@) =~= texts(self.choices@));
        Question { question: self.question.clone(), time: self.time, choices, answer: self.answer }
    }
}

/// The views of a sequence of questions, element by element.
pub open spec fn question_views(questions: Seq<Question>) -> Seq<QuestionView> {
    Seq::new(questions.len(), |i: int| questions[i]@)
}

/// Copies a list of questions.
pub fn clone_questions(questions: &Vec<Question>) -> (copy: Vec<Question>)
    ensures
        question_views(copy@) == question_views(questions@),
{
    let mut copy: Vec<Question> = Vec::new();
    let mut i: usize = 0;
    while i < questions.len()
        invariant
            i <= questions.len(),
            copy.len() == i,
            forall|k: int| 0 <= k < i ==> copy[k]@ == questions[k]@,
        decreases questions.len() - i,
    {
        copy.push(questions[i].clone());
        i += 1;
    }
    assert(question_views(copy@) =~= question_views(questions@));
    copy
}

/// A message from a client.
#[derive(Debug, PartialEq, Eq)]
pub enum Action {
    /// Opens a room with these questions; the sender becomes its host.
    CreateRoom { questions: Vec<Question> },
    /// Asks to enter a room under a name; the sender becomes a player.
    JoinRoom { room_id: RoomId, username: String },
    /// The host starts the first round or advances to the next one.
    BeginRound,
    /// A player picks a choice of the running question.
    Answer { choice: usize },
}

/// Mathematical value of an [`Action`].
pub enum ActionView {
    CreateRoom { questions: Seq<QuestionView> },
    JoinRoom { room_id: RoomId, username: Seq<char> },
    BeginRound,
    Answer { choice: nat },
}

impl View for Action {
    type V = ActionView;

    open spec fn view(&self) -> ActionView {
        match self {
            Action::CreateRoom { questions } => ActionView::CreateRoom {
                questions: question_views(questions@),
            },
            Action::JoinRoom { room_id, username } => ActionView::JoinRoom {
                room_id: *room_id,
                username: username@,
            },
            Action::BeginRound => ActionView::BeginRound,
            Action::Answer { choice } => ActionView::Answer { choice: *choice as nat },
        }
    }
}

impl Clone for Action {
    /// The copy is the same message.
    fn clone(&self) -> (copy: Self)
        ensures
            copy@ == self@,
    {
        match self {
            Action::CreateRoom { questions } => Action::CreateRoom {
                questions: clone_questions(questions),
            },
            Action::JoinRoom { room_id, username } => Action::JoinRoom {
                room_id: *room_id,
                username: username.clone(),
            },
            Action::BeginRound => Action::BeginRound,
            Action::Answer { choice } => Action::Answer { choice: *choice },
        }
    }
}

/// A message from the server to the host of a room.
#[derive(Debug, PartialEq, Eq)]
pub enum HostEvent {
    RoomCreated { room_id: RoomId },
    UserJoined { username: String },
    UserLeft { username: String },
    /// A round began; carries the whole question, with its correct answer.
    RoundBegin { question: Question },
    UserAnswered { username: String },
    RoundEnd { point_gains: PointGains },
    GameEnd,
}

/// Mathematical value of a [`HostEvent`].
pub enum HostEventView {
    RoomCreated { room_id: RoomId },
    UserJoined { username: Seq<char> },
    UserLeft { username: Seq<char> },
    RoundBegin { question: QuestionView },
    UserAnswered { username: Seq<char> },
    RoundEnd { point_gains: Seq<(Seq<char>, nat)> },
    GameEnd,
}

impl View for HostEvent {
    type V = HostEventView;

    open spec fn view(&self) -> HostEventView {
        match self {
            HostEvent::RoomCreated { room_id } => HostEventView::RoomCreated { room_id: *room_id },
            HostEvent::UserJoined { username } => HostEventView::UserJoined { username: username@ },
            HostEvent::UserLeft { username } => HostEventView::UserLeft { username: username@ },
            HostEvent::RoundBegin { question } => HostEventView::RoundBegin { question: question@ },
            HostEvent::UserAnswered { username } => HostEventView::UserAnswered {
                username: username@,
            },
            HostEvent::RoundEnd { point_gains } => HostEventView::RoundEnd {
                point_gains: point_gains@,
            },
            HostEvent::GameEnd => HostEventView::GameEnd,
        }
    }
}

impl Clone for HostEvent {
    /// The copy is the same message.
    fn clone(&self) -> (copy: Self)
        ensures
            copy@ == self@,
    {
        match self {
            HostEvent::RoomCreated { room_id } => HostEvent::RoomCreated { room_id: *room_id },
            HostEvent::UserJoined { username } => HostEvent::UserJoined {
                username: username.clone(),
            },
            HostEvent::UserLeft { username } => HostEvent::UserLeft { username: username.clone() },
            HostEvent::RoundBegin { question } => HostEvent::RoundBegin {
                question: question.clone(),
            },
            HostEvent::UserAnswered { username } => HostEvent::UserAnswered {
                username: username.clone(),
            },
            HostEvent::RoundEnd { point_gains } => HostEvent::RoundEnd {
                point_gains: point_gains.clone(),
            },
            HostEvent::GameEnd => HostEvent::GameEnd,
        }
    }
}

/// A message from the server to one player. It never carries the index of
/// the correct choice, and of the point gains only the player's own.
#[derive(Clone, Copy, Debug, PartialEq, Eq, Structural)]
pub enum UserEvent {
    RoundBegin { choice_count: usize },
    RoundEnd { point_gain: Option<u32> },
    GameEnd,
}

/// Mathematical value of a [`UserEvent`].
pub enum UserEventView {
    RoundBegin { choice_count: nat },
    RoundEnd { point_gain: Option<nat> },
    GameEnd,
}

impl View for UserEvent {
    type V = UserEventView;

    open spec fn view(&self) -> UserEventView {
        match self {
            UserEvent::RoundBegin { choice_count } => UserEventView::RoundBegin {
                choice_count: *choice_count as nat,
            },
            UserEvent::RoundEnd { point_gain: Some(points) } => UserEventView::RoundEnd {
                point_gain: Some(*points as nat),
            },
            UserEvent::RoundEnd { point_gain: None } => UserEventView::RoundEnd {
                point_gain: None,
            },
            UserEvent::GameEnd => UserEventView::GameEnd,
        }
    }
}

impl UserEvent {
    /// Whether the player's connection is closed behind this event: it is
    /// behind the end of the game.
    pub fn is_last(&self) -> (last: bool)
        ensures
            last == (self@ is GameEnd),
    {
        match self {
            UserEvent::GameEnd => true,
            _ => false,
        }
    }
}

} // verus!
