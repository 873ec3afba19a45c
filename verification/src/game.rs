//! The game of one room as a state machine on mathematical values.
//!
//! A game waits in the lobby until the host begins, then runs one round for
//! each question in turn, and ends after the last one. The host may abort it
//! whenever it is the host's turn. One [`step`] takes the state of a game and
//! one event (an action of the host, an answer of a player, or a deadline
//! that passed) and gives the next state and the commands that the room
//! has to carry out, in order.

use vstd::prelude::*;
use crate::api::{Action, ActionView, HostEvent, HostEventView, QuestionView};
use crate::round::{
    all_answered, gains_of, has_answered, one_answer_each, PlayerAnswer, PlayerAnswerView,
};
use crate::scoring::PointGains;

verus! {

/// A change of a room's state that every player of the room is told of.
#[derive(Debug, PartialEq, Eq)]
pub enum GameEvent {
    /// No round has begun. This is the state of a new room; it is never
    /// announced.
    InLobby,
    RoundBegin { choice_count: usize },
    RoundEnd { point_gains: PointGains },
    GameEnd,
}

/// Mathematical value of a [`GameEvent`].
pub enum GameEventView {
    InLobby,
    RoundBegin { choice_count: nat },
    RoundEnd { point_gains: Seq<(Seq<char>, nat)> },
    GameEnd,
}

impl View for GameEvent {
    type V = GameEventView;

    open spec fn view(&self) -> GameEventView {
        match self {
            GameEvent::InLobby => GameEventView::InLobby,
            GameEvent::RoundBegin { choice_count } => GameEventView::RoundBegin {
                choice_count: *choice_count as nat,
            },
            GameEvent::RoundEnd { point_gains } => GameEventView::RoundEnd {
                point_gains: point_gains@,
            },
            GameEvent::GameEnd => GameEventView::GameEnd,
        }
    }
}

impl Clone for GameEvent {
    /// The copy announces the same change.
    fn clone(&self) -> (copy: Self)
        ensures
            copy@ == self@,
    {
        match self {
            GameEvent::InLobby => GameEvent::InLobby,
            GameEvent::RoundBegin { choice_count } => GameEvent::RoundBegin {
                choice_count: *choice_count,
            },
            GameEvent::RoundEnd { point_gains } => GameEvent::RoundEnd {
                point_gains: point_gains.clone(),
            },
            GameEvent::GameEnd => GameEvent::GameEnd,
        }
    }
}

/// Where a game stands.
#[derive(Clone, Copy, Debug, PartialEq, Eq, Structural)]
pub enum Phase {
    /// Players may join; the host has not begun.
    Lobby,
    /// The round of the question with this index is collecting answers.
    RoundActive(usize),
    /// The round of the question with this index is over; the host decides
    /// whether the game goes on.
    RoundSettling(usize),
    /// Every question was played. Final.
    GameOver,
    /// The host gave the game up. Final.
    Aborted,
}

/// What happened to a room.
#[derive(Debug, PartialEq, Eq)]
pub enum Event {
    /// The host sent an action, or `None`: the host is gone or sent what
    /// could not be read.
    Host(Option<Action>),
    /// A player's answer arrived.
    Answer(PlayerAnswer),
    /// The time budget of the round with this index ran out.
    Deadline { round: usize },
}

/// Mathematical value of an [`Event`].
pub enum EventView {
    Host(Option<ActionView>),
    Answer(PlayerAnswerView),
    Deadline { round: nat },
}

impl View for Event {
    type V = EventView;

    open spec fn view(&self) -> EventView {
        match self {
            Event::Host(Some(action)) => EventView::Host(Some(action@)),
            Event::Host(None) => EventView::Host(None),
            Event::Answer(answer) => EventView::Answer(answer@),
            Event::Deadline { round } => EventView::Deadline { round: *round as nat },
        }
    }
}

impl Clone for Event {
    /// The copy is the same event.
    fn clone(&self) -> (copy: Self)
        ensures
            copy@ == self@,
    {
        match self {
            Event::Host(Some(action)) => Event::Host(Some(action.clone())),
            Event::Host(None) => Event::Host(None),
            Event::Answer(answer) => Event::Answer(answer.clone()),
            Event::Deadline { round } => Event::Deadline { round: *round },
        }
    }
}

/// Something that the room has to do after a step of its game.
#[derive(Debug, PartialEq, Eq)]
pub enum Command {
    /// Send this event to the host.
    NotifyHost(HostEvent),
    /// Announce this change to every player.
    Broadcast(GameEvent),
    /// Hand in [`Event::Deadline`] for this round once so many seconds passed.
    StartDeadline { round: usize, seconds: u64 },
    /// Drop the deadline that is running: its round is over.
    CancelDeadline,
    /// Stop telling the host who joins and leaves.
    StopRelay,
    /// Take the room out of the registry.
    RemoveRoom,
}

/// Mathematical value of a [`Command`].
pub enum CommandView {
    NotifyHost(HostEventView),
    Broadcast(GameEventView),
    StartDeadline { round: nat, seconds: nat },
    CancelDeadline,
    StopRelay,
    RemoveRoom,
}

impl View for Command {
    type V = CommandView;

    open spec fn view(&self) -> CommandView {
        match self {
            Command::NotifyHost(event) => CommandView::NotifyHost(event@),
            Command::Broadcast(event) => CommandView::Broadcast(event@),
            Command::StartDeadline { round, seconds } => CommandView::StartDeadline {
                round: *round as nat,
                seconds: *seconds as nat,
            },
            Command::CancelDeadline => CommandView::CancelDeadline,
            Command::StopRelay => CommandView::StopRelay,
            Command::RemoveRoom => CommandView::RemoveRoom,
        }
    }
}

impl Clone for Command {
    /// The copy is the same command.
    fn clone(&self) -> (copy: Self)
        ensures
            copy@ == self@,
    {
        match self {
            Command::NotifyHost(event) => Command::NotifyHost(event.clone()),
            Command::Broadcast(event) => Command::Broadcast(event.clone()),
            Command::StartDeadline { round, seconds } => Command::StartDeadline {
                round: *round,
                seconds: *seconds,
            },
            Command::CancelDeadline => Command::CancelDeadline,
            Command::StopRelay => Command::StopRelay,
            Command::RemoveRoom => Command::RemoveRoom,
        }
    }
}

/// The views of a sequence of commands, element by element.
pub open spec fn command_views(commands: Seq<Command>) -> Seq<CommandView> {
    Seq::new(commands.len(), |i: int| commands[i]@)
}

/// Mathematical value of a game: its questions, where it stands, the
/// answers kept in the round that is active, and every announcement made to
/// the players so far.
pub struct GameView {
    pub questions: Seq<QuestionView>,
    pub phase: Phase,
    pub answers: Seq<PlayerAnswerView>,
    pub broadcasts: Seq<GameEventView>,
}

/// The announcement that a round of `question` begins.
pub open spec fn begin_of(question: QuestionView) -> GameEventView {
    GameEventView::RoundBegin { choice_count: question.choices.len() }
}

/// The announcement that belongs at place `slot` of a game over
/// `questions`: the rounds in turn, each a begin and an end, and behind the
/// last round the end of the game.
pub open spec fn fits_slot(questions: Seq<QuestionView>, slot: int, event: GameEventView) -> bool {
    if slot == 2 * questions.len() {
        event == GameEventView::GameEnd
    } else if slot % 2 == 0 {
        event == begin_of(questions[slot / 2])
    } else {
        event is RoundEnd
    }
}

/// Number of announcements that a game over `count` questions has made when
/// it stands at `phase`. An aborted game has made those of some whole
/// rounds.
pub open spec fn fits_length(count: nat, phase: Phase, length: nat) -> bool {
    match phase {
        Phase::Lobby => length == 0,
        Phase::RoundActive(round) => length == 2 * round + 1,
        Phase::RoundSettling(round) => length == 2 * round + 2,
        Phase::GameOver => length == 2 * count + 1,
        Phase::Aborted => length % 2 == 0 && length <= 2 * count,
    }
}

impl GameView {
    /// A game waiting in the lobby.
    pub open spec fn opening(questions: Seq<QuestionView>) -> GameView {
        GameView {
            questions,
            phase: Phase::Lobby,
            answers: Seq::empty(),
            broadcasts: Seq::empty(),
        }
    }

    /// The questions can be counted in a `usize`, the round that the phase
    /// names is one of the game, answers are kept only while a round is
    /// active and at most one for each player, and the announcements made
    /// are, in order, the ones that belong there.
    pub open spec fn valid(self) -> bool {
        &&& self.questions.len() <= usize::MAX
        &&& match self.phase {
            Phase::RoundActive(round) => round < self.questions.len(),
            Phase::RoundSettling(round) => round < self.questions.len(),
            _ => true,
        }
        &&& one_answer_each(self.answers)
        &&& !(self.phase is RoundActive) ==> self.answers == Seq::<PlayerAnswerView>::empty()
        &&& fits_length(self.questions.len(), self.phase, self.broadcasts.len())
        &&& forall|slot: int|
            0 <= slot < self.broadcasts.len() ==> fits_slot(
                self.questions,
                slot,
                #[trigger] self.broadcasts[slot],
            )
    }

    /// The game is over or given up: no event changes it any more.
    pub open spec fn finished(self) -> bool {
        self.phase is GameOver || self.phase is Aborted
    }

    /// The round with index `round` begins: the host gets the whole
    /// question, the players the number of its choices, and the deadline
    /// starts with the time budget of the question.
    pub open spec fn begin(self, round: usize) -> (GameView, Seq<CommandView>) {
        let question = self.questions[round as int];
        (
            GameView {
                phase: Phase::RoundActive(round),
                answers: Seq::empty(),
                broadcasts: self.broadcasts.push(begin_of(question)),
                ..self
            },
            seq![
                CommandView::NotifyHost(HostEventView::RoundBegin { question }),
                CommandView::Broadcast(begin_of(question)),
                CommandView::StartDeadline { round: round as nat, seconds: question.time },
            ],
        )
    }

    /// The game ends behind its last round: the host is told, the relay of
    /// joins and leaves stops, the room leaves the registry and the players
    /// are told. The players come last: once they know they leave, and the
    /// host is not to hear of those leaves, nor anyone to find the room.
    pub open spec fn finish(self) -> (GameView, Seq<CommandView>) {
        (
            GameView {
                phase: Phase::GameOver,
                answers: Seq::empty(),
                broadcasts: self.broadcasts.push(GameEventView::GameEnd),
                ..self
            },
            seq![
                CommandView::NotifyHost(HostEventView::GameEnd),
                CommandView::StopRelay,
                CommandView::RemoveRoom,
                CommandView::Broadcast(GameEventView::GameEnd),
            ],
        )
    }

    /// The host begins the round with index `round`, or, where the game has
    /// no such round, ends the game.
    pub open spec fn advance(self, round: nat) -> (GameView, Seq<CommandView>) {
        if round < self.questions.len() {
            self.begin(round as usize)
        } else {
            self.finish()
        }
    }

    /// The game is given up: the room leaves the registry and nothing is
    /// announced.
    pub open spec fn abort(self) -> (GameView, Seq<CommandView>) {
        (
            GameView { phase: Phase::Aborted, answers: Seq::empty(), ..self },
            seq![CommandView::StopRelay, CommandView::RemoveRoom],
        )
    }

    /// The point gains of the active round with index `round`, by the
    /// answers kept so far.
    pub open spec fn gains(self, round: usize) -> Seq<(Seq<char>, nat)> {
        gains_of(self.answers, self.questions[round as int].answer)
    }

    /// The active round with index `round` ends by its deadline: host and
    /// players get the point gains.
    pub open spec fn expire(self, round: usize) -> (GameView, Seq<CommandView>) {
        let point_gains = self.gains(round);
        (
            GameView {
                phase: Phase::RoundSettling(round),
                answers: Seq::empty(),
                broadcasts: self.broadcasts.push(GameEventView::RoundEnd { point_gains }),
                ..self
            },
            seq![
                CommandView::NotifyHost(HostEventView::RoundEnd { point_gains }),
                CommandView::Broadcast(GameEventView::RoundEnd { point_gains }),
            ],
        )
    }

    /// An answer arrives in the active round with index `round`. A second
    /// answer of a player changes nothing. A first answer is kept and the
    /// host is told who answered; where every player in `present` has then
    /// answered, the deadline is dropped and the round ends.
    pub open spec fn collect(
        self,
        round: usize,
        answer: PlayerAnswerView,
        present: Set<Seq<char>>,
    ) -> (GameView, Seq<CommandView>) {
        let told = CommandView::NotifyHost(
            HostEventView::UserAnswered { username: answer.username },
        );
        let kept = GameView { answers: self.answers.push(answer), ..self };
        if has_answered(self.answers, answer.username) {
            (self, Seq::empty())
        } else if all_answered(kept.answers, present) {
            let point_gains = kept.gains(round);
            (
                GameView {
                    phase: Phase::RoundSettling(round),
                    answers: Seq::empty(),
                    broadcasts: self.broadcasts.push(GameEventView::RoundEnd { point_gains }),
                    ..self
                },
                seq![
                    told,
                    CommandView::CancelDeadline,
                    CommandView::NotifyHost(HostEventView::RoundEnd { point_gains }),
                    CommandView::Broadcast(GameEventView::RoundEnd { point_gains }),
                ],
            )
        } else {
            (kept, seq![told])
        }
    }
}

/// One step of a game: the state after `event` and the commands that the
/// room has to carry out, in order. `present` holds the names of the players
/// that are in the room when the event is handled.
///
/// In the lobby and between rounds the host's "begin round" moves the game
/// on (from the lobby only if somebody is present) and anything else from
/// the host gives it up. While a round is active only answers and the
/// deadline of that round count. Where the game is over or given up, and
/// for every event that is not due, nothing changes and nothing is to be
/// done.
pub open spec fn step(state: GameView, event: EventView, present: Set<Seq<char>>) -> (
    GameView,
    Seq<CommandView>,
) {
    match state.phase {
        Phase::Lobby => match event {
            EventView::Host(Some(ActionView::BeginRound)) => if present.len() > 0 {
                state.advance(0)
            } else {
                state.abort()
            },
            EventView::Host(_) => state.abort(),
            _ => (state, Seq::empty()),
        },
        Phase::RoundSettling(round) => match event {
            EventView::Host(Some(ActionView::BeginRound)) => state.advance((round + 1) as nat),
            EventView::Host(_) => state.abort(),
            _ => (state, Seq::empty()),
        },
        Phase::RoundActive(round) => match event {
            EventView::Answer(answer) => state.collect(round, answer, present),
            EventView::Deadline { round: due } => if due == round {
                state.expire(round)
            } else {
                (state, Seq::empty())
            },
            _ => (state, Seq::empty()),
        },
        _ => (state, Seq::empty()),
    }
}

} // verus!
