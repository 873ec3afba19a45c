//! The game of one room, as the room's handler runs it.
//!
//! An [`Orchestrator`] holds the questions, the phase and the answers of the
//! round that is active. Its value is a [`GameView`], and
//! [`Orchestrator::step`] does to it what [`step`] says.

use vstd::prelude::*;
use crate::api::{question_views, Action, HostEvent, Question};
use crate::game::{
    command_views, step, Command, CommandView, Event, GameEvent, GameEventView, GameView, Phase,
};
use crate::presence::Users;
use crate::round::{AnswerCollector, PlayerAnswer, Submission};

verus! {

/// The game of one room.
pub struct Orchestrator {
    questions: Vec<Question>,
    phase: Phase,
    collector: AnswerCollector,
    broadcasts: Ghost<Seq<GameEventView>>,
}

impl View for Orchestrator {
    type V = GameView;

    closed spec fn view(&self) -> GameView {
        GameView {
            questions: question_views(self.questions@),
            phase: self.phase,
            answers: if self.phase is RoundActive {
                self.collector.answers()
            } else {
                Seq::empty()
            },
            broadcasts: self.broadcasts@,
        }
    }
}

impl Orchestrator {
    /// The game is valid, and while a round is active its collector marks
    /// the answers by the question of that round.
    pub closed spec fn wf(&self) -> bool {
        &&& self.collector.wf()
        &&& self@.valid()
        &&& self.phase matches Phase::RoundActive(round) ==> self.collector.correct_choice()
            == self@.questions[round as int].answer
    }

    /// The value of a well-formed game is valid.
    pub proof fn lemma_wf_is_valid(self)
        requires
            self.wf(),
        ensures
            self@.valid(),
    {
    }

    /// A game over `questions`, waiting in the lobby.
    pub fn new(questions: Vec<Question>) -> (game: Self)
        ensures
            game.wf(),
            game@ == GameView::opening(question_views(questions@)),
    {
        assert(question_views(questions@).len() == questions.len());
        Orchestrator {
            questions,
            phase: Phase::Lobby,
            collector: AnswerCollector::new(0),
            broadcasts: Ghost(Seq::empty()),
        }
    }

    /// Where the game stands.
    pub fn phase(&self) -> (phase: Phase)
        ensures
            phase == self@.phase,
    {
        self.phase
    }

    /// Number of questions of the game.
    pub fn question_count(&self) -> (count: usize)
        ensures
            count == self@.questions.len(),
    {
        self.questions.len()
    }

    /// Whether it is the host's turn: the game is in the lobby or between
    /// two rounds. Only then is an action of the host due.
    pub fn awaits_host(&self) -> (waiting: bool)
        ensures
            waiting == (self@.phase is Lobby || self@.phase is RoundSettling),
    {
        match self.phase {
            Phase::Lobby => true,
            Phase::RoundSettling(_) => true,
            _ => false,
        }
    }

    /// Whether the game is over or given up.
    pub fn is_finished(&self) -> (finished: bool)
        ensures
            finished == self@.finished(),
    {
        match self.phase {
            Phase::GameOver => true,
            Phase::Aborted => true,
            _ => false,
        }
    }

    /// Begins the round with index `round` with a collector of its own.
    fn begin(&mut self, round: usize) -> (commands: Vec<Command>)
        requires
            old(self).wf(),
            !(old(self)@.phase is RoundActive),
            round < old(self)@.questions.len(),
            old(self)@.broadcasts.len() == 2 * round,
        ensures
            final(self).wf(),
            (final(self)@, command_views(commands@)) == old(self)@.begin(round),
    {
        let ghost before = self@;
        let question = self.questions[round].clone();
        let choice_count = question.choices.len();
        let seconds = question.time;
        self.collector = AnswerCollector::new(question.answer);
        self.phase = Phase::RoundActive(round);
        self.broadcasts = Ghost(
            before.broadcasts.push(GameEventView::RoundBegin { choice_count: choice_count as nat }),
        );
        let mut commands: Vec<Command> = Vec::new();
        commands.push(Command::NotifyHost(HostEvent::RoundBegin { question }));
        commands.push(Command::Broadcast(GameEvent::RoundBegin { choice_count }));
        commands.push(Command::StartDeadline { round, seconds });
        proof {
            assert(before.questions[round as int] == self.questions[round as int]@);
            assert(command_views(commands@) =~= before.begin(round).1);
            assert(self@ == before.begin(round).0);
        }
        commands
    }

    /// Ends the game behind its last round.
    fn finish(&mut self) -> (commands: Vec<Command>)
        requires
            old(self).wf(),
            !(old(self)@.phase is RoundActive),
            old(self)@.broadcasts.len() == 2 * old(self)@.questions.len(),
        ensures
            final(self).wf(),
            (final(self)@, command_views(commands@)) == old(self)@.finish(),
    {
        let ghost before = self@;
        self.phase = Phase::GameOver;
        self.broadcasts = Ghost(before.broadcasts.push(GameEventView::GameEnd));
        let mut commands: Vec<Command> = Vec::new();
        commands.push(Command::NotifyHost(HostEvent::GameEnd));
        commands.push(Command::StopRelay);
        commands.push(Command::RemoveRoom);
        commands.push(Command::Broadcast(GameEvent::GameEnd));
        proof {
            assert(command_views(commands@) =~= before.finish().1);
            assert(self@ == before.finish().0);
        }
        commands
    }

    /// Begins the round with index `round`, or ends the game where it has
    /// no such round.
    fn advance(&mut self, round: usize) -> (commands: Vec<Command>)
        requires
            old(self).wf(),
            !(old(self)@.phase is RoundActive),
            round <= old(self)@.questions.len(),
            old(self)@.broadcasts.len() == 2 * round,
        ensures
            final(self).wf(),
            (final(self)@, command_views(commands@)) == old(self)@.advance(round as nat),
    {
        if round < self.questions.len() {
            self.begin(round)
        } else {
            self.finish()
        }
    }

    /// Gives the game up.
    fn abort(&mut self) -> (commands: Vec<Command>)
        requires
            old(self).wf(),
            old(self)@.phase is Lobby || old(self)@.phase is RoundSettling,
        ensures
            final(self).wf(),
            (final(self)@, command_views(commands@)) == old(self)@.abort(),
    {
        let ghost before = self@;
        self.phase = Phase::Aborted;
        let mut commands: Vec<Command> = Vec::new();
        commands.push(Command::StopRelay);
        commands.push(Command::RemoveRoom);
        proof {
            assert(command_views(commands@) =~= before.abort().1);
            assert(self@ == before.abort().0);
        }
        commands
    }

    /// Ends the active round by its deadline.
    fn expire(&mut self, round: usize) -> (commands: Vec<Command>)
        requires
            old(self).wf(),
            old(self)@.phase == Phase::RoundActive(round),
        ensures
            final(self).wf(),
            (final(self)@, command_views(commands@)) == old(self)@.expire(round),
    {
        let ghost before = self@;
        let mut commands: Vec<Command> = Vec::new();
        self.settle(round, &mut commands);
        proof {
            assert(command_views(commands@) =~= before.expire(round).1);
        }
        commands
    }

    /// Ends the active round: appends the two commands that carry its point
    /// gains and moves the game between the rounds.
    fn settle(&mut self, round: usize, commands: &mut Vec<Command>)
        requires
            old(self).wf(),
            old(self)@.phase == Phase::RoundActive(round),
        ensures
            final(self).wf(),
            final(self)@ == old(self)@.expire(round).0,
            final(commands)@.len() == old(commands)@.len() + 2,
            forall|i: int|
                0 <= i < old(commands)@.len() ==> final(commands)@[i] == old(commands)@[i],
            final(commands)@[old(commands)@.len() as int]@ == old(self)@.expire(round).1[0],
            final(commands)@[old(commands)@.len() as int + 1]@ == old(self)@.expire(round).1[1],
    {
        let ghost before = self@;
        let for_host = self.collector.point_gains().clone();
        let for_players = self.collector.point_gains().clone();
        self.phase = Phase::RoundSettling(round);
        self.broadcasts = Ghost(
            before.broadcasts.push(GameEventView::RoundEnd { point_gains: for_players@ }),
        );
        commands.push(Command::NotifyHost(HostEvent::RoundEnd { point_gains: for_host }));
        commands.push(Command::Broadcast(GameEvent::RoundEnd { point_gains: for_players }));
        proof {
            assert(self@ == before.expire(round).0);
        }
    }

    /// Takes an answer in the active round, and ends the round where
    /// every player of `users` has answered.
    fn collect(&mut self, round: usize, answer: PlayerAnswer, users: &Users) -> (commands: Vec<
        Command,
    >)
        requires
            old(self).wf(),
            users.wf(),
            old(self)@.phase == Phase::RoundActive(round),
        ensures
            final(self).wf(),
            (final(self)@, command_views(commands@)) == old(self)@.collect(
                round,
                answer@,
                users.present(),
            ),
    {
        let ghost before = self@;
        let ghost expected = before.collect(round, answer@, users.present());
        let username = answer.username.clone();
        let mut commands: Vec<Command> = Vec::new();
        match self.collector.submit(answer, users) {
            Submission::Discarded => {
                proof {
                    assert(command_views(commands@) =~= Seq::<CommandView>::empty());
                    assert(self@ == before);
                }
            },
            Submission::Recorded { complete } => {
                commands.push(Command::NotifyHost(HostEvent::UserAnswered { username }));
                let ghost kept = self@;
                if complete {
                    commands.push(Command::CancelDeadline);
                    self.settle(round, &mut commands);
                    proof {
                        assert(kept.expire(round).0 == expected.0);
                        assert(command_views(commands@) =~= expected.1);
                    }
                } else {
                    proof {
                        assert(command_views(commands@) =~= expected.1);
                        assert(self@ == expected.0);
                    }
                }
            },
        }
        commands
    }

    /// Handles one event and returns the commands that the room has to
    /// carry out, in order. `users` is the presence tracker of the room as
    /// it stands when the event is handled.
    pub fn step(&mut self, event: Event, users: &Users) -> (commands: Vec<Command>)
        requires
            old(self).wf(),
            users.wf(),
        ensures
            final(self).wf(),
            (final(self)@, command_views(commands@)) == step(
                old(self)@,
                event@,
                users.present(),
            ),
    {
        match self.phase {
            Phase::Lobby => match event {
                Event::Host(Some(Action::BeginRound)) => {
                    if users.player_count() > 0 {
                        self.advance(0)
                    } else {
                        self.abort()
                    }
                },
                Event::Host(_) => self.abort(),
                _ => Self::nothing(),
            },
            Phase::RoundSettling(round) => match event {
                Event::Host(Some(Action::BeginRound)) => {
                    let count = self.questions.len();
                    assert(round < count) by {
                        assert(self@.questions.len() == self.questions@.len());
                    }
                    self.advance(round + 1)
                },
                Event::Host(_) => self.abort(),
                _ => Self::nothing(),
            },
            Phase::RoundActive(round) => match event {
                Event::Answer(answer) => self.collect(round, answer, users),
                Event::Deadline { round: due } => {
                    if due == round {
                        self.expire(round)
                    } else {
                        Self::nothing()
                    }
                },
                _ => Self::nothing(),
            },
            _ => Self::nothing(),
        }
    }

    /// No command at all.
    fn nothing() -> (commands: Vec<Command>)
        ensures
            command_views(commands@) == Seq::<CommandView>::empty(),
    {
        let commands: Vec<Command> = Vec::new();
        assert(command_views(commands@) =~= Seq::<CommandView>::empty());
        commands
    }
}

} // verus!
