//! What holds of every game.
//!
//! The proofs here are about [`step`] alone. They show that a game cannot
//! leave the order of its rounds, that a round ends exactly when it is due,
//! that no answer is lost while its round is active, and that a room leaves
//! the registry together with its game.

use vstd::prelude::*;
use crate::api::QuestionView;
use crate::game::{
    begin_of, fits_slot, step, CommandView, EventView, GameEventView, GameView, Phase,
};
use crate::round::{
    all_answered, gains_of, has_answered, lemma_one_answer_each_push, one_answer_each,
    PlayerAnswerView,
};

verus! {

/// The announcements among `commands`, in order.
pub open spec fn announcements(commands: Seq<CommandView>) -> Seq<GameEventView>
    decreases commands.len(),
{
    if commands.len() == 0 {
        Seq::empty()
    } else {
        let earlier = announcements(commands.drop_last());
        match commands.last() {
            CommandView::Broadcast(event) => earlier.push(event),
            _ => earlier,
        }
    }
}

/// Whether `commands` announce the end of a round.
pub open spec fn ends_round(commands: Seq<CommandView>) -> bool {
    exists|k: int|
        0 <= k < commands.len() && (#[trigger] commands[k] matches CommandView::Broadcast(event)
            && event is RoundEnd)
}

/// Whether `commands` start the deadline of round `round` with `seconds`.
pub open spec fn starts_deadline(commands: Seq<CommandView>, round: nat, seconds: nat) -> bool {
    exists|k: int|
        0 <= k < commands.len() && #[trigger] commands[k] == (CommandView::StartDeadline {
            round,
            seconds,
        })
}

proof fn lemma_announcements_push(commands: Seq<CommandView>, command: CommandView)
    ensures
        announcements(commands.push(command)) == match command {
            CommandView::Broadcast(event) => announcements(commands).push(event),
            _ => announcements(commands),
        },
{
    assert(commands.push(command).drop_last() =~= commands);
}

/// A step keeps a valid game valid.
pub proof fn lemma_step_keeps_valid(state: GameView, event: EventView, present: Set<Seq<char>>)
    requires
        state.valid(),
    ensures
        step(state, event, present).0.valid(),
        step(state, event, present).0.questions == state.questions,
{
    let next = step(state, event, present).0;
    if let EventView::Answer(answer) = event {
        if !has_answered(state.answers, answer.username) {
            lemma_one_answer_each_push(state.answers, answer);
        }
    }
    assert forall|slot: int| 0 <= slot < next.broadcasts.len() implies fits_slot(
        next.questions,
        slot,
        #[trigger] next.broadcasts[slot],
    ) by {
        if slot < state.broadcasts.len() {
            assert(next.broadcasts[slot] == state.broadcasts[slot]);
        }
    }
}

/// The announcements on record grow in a step by exactly those that the
/// step commands, in their order.
pub proof fn lemma_step_records_announcements(
    state: GameView,
    event: EventView,
    present: Set<Seq<char>>,
)
    ensures
        step(state, event, present).0.broadcasts == state.broadcasts + announcements(
            step(state, event, present).1,
        ),
{
    let next = step(state, event, present).0;
    let commands = step(state, event, present).1;
    let none = Seq::<CommandView>::empty();
    assert(announcements(none) =~= Seq::<GameEventView>::empty());
    if commands.len() == 0 {
    } else if commands.len() == 1 {
        assert(commands =~= none.push(commands[0]));
        lemma_announcements_push(none, commands[0]);
    } else if commands.len() == 2 {
        assert(commands =~= none.push(commands[0]).push(commands[1]));
        lemma_announcements_push(none, commands[0]);
        lemma_announcements_push(none.push(commands[0]), commands[1]);
    } else if commands.len() == 3 {
        assert(commands =~= none.push(commands[0]).push(commands[1]).push(commands[2]));
        lemma_announcements_push(none, commands[0]);
        lemma_announcements_push(none.push(commands[0]), commands[1]);
        lemma_announcements_push(none.push(commands[0]).push(commands[1]), commands[2]);
    } else {
        assert(commands =~= none.push(commands[0]).push(commands[1]).push(commands[2]).push(
            commands[3],
        ));
        lemma_announcements_push(none, commands[0]);
        lemma_announcements_push(none.push(commands[0]), commands[1]);
        lemma_announcements_push(none.push(commands[0]).push(commands[1]), commands[2]);
        lemma_announcements_push(
            none.push(commands[0]).push(commands[1]).push(commands[2]),
            commands[3],
        );
    }
    assert(next.broadcasts =~= state.broadcasts + announcements(commands));
}

/// The players of a valid game have been told, in order: for each round
/// that began, its begin with the number of choices of its question; behind
/// the begin of each round that ended, its end; and behind the end of the
/// last round, once the game is over, the end of the game. Nothing else
/// was announced, and no round twice.
pub proof fn lemma_announcements_in_order(state: GameView)
    requires
        state.valid(),
    ensures
        state.broadcasts.len() <= 2 * state.questions.len() + 1,
        state.broadcasts.len() == 2 * state.questions.len() + 1 <==> state.phase is GameOver,
        forall|round: int|
            0 <= round && 2 * round < state.broadcasts.len() && round < state.questions.len() ==> (
            #[trigger] state.broadcasts[2 * round]) == begin_of(state.questions[round]),
        forall|round: int|
            0 <= round && 2 * round + 1 < state.broadcasts.len() ==> (
            #[trigger] state.broadcasts[2 * round + 1]) is RoundEnd,
        forall|slot: int|
            0 <= slot < state.broadcasts.len() && #[trigger] state.broadcasts[slot]
                == GameEventView::GameEnd ==> slot == 2 * state.questions.len(),
{
    let told = state.broadcasts;
    let count = state.questions.len();
    assert forall|round: int| 0 <= round && 2 * round < told.len() && round < count implies (
    #[trigger] told[2 * round]) == begin_of(state.questions[round]) by {
        assert(fits_slot(state.questions, 2 * round, told[2 * round]));
    }
    assert forall|round: int| 0 <= round && 2 * round + 1 < told.len() implies (
    #[trigger] told[2 * round + 1]) is RoundEnd by {
        assert(fits_slot(state.questions, 2 * round + 1, told[2 * round + 1]));
    }
    assert forall|slot: int|
        0 <= slot < told.len() && #[trigger] told[slot] == GameEventView::GameEnd implies slot
        == 2 * count by {
        assert(fits_slot(state.questions, slot, told[slot]));
    }
}

/// Whether `event` ends the round that is active in `state`: it is the
/// deadline of that round, or a player's first answer in it with which
/// every player in `present` has answered.
pub open spec fn round_is_due(state: GameView, event: EventView, present: Set<Seq<char>>) -> bool {
    state.phase matches Phase::RoundActive(round) && match event {
        EventView::Deadline { round: due } => due == round,
        EventView::Answer(answer) => !has_answered(state.answers, answer.username)
            && all_answered(state.answers.push(answer), present),
        EventView::Host(_) => false,
    }
}

/// A step announces the end of a round in two cases and no other: the
/// deadline of the active round passed; or a first answer arrived in the
/// active round and with it every player present has answered. The round
/// that a step begins gets the time budget of its question as deadline.
pub proof fn lemma_round_end_is_due(state: GameView, event: EventView, present: Set<Seq<char>>)
    requires
        state.valid(),
    ensures
        ends_round(step(state, event, present).1) <==> round_is_due(state, event, present),
        forall|round: usize|
            step(state, event, present).0.phase == Phase::RoundActive(round) && state.phase
                != Phase::RoundActive(round) ==> starts_deadline(
                step(state, event, present).1,
                round as nat,
                state.questions[round as int].time,
            ),
{
    let next = step(state, event, present).0;
    let commands = step(state, event, present).1;
    if round_is_due(state, event, present) {
        assert(commands.last() is Broadcast);
    }
    assert forall|round: usize|
        next.phase == Phase::RoundActive(round) && state.phase != Phase::RoundActive(
            round,
        ) implies starts_deadline(commands, round as nat, state.questions[round as int].time) by {
        assert(commands[2] == (CommandView::StartDeadline {
            round: round as nat,
            seconds: state.questions[round as int].time,
        }));
    }
}

/// The answers that count when `event` reaches a round that has kept
/// `answers`: those, and behind them the answer that the event brings.
pub open spec fn answers_with(answers: Seq<PlayerAnswerView>, event: EventView) -> Seq<
    PlayerAnswerView,
> {
    match event {
        EventView::Answer(answer) => answers.push(answer),
        _ => answers,
    }
}

/// While a round stays active no answer that was kept is lost, and the
/// point gains that a step announces are those of all answers kept up to
/// and with that step, each player's first.
pub proof fn lemma_round_keeps_answers(state: GameView, event: EventView, present: Set<Seq<char>>)
    requires
        state.valid(),
        state.phase is RoundActive,
    ensures
        step(state, event, present).0.phase is RoundActive ==> state.answers.is_prefix_of(
            step(state, event, present).0.answers,
        ),
        ends_round(step(state, event, present).1) ==> {
            &&& one_answer_each(answers_with(state.answers, event))
            &&& step(state, event, present).1.last() == CommandView::Broadcast(
                GameEventView::RoundEnd {
                    point_gains: gains_of(
                        answers_with(state.answers, event),
                        state.questions[state.phase->RoundActive_0 as int].answer,
                    ),
                },
            )
        },
{
    lemma_step_keeps_valid(state, event, present);
    lemma_round_end_is_due(state, event, present);
    if let EventView::Answer(answer) = event {
        if !has_answered(state.answers, answer.username) {
            lemma_one_answer_each_push(state.answers, answer);
        }
    }
}

/// A game in the lobby is valid.
pub proof fn lemma_opening_is_valid(questions: Seq<QuestionView>)
    requires
        questions.len() <= usize::MAX,
    ensures
        GameView::opening(questions).valid(),
{
}

/// One event together with the names that are present when it is handled.
pub struct Input {
    pub event: EventView,
    pub present: Set<Seq<char>>,
}

/// The state of a game after `inputs` were handled one after the other,
/// starting at `start`.
pub open spec fn run(start: GameView, inputs: Seq<Input>) -> GameView
    decreases inputs.len(),
{
    if inputs.len() == 0 {
        start
    } else {
        step(run(start, inputs.drop_last()), inputs.last().event, inputs.last().present).0
    }
}

/// All commands that a game gives while `inputs` are handled one after the
/// other, starting at `start`.
pub open spec fn commands_of(start: GameView, inputs: Seq<Input>) -> Seq<CommandView>
    decreases inputs.len(),
{
    if inputs.len() == 0 {
        Seq::empty()
    } else {
        commands_of(start, inputs.drop_last()) + step(
            run(start, inputs.drop_last()),
            inputs.last().event,
            inputs.last().present,
        ).1
    }
}

proof fn lemma_announcements_add(earlier: Seq<CommandView>, later: Seq<CommandView>)
    ensures
        announcements(earlier + later) == announcements(earlier) + announcements(later),
    decreases later.len(),
{
    if later.len() == 0 {
        assert(earlier + later =~= earlier);
        assert(announcements(earlier) + announcements(later) =~= announcements(earlier));
    } else {
        assert((earlier + later).drop_last() =~= earlier + later.drop_last());
        lemma_announcements_add(earlier, later.drop_last());
        assert((earlier + later).last() == later.last());
        match later.last() {
            CommandView::Broadcast(event) => {
                assert((announcements(earlier) + announcements(later.drop_last())).push(event)
                    =~= announcements(earlier) + announcements(later.drop_last()).push(event));
            },
            _ => {},
        }
    }
}

/// Whatever happens to a game from the lobby on, in whatever order: its
/// state is valid, and the announcements on its record are exactly those it
/// commanded. So the players are told of each question's round once, in the
/// order of the questions, begin before end, and behind the last round,
/// once, of the end of the game.
pub proof fn lemma_every_game_is_in_order(questions: Seq<QuestionView>, inputs: Seq<Input>)
    requires
        questions.len() <= usize::MAX,
    ensures
        run(GameView::opening(questions), inputs).valid(),
        run(GameView::opening(questions), inputs).questions == questions,
        run(GameView::opening(questions), inputs).broadcasts == announcements(
            commands_of(GameView::opening(questions), inputs),
        ),
    decreases inputs.len(),
{
    let start = GameView::opening(questions);
    if inputs.len() == 0 {
        assert(announcements(Seq::<CommandView>::empty()) =~= Seq::<GameEventView>::empty());
    } else {
        let before = run(start, inputs.drop_last());
        let last = inputs.last();
        lemma_every_game_is_in_order(questions, inputs.drop_last());
        lemma_step_keeps_valid(before, last.event, last.present);
        lemma_step_records_announcements(before, last.event, last.present);
        lemma_announcements_add(
            commands_of(start, inputs.drop_last()),
            step(before, last.event, last.present).1,
        );
    }
}

/// Whether `commands` take the room out of the registry.
pub open spec fn removes_room(commands: Seq<CommandView>) -> bool {
    exists|k: int| 0 <= k < commands.len() && #[trigger] commands[k] == CommandView::RemoveRoom
}

/// Whether `commands` stop the relay of joins and leaves to the host.
pub open spec fn stops_relay(commands: Seq<CommandView>) -> bool {
    exists|k: int| 0 <= k < commands.len() && #[trigger] commands[k] == CommandView::StopRelay
}

/// The room leaves the registry, and the relay to the host stops, in the
/// step that brings its game to an end, and in no other: no room stays
/// registered behind the end of its game.
pub proof fn lemma_room_leaves_with_game(
    state: GameView,
    event: EventView,
    present: Set<Seq<char>>,
)
    ensures
        removes_room(step(state, event, present).1) <==> !state.finished() && step(
            state,
            event,
            present,
        ).0.finished(),
        stops_relay(step(state, event, present).1) <==> removes_room(
            step(state, event, present).1,
        ),
{
    let next = step(state, event, present).0;
    let commands = step(state, event, present).1;
    if !state.finished() && next.finished() {
        if next.phase is GameOver {
            assert(commands[1] == CommandView::StopRelay);
            assert(commands[2] == CommandView::RemoveRoom);
        } else {
            assert(commands[0] == CommandView::StopRelay);
            assert(commands[1] == CommandView::RemoveRoom);
        }
    }
}

/// A game that is over or given up stays as it is and commands nothing.
pub proof fn lemma_finished_is_final(state: GameView, event: EventView, present: Set<Seq<char>>)
    requires
        state.finished(),
    ensures
        step(state, event, present) == (state, Seq::<CommandView>::empty()),
{
}

} // verus!
