//! Answer collection of one round.
//!
//! An [`AnswerCollector`] takes the answers of a round in the order in
//! which they arrive. It keeps the first answer of each player and discards
//! the later ones. A correct answer earns points by its rank among the
//! correct answers; an incorrect one earns nothing. The collector tells
//! when every player that is present has answered.

use vstd::prelude::*;
use crate::presence::Users;
use crate::api::texts;
use crate::scoring::{
    distinct_names, gain_of, lemma_gain_of_index, lemma_gain_of_push, lemma_gain_of_some,
    lemma_points_bounds, lemma_points_non_increasing, next_points, points_at, PointGains,
    FIRST_POINTS,
};

verus! {

/// One player's pick of a choice.
#[derive(Debug, PartialEq, Eq)]
pub struct PlayerAnswer {
    pub username: String,
    pub choice: usize,
}

/// Mathematical value of a [`PlayerAnswer`].
pub struct PlayerAnswerView {
    pub username: Seq<char>,
    pub choice: nat,
}

impl View for PlayerAnswer {
    type V = PlayerAnswerView;

    open spec fn view(&self) -> PlayerAnswerView {
        PlayerAnswerView { username: self.username@, choice: self.choice as nat }
    }
}

impl Clone for PlayerAnswer {
    /// The copy is the same answer of the same player.
    fn clone(&self) -> (copy: Self)
        ensures
            copy@ == self@,
    {
        PlayerAnswer { username: self.username.clone(), choice: self.choice }
    }
}

/// The views of a sequence of answers, element by element.
pub open spec fn answer_views(answers: Seq<PlayerAnswer>) -> Seq<PlayerAnswerView> {
    Seq::new(answers.len(), |i: int| answers[i]@)
}

/// Whether one of `answers` is by `username`.
pub open spec fn has_answered(answers: Seq<PlayerAnswerView>, username: Seq<char>) -> bool {
    exists|i: int| 0 <= i < answers.len() && (#[trigger] answers[i]).username == username
}

/// No player has two answers among `answers`.
pub open spec fn one_answer_each(answers: Seq<PlayerAnswerView>) -> bool {
    forall|i: int, j: int|
        0 <= i < j < answers.len() ==> (#[trigger] answers[i]).username != (
        #[trigger] answers[j]).username
}

/// Whether every name of `present` has an answer among `answers`.
pub open spec fn all_answered(answers: Seq<PlayerAnswerView>, present: Set<Seq<char>>) -> bool {
    forall|username: Seq<char>| present.contains(username) ==> has_answered(answers, username)
}

/// The point gains that `answers`, taken in this order, earn on a question
/// whose correct choice is `correct`: each correct answer earns the value of
/// its rank among the correct answers, an incorrect answer earns nothing.
pub open spec fn gains_of(answers: Seq<PlayerAnswerView>, correct: nat) -> Seq<(Seq<char>, nat)>
    decreases answers.len(),
{
    if answers.len() == 0 {
        Seq::empty()
    } else {
        let earlier = gains_of(answers.drop_last(), correct);
        if answers.last().choice == correct {
            earlier.push((answers.last().username, points_at(earlier.len())))
        } else {
            earlier
        }
    }
}

/// Number of correct answers among `answers`.
pub open spec fn correct_count(answers: Seq<PlayerAnswerView>, correct: nat) -> nat {
    gains_of(answers, correct).len()
}

/// Leaving out the last answer keeps one answer each.
pub proof fn lemma_one_answer_each_earlier(answers: Seq<PlayerAnswerView>)
    requires
        one_answer_each(answers),
        answers.len() > 0,
    ensures
        one_answer_each(answers.drop_last()),
        !has_answered(answers.drop_last(), answers.last().username),
{
    let earlier = answers.drop_last();
    assert forall|i: int, j: int| 0 <= i < j < earlier.len() implies (
    #[trigger] earlier[i]).username != (#[trigger] earlier[j]).username by {
        assert(earlier[i] == answers[i]);
        assert(earlier[j] == answers[j]);
    }
    assert forall|i: int| 0 <= i < earlier.len() implies (#[trigger] earlier[i]).username
        != answers.last().username by {
        assert(earlier[i] == answers[i]);
        assert(answers[i].username != answers[answers.len() - 1].username);
    }
}

/// The first answer of a player can be put behind the others.
pub proof fn lemma_one_answer_each_push(answers: Seq<PlayerAnswerView>, answer: PlayerAnswerView)
    requires
        one_answer_each(answers),
        !has_answered(answers, answer.username),
    ensures
        one_answer_each(answers.push(answer)),
{
    let kept = answers.push(answer);
    assert forall|i: int, j: int| 0 <= i < j < kept.len() implies (#[trigger] kept[i]).username
        != (#[trigger] kept[j]).username by {
        assert(kept[i] == answers[i]);
        if j < answers.len() {
            assert(kept[j] == answers[j]);
        }
    }
}

/// The gains hold at most one pair for each answer, list a name only if
/// the name answered, and give the pair at place `k` the value of rank `k`.
pub proof fn lemma_gains_from_answers(answers: Seq<PlayerAnswerView>, correct: nat)
    ensures
        gains_of(answers, correct).len() <= answers.len(),
        forall|k: int|
            0 <= k < gains_of(answers, correct).len() ==> has_answered(
                answers,
                (#[trigger] gains_of(answers, correct)[k]).0,
            ),
        forall|k: int|
            0 <= k < gains_of(answers, correct).len() ==> (#[trigger] gains_of(
                answers,
                correct,
            )[k]).1 == points_at(k as nat),
    decreases answers.len(),
{
    if answers.len() > 0 {
        let earlier = answers.drop_last();
        let before = gains_of(earlier, correct);
        let gains = gains_of(answers, correct);
        lemma_gains_from_answers(earlier, correct);
        assert forall|k: int| 0 <= k < gains.len() implies has_answered(
            answers,
            (#[trigger] gains[k]).0,
        ) by {
            if k < before.len() {
                let name = before[k].0;
                assert(has_answered(earlier, name));
                let i = choose|i: int|
                    0 <= i < earlier.len() && (#[trigger] earlier[i]).username == name;
                assert(answers[i] == earlier[i]);
            } else {
                assert(answers[answers.len() - 1].username == gains[k].0);
            }
        }
    }
}

/// A player without an answer has no point gain.
pub proof fn lemma_no_answer_no_gain(
    answers: Seq<PlayerAnswerView>,
    correct: nat,
    username: Seq<char>,
)
    requires
        !has_answered(answers, username),
    ensures
        gain_of(gains_of(answers, correct), username) is None,
{
    let gains = gains_of(answers, correct);
    if gain_of(gains, username) is Some {
        lemma_gain_of_some(gains, username);
        let k = choose|k: int|
            0 <= k < gains.len() && #[trigger] gains[k] == (username, gain_of(gains, username)->0);
        lemma_gains_from_answers(answers, correct);
        assert(has_answered(answers, gains[k].0));
    }
}

/// What the gains hold for the player of the answer at place `i`: the value
/// of the answer's rank among the correct answers where it is correct, and
/// nothing where it is not.
pub proof fn lemma_gain_by_answer(answers: Seq<PlayerAnswerView>, correct: nat, i: int)
    requires
        one_answer_each(answers),
        0 <= i < answers.len(),
    ensures
        gain_of(gains_of(answers, correct), answers[i].username) == if answers[i].choice
            == correct {
            Some(points_at(correct_count(answers.take(i), correct)))
        } else {
            None
        },
    decreases answers.len(),
{
    let earlier = answers.drop_last();
    let before = gains_of(earlier, correct);
    let last = answers.last();
    let username = answers[i].username;
    lemma_one_answer_each_earlier(answers);
    lemma_gain_of_push(before, last.username, points_at(before.len()), username);
    if i == answers.len() - 1 {
        lemma_no_answer_no_gain(earlier, correct, username);
        assert(answers.take(i) =~= earlier);
    } else {
        lemma_gain_by_answer(earlier, correct, i);
        assert(earlier[i] == answers[i]);
        assert(earlier.take(i) =~= answers.take(i));
    }
}

/// A player whose only answer is the correct choice earns between 1 and
/// 1000 points; a player whose only answer is another choice earns nothing.
pub proof fn lemma_correct_answer_earns(answers: Seq<PlayerAnswerView>, correct: nat, i: int)
    requires
        one_answer_each(answers),
        0 <= i < answers.len(),
    ensures
        answers[i].choice == correct ==> {
            &&& gain_of(gains_of(answers, correct), answers[i].username) is Some
            &&& 1 <= gain_of(gains_of(answers, correct), answers[i].username)->0 <= FIRST_POINTS
        },
        answers[i].choice != correct ==> gain_of(gains_of(answers, correct), answers[i].username)
            is None,
{
    lemma_gain_by_answer(answers, correct, i);
    lemma_points_bounds(correct_count(answers.take(i), correct));
}

/// The first point gain of a round is 1000; every later one is at most the
/// one before it and at least 1.
pub proof fn lemma_gains_decay(answers: Seq<PlayerAnswerView>, correct: nat, i: int, j: int)
    requires
        0 <= i <= j < gains_of(answers, correct).len(),
    ensures
        gains_of(answers, correct)[0].1 == FIRST_POINTS,
        gains_of(answers, correct)[j].1 <= gains_of(answers, correct)[i].1,
        gains_of(answers, correct)[j].1 >= 1,
{
    lemma_gains_from_answers(answers, correct);
    lemma_points_non_increasing(i as nat, j as nat);
    lemma_points_bounds(j as nat);
}

/// Where each player has one answer, each player has at most one point
/// gain.
pub proof fn lemma_gains_distinct(answers: Seq<PlayerAnswerView>, correct: nat)
    requires
        one_answer_each(answers),
    ensures
        distinct_names(gains_of(answers, correct)),
    decreases answers.len(),
{
    if answers.len() > 0 {
        let earlier = answers.drop_last();
        let before = gains_of(earlier, correct);
        let gains = gains_of(answers, correct);
        lemma_one_answer_each_earlier(answers);
        lemma_gains_distinct(earlier, correct);
        lemma_gains_from_answers(earlier, correct);
        assert forall|i: int, j: int| 0 <= i < j < gains.len() implies (#[trigger] gains[i]).0
            != (#[trigger] gains[j]).0 by {
            assert(gains[i] == before[i]);
            if j < before.len() {
                assert(gains[j] == before[j]);
            } else {
                assert(has_answered(earlier, before[i].0));
            }
        }
    }
}

/// The player behind the point gain at place `k` earns the value of rank
/// `k`, and has no other gain.
pub proof fn lemma_gain_by_rank(answers: Seq<PlayerAnswerView>, correct: nat, k: int)
    requires
        one_answer_each(answers),
        0 <= k < gains_of(answers, correct).len(),
    ensures
        gain_of(gains_of(answers, correct), gains_of(answers, correct)[k].0) == Some(
            points_at(k as nat),
        ),
{
    lemma_gains_distinct(answers, correct);
    lemma_gains_from_answers(answers, correct);
    lemma_gain_of_index(gains_of(answers, correct), k);
}

/// Answers that arrive later leave the earlier point gains as they are: a
/// round that is cut short keeps what was earned.
pub proof fn lemma_gains_extend(
    earlier: Seq<PlayerAnswerView>,
    answers: Seq<PlayerAnswerView>,
    correct: nat,
)
    requires
        earlier.is_prefix_of(answers),
    ensures
        gains_of(earlier, correct).is_prefix_of(gains_of(answers, correct)),
    decreases answers.len(),
{
    if earlier.len() == answers.len() {
        assert(earlier =~= answers);
    } else {
        assert(earlier.is_prefix_of(answers.drop_last()));
        lemma_gains_extend(earlier, answers.drop_last(), correct);
    }
}

/// What became of an answer that was handed to the collector.
#[derive(Clone, Copy, Debug, PartialEq, Eq, Structural)]
pub enum Submission {
    /// The player had answered before; the answer was discarded.
    Discarded,
    /// The answer was kept. `complete` tells whether every player that is
    /// present has now answered.
    Recorded { complete: bool },
}

/// The answers of the round in progress.
pub struct AnswerCollector {
    correct_choice: usize,
    answers: Vec<PlayerAnswer>,
    point_gains: PointGains,
    points: u32,
}

impl AnswerCollector {
    /// Index of the correct choice of the question asked.
    pub closed spec fn correct_choice(&self) -> nat {
        self.correct_choice as nat
    }

    /// The answers kept so far, in the order of their arrival.
    pub closed spec fn answers(&self) -> Seq<PlayerAnswerView> {
        answer_views(self.answers@)
    }

    /// The points earned so far.
    pub open spec fn gains(&self) -> Seq<(Seq<char>, nat)> {
        gains_of(self.answers(), self.correct_choice())
    }

    /// Each player has at most one answer, and the point gains are those
    /// that the answers earn.
    pub closed spec fn wf(&self) -> bool {
        &&& one_answer_each(self.answers())
        &&& self.point_gains@ == self.gains()
        &&& self.points == points_at(self.point_gains@.len())
    }

    /// In a well-formed collector no player has two answers.
    pub proof fn lemma_wf_one_answer_each(self)
        requires
            self.wf(),
        ensures
            one_answer_each(self.answers()),
    {
    }

    /// A collector for a question whose correct choice is `correct_choice`,
    /// with no answer yet.
    pub fn new(correct_choice: usize) -> (collector: Self)
        ensures
            collector.wf(),
            collector.correct_choice() == correct_choice,
            collector.answers() == Seq::<PlayerAnswerView>::empty(),
    {
        let collector = AnswerCollector {
            correct_choice,
            answers: Vec::new(),
            point_gains: PointGains::new(),
            points: FIRST_POINTS,
        };
        assert(collector.answers() =~= Seq::<PlayerAnswerView>::empty());
        collector
    }

    /// Whether `username` has an answer in this round.
    pub fn has_answer(&self, username: &String) -> (answered: bool)
        ensures
            answered == has_answered(self.answers(), username@),
    {
        let mut i: usize = 0;
        while i < self.answers.len()
            invariant
                i <= self.answers.len(),
                forall|k: int| 0 <= k < i ==> (#[trigger] self.answers()[k]).username != username@,
            decreases self.answers.len() - i,
        {
            if self.answers[i].username == *username {
                assert(self.answers()[i as int].username == username@);
                return true;
            }
            i += 1;
        }
        false
    }

    /// Whether every player of `users` has an answer in this round.
    pub fn is_complete(&self, users: &Users) -> (complete: bool)
        requires
            users.wf(),
        ensures
            complete == all_answered(self.answers(), users.present()),
    {
        let names = users.names();
        let ghost present = texts(names@);
        let mut i: usize = 0;
        while i < names.len()
            invariant
                i <= names.len(),
                present == texts(names@),
                present.to_set() == users.present(),
                forall|k: int| 0 <= k < i ==> has_answered(self.answers(), #[trigger] present[k]),
            decreases names.len() - i,
        {
            if !self.has_answer(&names[i]) {
                assert(present[i as int] == names[i as int]@);
                assert(users.present().contains(present[i as int]));
                return false;
            }
            i += 1;
        }
        proof {
            assert forall|username: Seq<char>|
                users.present().contains(username) implies has_answered(
                self.answers(),
                username,
            ) by {
                let k = choose|k: int| 0 <= k < present.len() && present[k] == username;
                assert(has_answered(self.answers(), present[k]));
            }
        }
        true
    }

    /// The points earned so far, in the order in which they were earned.
    pub fn point_gains(&self) -> (gains: &PointGains)
        requires
            self.wf(),
        ensures
            gains@ == self.gains(),
    {
        &self.point_gains
    }

    /// Number of answers kept so far.
    pub fn answer_count(&self) -> (count: usize)
        ensures
            count == self.answers().len(),
    {
        self.answers.len()
    }

    /// Takes one answer. A second answer of a player is discarded and
    /// changes nothing. A first answer is kept behind the earlier ones, and
    /// with it the points that it earns; the result then tells whether
    /// every player of `users` has answered.
    pub fn submit(&mut self, answer: PlayerAnswer, users: &Users) -> (outcome: Submission)
        requires
            old(self).wf(),
            users.wf(),
        ensures
            final(self).wf(),
            final(self).correct_choice() == old(self).correct_choice(),
            outcome == if has_answered(old(self).answers(), answer@.username) {
                Submission::Discarded
            } else {
                Submission::Recorded {
                    complete: all_answered(old(self).answers().push(answer@), users.present()),
                }
            },
            final(self).answers() == if outcome is Discarded {
                old(self).answers()
            } else {
                old(self).answers().push(answer@)
            },
    {
        if self.has_answer(&answer.username) {
            return Submission::Discarded;
        }
        let ghost before = self.answers();
        let ghost shown = answer@;
        let correct = answer.choice == self.correct_choice;
        let username = answer.username.clone();
        self.answers.push(answer);
        proof {
            assert(self.answers() =~= before.push(shown));
            assert(self.answers().drop_last() =~= before);
            lemma_one_answer_each_push(before, shown);
        }
        if correct {
            proof {
                lemma_no_answer_no_gain(before, self.correct_choice(), shown.username);
            }
            let points = self.points;
            self.point_gains.credit(username, points);
            self.points = next_points(points);
        }
        let complete = self.is_complete(users);
        Submission::Recorded { complete }
    }
}

} // verus!
