//! Presence tracker of one room.
//!
//! [`Users`] holds the names of the players that are connected to a room. A
//! name is held by at most one player at a time. Each successful join and each
//! leave yields a [`PlayerEvent`] for the host, and the tracker remembers, as
//! ghost state, every event it has yielded: its contents are always what
//! replaying those events gives.

use vstd::prelude::*;
use crate::api::texts;

verus! {

/// Notification for the host that a player entered or left the room.
#[derive(Debug, PartialEq, Eq)]
pub enum PlayerEvent {
    Joined(String),
    Left(String),
}

/// Mathematical value of a [`PlayerEvent`].
pub enum PlayerEventView {
    Joined(Seq<char>),
    Left(Seq<char>),
}

impl View for PlayerEvent {
    type V = PlayerEventView;

    open spec fn view(&self) -> PlayerEventView {
        match self {
            PlayerEvent::Joined(username) => PlayerEventView::Joined(username@),
            PlayerEvent::Left(username) => PlayerEventView::Left(username@),
        }
    }
}

impl Clone for PlayerEvent {
    /// The copy is the same notification.
    fn clone(&self) -> (copy: Self)
        ensures
            copy@ == self@,
    {
        match self {
            PlayerEvent::Joined(username) => PlayerEvent::Joined(username.clone()),
            PlayerEvent::Left(username) => PlayerEvent::Left(username.clone()),
        }
    }
}

/// The names that are present after the events happened in this order,
/// starting from an empty room.
pub open spec fn replay(events: Seq<PlayerEventView>) -> Set<Seq<char>>
    decreases events.len(),
{
    if events.len() == 0 {
        Set::empty()
    } else {
        match events.last() {
            PlayerEventView::Joined(username) => replay(events.drop_last()).insert(username),
            PlayerEventView::Left(username) => replay(events.drop_last()).remove(username),
        }
    }
}

/// Every join in `events` is that of an absent name, and every leave that of
/// a present one.
pub open spec fn orderly(events: Seq<PlayerEventView>) -> bool
    decreases events.len(),
{
    events.len() == 0 || {
        &&& orderly(events.drop_last())
        &&& match events.last() {
            PlayerEventView::Joined(username) => !replay(events.drop_last()).contains(username),
            PlayerEventView::Left(username) => replay(events.drop_last()).contains(username),
        }
    }
}

/// Number of joins among `events`.
pub open spec fn joins(events: Seq<PlayerEventView>) -> nat
    decreases events.len(),
{
    if events.len() == 0 {
        0
    } else if events.last() is Joined {
        joins(events.drop_last()) + 1
    } else {
        joins(events.drop_last())
    }
}

/// Number of leaves among `events`.
pub open spec fn leaves(events: Seq<PlayerEventView>) -> nat
    decreases events.len(),
{
    if events.len() == 0 {
        0
    } else if events.last() is Left {
        leaves(events.drop_last()) + 1
    } else {
        leaves(events.drop_last())
    }
}

/// The distinct names that joined at some point of `events`.
pub open spec fn joined_names(events: Seq<PlayerEventView>) -> Set<Seq<char>>
    decreases events.len(),
{
    if events.len() == 0 {
        Set::empty()
    } else {
        match events.last() {
            PlayerEventView::Joined(username) => joined_names(events.drop_last()).insert(username),
            PlayerEventView::Left(_) => joined_names(events.drop_last()),
        }
    }
}

/// Replaying finitely many events leaves finitely many names.
pub proof fn lemma_replay_finite(events: Seq<PlayerEventView>)
    ensures
        replay(events).finite(),
    decreases events.len(),
{
    if events.len() > 0 {
        lemma_replay_finite(events.drop_last());
    }
}

/// In an orderly history the names present are as many as the joins less
/// the leaves.
pub proof fn lemma_presence_balance(events: Seq<PlayerEventView>)
    requires
        orderly(events),
    ensures
        replay(events).len() + leaves(events) == joins(events),
    decreases events.len(),
{
    if events.len() > 0 {
        lemma_presence_balance(events.drop_last());
        lemma_replay_finite(events.drop_last());
    }
}

/// The distinct names that joined are at most as many as the joins.
pub proof fn lemma_joined_names_bound(events: Seq<PlayerEventView>)
    ensures
        joined_names(events).finite(),
        joined_names(events).len() <= joins(events),
    decreases events.len(),
{
    if events.len() > 0 {
        lemma_joined_names_bound(events.drop_last());
    }
}

/// A beginning of an orderly history is orderly.
pub proof fn lemma_orderly_prefix(events: Seq<PlayerEventView>, n: int)
    requires
        orderly(events),
        0 <= n <= events.len(),
    ensures
        orderly(events.take(n)),
    decreases events.len(),
{
    if n == events.len() {
        assert(events.take(n) =~= events);
    } else {
        lemma_orderly_prefix(events.drop_last(), n);
        assert(events.drop_last().take(n) =~= events.take(n));
    }
}

/// A name that joined and has not left since is present.
proof fn lemma_present_since_join(events: Seq<PlayerEventView>, i: int, username: Seq<char>)
    requires
        0 <= i < events.len(),
        events[i] == PlayerEventView::Joined(username),
        forall|k: int| i < k < events.len() ==> events[k] != PlayerEventView::Left(username),
    ensures
        replay(events).contains(username),
    decreases events.len(),
{
    if i < events.len() - 1 {
        let earlier = events.drop_last();
        assert(events.last() != PlayerEventView::Left(username));
        lemma_present_since_join(earlier, i, username);
    }
}

/// In an orderly history a name joins a second time only after it left:
/// between two joins of one name lies a leave of that name.
pub proof fn lemma_rejoin_follows_leave(events: Seq<PlayerEventView>, i: int, j: int)
    requires
        orderly(events),
        0 <= i < j < events.len(),
        events[i] is Joined,
        events[j] == events[i],
    ensures
        exists|k: int|
            i < k < j && #[trigger] events[k] == PlayerEventView::Left(events[i]->Joined_0),
{
    let username = events[i]->Joined_0;
    let upto = events.take(j + 1);
    lemma_orderly_prefix(events, j + 1);
    assert(upto.last() == events[j]);
    assert(upto.drop_last() =~= events.take(j));
    assert(!replay(events.take(j)).contains(username));
    if forall|k: int| i < k < j ==> events[k] != PlayerEventView::Left(username) {
        assert(events.take(j)[i] == events[i]);
        assert forall|k: int| i < k < events.take(j).len() implies events.take(j)[k]
            != PlayerEventView::Left(username) by {
            assert(events.take(j)[k] == events[k]);
        }
        lemma_present_since_join(events.take(j), i, username);
    }
}

/// A name that is not among `names` can be put behind them.
proof fn lemma_names_push(names: Seq<Seq<char>>, name: Seq<char>)
    requires
        names.no_duplicates(),
        !names.to_set().contains(name),
    ensures
        names.push(name).no_duplicates(),
        names.push(name).to_set() == names.to_set().insert(name),
{
    let more = names.push(name);
    assert forall|a: int, b: int|
        0 <= a < more.len() && 0 <= b < more.len() && a != b implies more[a] != more[b] by {
        if a < names.len() {
            assert(names.to_set().contains(names[a]));
        }
        if b < names.len() {
            assert(names.to_set().contains(names[b]));
        }
    }
    assert forall|other: Seq<char>| more.to_set().contains(other) implies names.to_set().insert(
        name,
    ).contains(other) by {
        let k = choose|k: int| 0 <= k < more.len() && more[k] == other;
        if k < names.len() {
            assert(names[k] == other);
        }
    }
    assert forall|other: Seq<char>|
        names.to_set().insert(name).contains(other) implies more.to_set().contains(other) by {
        if other == name {
            assert(more[names.len() as int] == other);
        } else {
            let k = choose|k: int| 0 <= k < names.len() && names[k] == other;
            assert(more[k] == other);
        }
    }
    assert(more.to_set() =~= names.to_set().insert(name));
}

/// Taking out the name at place `i` of `names` takes out just that name.
proof fn lemma_names_remove(names: Seq<Seq<char>>, i: int)
    requires
        names.no_duplicates(),
        0 <= i < names.len(),
    ensures
        names.remove(i).no_duplicates(),
        names.remove(i).to_set() == names.to_set().remove(names[i]),
{
    let fewer = names.remove(i);
    assert forall|a: int, b: int|
        0 <= a < fewer.len() && 0 <= b < fewer.len() && a != b implies fewer[a] != fewer[b] by {
        let a0 = if a < i { a } else { a + 1 };
        let b0 = if b < i { b } else { b + 1 };
        assert(fewer[a] == names[a0]);
        assert(fewer[b] == names[b0]);
    }
    assert forall|other: Seq<char>| fewer.to_set().contains(other) implies names.to_set().remove(
        names[i],
    ).contains(other) by {
        let k = choose|k: int| 0 <= k < fewer.len() && fewer[k] == other;
        let k0 = if k < i { k } else { k + 1 };
        assert(names[k0] == other);
    }
    assert forall|other: Seq<char>|
        names.to_set().remove(names[i]).contains(other) implies fewer.to_set().contains(
        other,
    ) by {
        let k = choose|k: int| 0 <= k < names.len() && names[k] == other;
        let k1 = if k < i { k } else { k - 1 };
        assert(fewer[k1] == other);
    }
    assert(fewer.to_set() =~= names.to_set().remove(names[i]));
}

/// Marker of one player's membership in a room. [`Users::join_user`] hands
/// it out and [`Users::leave`] takes it back; it cannot be copied.
#[derive(Debug)]
pub struct Presence {
    username: String,
}

impl View for Presence {
    type V = Seq<char>;

    /// The name that the member holds.
    closed spec fn view(&self) -> Seq<char> {
        self.username@
    }
}

impl Presence {
    /// The name that the member holds.
    pub fn username(&self) -> (username: &String)
        ensures
            username@ == self@,
    {
        &self.username
    }
}

/// Index of the first of `names` that reads `username`.
pub fn find_name(names: &Vec<String>, username: &String) -> (found: Option<usize>)
    ensures
        match found {
            Some(i) => i < names.len() && names[i as int]@ == username@ && forall|k: int|
                0 <= k < i ==> names[k]@ != username@,
            None => forall|k: int| 0 <= k < names.len() ==> names[k]@ != username@,
        },
{
    let mut i: usize = 0;
    while i < names.len()
        invariant
            i <= names.len(),
            forall|k: int| 0 <= k < i ==> names[k]@ != username@,
        decreases names.len() - i,
    {
        if names[i] == *username {
            return Some(i);
        }
        i += 1;
    }
    None
}

/// The connected players of one room.
pub struct Users {
    names: Vec<String>,
    emitted: Ghost<Seq<PlayerEventView>>,
}

impl Users {
    /// The names of the players that are present.
    pub closed spec fn present(&self) -> Set<Seq<char>> {
        texts(self.names@).to_set()
    }

    /// Every event that this tracker has yielded so far, oldest first.
    pub closed spec fn emitted(&self) -> Seq<PlayerEventView> {
        self.emitted@
    }

    /// The tracker holds no name twice, and holds what its events add up to.
    pub closed spec fn wf(&self) -> bool {
        &&& texts(self.names@).no_duplicates()
        &&& orderly(self.emitted@)
        &&& texts(self.names@).to_set() == replay(self.emitted@)
    }

    /// The events of a well-formed tracker are orderly, and replaying them
    /// gives the names that are present.
    pub proof fn lemma_wf_history(self)
        requires
            self.wf(),
        ensures
            orderly(self.emitted()),
            self.present() == replay(self.emitted()),
            self.present().finite(),
    {
        lemma_replay_finite(self.emitted());
    }

    /// A tracker for a new room: nobody present, nothing emitted.
    pub fn new() -> (users: Self)
        ensures
            users.wf(),
            users.present() == Set::<Seq<char>>::empty(),
            users.emitted() == Seq::<PlayerEventView>::empty(),
    {
        let users = Users { names: Vec::new(), emitted: Ghost(Seq::empty()) };
        assert(texts(users.names@).to_set() =~= Set::<Seq<char>>::empty());
        users
    }

    /// Number of players present.
    pub fn player_count(&self) -> (count: usize)
        requires
            self.wf(),
        ensures
            count == self.present().len(),
    {
        proof {
            texts(self.names@).unique_seq_to_set();
        }
        self.names.len()
    }

    /// Whether a player of this name is present.
    pub fn contains(&self, username: &String) -> (held: bool)
        ensures
            held == self.present().contains(username@),
    {
        let found = find_name(&self.names, username);
        proof {
            let names = texts(self.names@);
            if let Some(i) = found {
                assert(names[i as int] == username@);
            } else {
                assert forall|k: int| 0 <= k < names.len() implies names[k] != username@ by {}
            }
        }
        found.is_some()
    }

    /// The names present, each once.
    pub fn names(&self) -> (names: &Vec<String>)
        requires
            self.wf(),
        ensures
            texts(names@).no_duplicates(),
            texts(names@).to_set() == self.present(),
    {
        &self.names
    }

    /// Admits `username` unless a player of that name is present. On
    /// admission the name becomes present, and the caller receives the
    /// membership marker together with the join notification for the host.
    /// On refusal nothing changes and nothing is emitted.
    pub fn join_user(&mut self, username: String) -> (admitted: Option<(Presence, PlayerEvent)>)
        requires
            old(self).wf(),
        ensures
            final(self).wf(),
            admitted is Some <==> !old(self).present().contains(username@),
            match admitted {
                Some((presence, event)) => {
                    &&& presence@ == username@
                    &&& event@ == PlayerEventView::Joined(username@)
                    &&& final(self).present() == old(self).present().insert(username@)
                    &&& final(self).emitted() == old(self).emitted().push(event@)
                },
                None => {
                    &&& final(self).present() == old(self).present()
                    &&& final(self).emitted() == old(self).emitted()
                },
            },
    {
        if self.contains(&username) {
            return None;
        }
        let ghost before = texts(self.names@);
        let ghost history = self.emitted@;
        let event = PlayerEvent::Joined(username.clone());
        let presence = Presence { username: username.clone() };
        self.names.push(username);
        self.emitted = Ghost(history.push(event@));
        proof {
            assert(texts(self.names@) =~= before.push(username@));
            lemma_names_push(before, username@);
            assert(self.emitted@.drop_last() =~= history);
        }
        Some((presence, event))
    }

    /// Ends the membership that `presence` stands for. Where its name is
    /// present it is removed, and the caller receives the leave notification
    /// for the host; where it is not, nothing changes and nothing is emitted.
    pub fn leave(&mut self, presence: Presence) -> (event: Option<PlayerEvent>)
        requires
            old(self).wf(),
        ensures
            final(self).wf(),
            event is Some <==> old(self).present().contains(presence@),
            final(self).present() == old(self).present().remove(presence@),
            match event {
                Some(event) => {
                    &&& event@ == PlayerEventView::Left(presence@)
                    &&& final(self).emitted() == old(self).emitted().push(event@)
                },
                None => final(self).emitted() == old(self).emitted(),
            },
    {
        let ghost before = texts(self.names@);
        let ghost history = self.emitted@;
        match find_name(&self.names, &presence.username) {
            None => {
                proof {
                    assert forall|k: int| 0 <= k < before.len() implies before[k] != presence@ by {}
                    assert(before.to_set().remove(presence@) =~= before.to_set());
                }
                None
            },
            Some(i) => {
                self.names.remove(i);
                let event = PlayerEvent::Left(presence.username);
                self.emitted = Ghost(history.push(event@));
                proof {
                    assert(before[i as int] == presence@);
                    assert(texts(self.names@) =~= before.remove(i as int));
                    lemma_names_remove(before, i as int);
                    assert(self.emitted@.drop_last() =~= history);
                }
                Some(event)
            },
        }
    }
}

/// At every moment the players present are as many as the joins less the
/// leaves that the tracker has emitted, and so at least as many as the
/// distinct names that joined less the leaves.
pub proof fn lemma_count_covers_events(users: Users)
    requires
        users.wf(),
    ensures
        users.present().len() == joins(users.emitted()) - leaves(users.emitted()),
        users.present().len() >= joined_names(users.emitted()).len() - leaves(users.emitted()),
{
    lemma_presence_balance(users.emitted());
    lemma_joined_names_bound(users.emitted());
}

/// The same holds of every earlier moment: whatever beginning of its
/// events one looks at, the players present behind it were at least as
/// many as the distinct names that had joined less the leaves.
pub proof fn lemma_count_covered_events_before(users: Users, seen: int)
    requires
        users.wf(),
        0 <= seen <= users.emitted().len(),
    ensures
        replay(users.emitted().take(seen)).len() == joins(users.emitted().take(seen)) - leaves(
            users.emitted().take(seen),
        ),
        replay(users.emitted().take(seen)).len() >= joined_names(
            users.emitted().take(seen),
        ).len() - leaves(users.emitted().take(seen)),
{
    lemma_orderly_prefix(users.emitted(), seen);
    lemma_presence_balance(users.emitted().take(seen));
    lemma_joined_names_bound(users.emitted().take(seen));
}

/// The tracker never tells of a second join of a name without a leave of
/// that name in between.
pub proof fn lemma_join_only_after_leave(users: Users, i: int, j: int)
    requires
        users.wf(),
        0 <= i < j < users.emitted().len(),
        users.emitted()[i] is Joined,
        users.emitted()[j] == users.emitted()[i],
    ensures
        exists|k: int|
            i < k < j && #[trigger] users.emitted()[k] == PlayerEventView::Left(
                users.emitted()[i]->Joined_0,
            ),
{
    lemma_rejoin_follows_leave(users.emitted(), i, j);
}

} // verus!
