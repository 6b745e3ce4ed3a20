//! Watching a library: polls of the owned ids, diffed against what was reported
//! before. There's no push API on GOG's side to do better than this.
//!
//! The watch goes from step to step. Each step says what is to be done, and takes
//! what came of it. A game is resolved and reported as soon as a poll brings its
//! id, rather than when the whole library is resolved; a game that was reported is
//! not resolved again.

use vstd::prelude::*;
use vstd::string::*;

use crate::games;
use crate::games::{Game, Storefront, resolve_game};
use crate::gamesdb::Release;
use crate::text;

verus! {

/// A change in a library.
#[derive(Debug)]
pub enum GameEvent {
    Added(Game),
    Removed { storefront: Storefront, game_id: String },
}

/// The content of a `GameEvent`.
pub enum GameEventView {
    Added(games::GameView),
    Removed { storefront: Storefront, game_id: Seq<char> },
}

impl DeepView for GameEvent {
    type V = GameEventView;

    open spec fn deep_view(&self) -> GameEventView {
        match self {
            GameEvent::Added(game) => GameEventView::Added(game.deep_view()),
            GameEvent::Removed { storefront, game_id } => GameEventView::Removed {
                storefront: *storefront,
                game_id: game_id@,
            },
        }
    }
}

/// How far a poll got: the ids that are reported, the ids that the poll brought,
/// and how many of these have been dealt with.
pub struct PollView {
    pub known: Seq<i64>,
    pub ids: Seq<i64>,
    pub done: int,
}

/// To do: wait for the next poll, and ask for the owned ids.
#[derive(Debug)]
pub struct WaitStep {
    known: Vec<i64>,
}

/// To do: ask the catalog for the data of the game with this id.
#[derive(Debug)]
pub struct ResolveStep {
    known: Vec<i64>,
    ids: Vec<i64>,
    at: usize,
}

/// To do: send the event to whoever watches.
#[derive(Debug)]
pub struct SendStep {
    event: GameEvent,
    rest: SentStep,
}

/// The event is on its way: to do is to say whether it arrived.
#[derive(Debug)]
pub struct SentStep {
    known: Vec<i64>,
    ids: Vec<i64>,
    done: usize,
}

/// What a watch does next.
#[derive(Debug)]
pub enum WatchStep {
    Wait(WaitStep),
    Resolve(ResolveStep),
    Send(SendStep),
    /// Nobody watches any more.
    Stop,
}

impl View for WaitStep {
    type V = Seq<i64>;

    closed spec fn view(&self) -> Seq<i64> {
        self.known@
    }
}

impl View for ResolveStep {
    type V = PollView;

    closed spec fn view(&self) -> PollView {
        PollView { known: self.known@, ids: self.ids@, done: self.at as int }
    }
}

impl View for SentStep {
    type V = PollView;

    closed spec fn view(&self) -> PollView {
        PollView { known: self.known@, ids: self.ids@, done: self.done as int }
    }
}

impl View for SendStep {
    type V = (GameEventView, PollView);

    closed spec fn view(&self) -> (GameEventView, PollView) {
        (self.event.deep_view(), self.rest@)
    }
}

/// The ids that the poll brought from `from` up to `to` are reported already.
pub open spec fn all_known(poll: PollView, from: int, to: int) -> bool {
    forall|j: int| from <= j < to ==> poll.known.contains(#[trigger] poll.ids[j])
}

/// The `k`th reported id is the first one that the poll didn't bring.
pub open spec fn is_first_gone(poll: PollView, k: int) -> bool {
    &&& 0 <= k < poll.known.len()
    &&& !poll.ids.contains(poll.known[k])
    &&& forall|j: int| 0 <= j < k ==> poll.ids.contains(#[trigger] poll.known[j])
}

/// The poll after its next game was resolved: its id is reported.
pub open spec fn with_next_reported(poll: PollView) -> PollView {
    PollView { known: poll.known.push(poll.ids[poll.done]), ids: poll.ids, done: poll.done + 1 }
}

pub open spec fn removed_event(id: i64) -> GameEventView {
    GameEventView::Removed { storefront: Storefront::Gog, game_id: text::int_text(id as int) }
}

/// `step` is how the poll goes on. The next id that is not reported yet is
/// resolved. When there is none, the reported ids that the poll didn't bring are
/// removed one by one. Then the poll is over.
pub open spec fn goes_on(poll: PollView, step: WatchStep) -> bool {
    match step {
        WatchStep::Resolve(resolve) => {
            &&& resolve@.known == poll.known
            &&& resolve@.ids == poll.ids
            &&& poll.done <= resolve@.done < poll.ids.len()
            &&& !poll.known.contains(poll.ids[resolve@.done])
            &&& all_known(poll, poll.done, resolve@.done)
        },
        WatchStep::Send(send) => {
            &&& all_known(poll, poll.done, poll.ids.len() as int)
            &&& send@.1.ids == poll.ids
            &&& send@.1.done == poll.ids.len()
            &&& exists|k: int| #[trigger]
                is_first_gone(poll, k) && send@.0 == removed_event(poll.known[k])
                    && send@.1.known == poll.known.remove(k)
        },
        WatchStep::Wait(wait) => {
            &&& all_known(poll, poll.done, poll.ids.len() as int)
            &&& forall|k: int| 0 <= k < poll.known.len() ==> poll.ids.contains(#[trigger] poll.known[k])
            &&& wait@ == poll.known
        },
        WatchStep::Stop => false,
    }
}

fn is_among(id: i64, ids: &Vec<i64>) -> (found: bool)
    ensures
        found == ids@.contains(id),
{
    let mut i: usize = 0;
    while i < ids.len()
        invariant
            i <= ids@.len(),
            forall|j: int| 0 <= j < i ==> ids@[j] != id,
        decreases ids@.len() - i,
    {
        if ids[i] == id {
            assert(ids@[i as int] == id);
            return true;
        }
        i = i + 1;
    }
    false
}

/// Goes on with a poll.
fn advance(known: Vec<i64>, ids: Vec<i64>, done: usize) -> (step: WatchStep)
    requires
        known@.no_duplicates(),
        done <= ids@.len(),
    ensures
        goes_on(PollView { known: known@, ids: ids@, done: done as int }, step),
{
    let ghost poll = PollView { known: known@, ids: ids@, done: done as int };
    let mut at: usize = done;
    while at < ids.len()
        invariant
            known@.no_duplicates(),
            poll == (PollView { known: known@, ids: ids@, done: done as int }),
            done <= at <= ids@.len(),
            all_known(poll, done as int, at as int),
        decreases ids@.len() - at,
    {
        if !is_among(ids[at], &known) {
            return WatchStep::Resolve(ResolveStep { known, ids, at });
        }
        at = at + 1;
    }
    let mut k: usize = 0;
    while k < known.len()
        invariant
            known@.no_duplicates(),
            poll == (PollView { known: known@, ids: ids@, done: done as int }),
            all_known(poll, done as int, ids@.len() as int),
            at == ids@.len(),
            k <= known@.len(),
            forall|j: int| 0 <= j < k ==> poll.ids.contains(#[trigger] poll.known[j]),
        decreases known@.len() - k,
    {
        if !is_among(known[k], &ids) {
            let mut known = known;
            let gone: i64 = known.remove(k);
            assert(is_first_gone(poll, k as int));
            let event = GameEvent::Removed {
                storefront: Storefront::Gog,
                game_id: text::i64_text(gone),
            };
            let rest = SentStep { known, ids, done: at };
            return WatchStep::Send(SendStep { event, rest });
        }
        k = k + 1;
    }
    WatchStep::Wait(WaitStep { known })
}

/// Starts to watch: nothing is reported yet.
pub fn watch_games() -> (step: WaitStep)
    ensures
        step@ == Seq::<i64>::empty(),
{
    WaitStep { known: Vec::new() }
}

impl WaitStep {
    /// No id is reported twice.
    #[verifier::type_invariant]
    spec fn inv(self) -> bool {
        self.known@.no_duplicates()
    }

    /// The ids that are reported.
    pub fn known(&self) -> (known: &Vec<i64>)
        ensures
            known@ == self@,
            known@.no_duplicates(),
    {
        proof {
            use_type_invariant(self);
        }
        &self.known
    }

    /// The poll brought the owned ids, or failed. A poll that fails (e.g. a session
    /// gone stale) is skipped rather than ending the watch: it picks back up once
    /// the session's refreshed.
    pub fn polled<E>(self, polled: Result<Vec<i64>, E>) -> (step: WatchStep)
        ensures
            match polled {
                Ok(ids) => goes_on(PollView { known: self@, ids: ids@, done: 0 }, step),
                Err(_) => step == WatchStep::Wait(self),
            },
    {
        proof {
            use_type_invariant(&self);
        }
        match polled {
            Ok(ids) => advance(self.known, ids, 0),
            Err(_) => WatchStep::Wait(self),
        }
    }
}

impl ResolveStep {
    #[verifier::type_invariant]
    spec fn inv(self) -> bool {
        &&& self.known@.no_duplicates()
        &&& self.at < self.ids.len()
        &&& !self.known@.contains(self.ids@[self.at as int])
    }

    /// The id whose game is to be resolved.
    pub fn id(&self) -> (id: i64)
        ensures
            0 <= self@.done < self@.ids.len(),
            id == self@.ids[self@.done],
            !self@.known.contains(id),
    {
        proof {
            use_type_invariant(self);
        }
        self.ids[self.at]
    }

    /// The catalog answered, or the worker that asked it panicked. Any answer makes
    /// the game known; after a panic the poll goes on without it.
    pub fn resolved(self, worked: Result<Result<Release, String>, String>) -> (step: WatchStep)
        ensures
            match worked {
                Ok(fetched) => {
                    &&& step matches WatchStep::Send(send)
                    &&& send@.0 == GameEventView::Added(
                        games::resolved_game(self@.ids[self@.done], fetched),
                    )
                    &&& send@.1 == with_next_reported(self@)
                },
                Err(_) => goes_on(PollView { done: self@.done + 1, ..self@ }, step),
            },
    {
        proof {
            use_type_invariant(&self);
        }
        let id: i64 = self.ids[self.at];
        let ResolveStep { known, ids, at } = self;
        match worked {
            Ok(fetched) => {
                let mut known = known;
                let event = GameEvent::Added(resolve_game(id, &fetched));
                known.push(id);
                let rest = SentStep { known, ids, done: at + 1 };
                WatchStep::Send(SendStep { event, rest })
            },
            Err(_) => advance(known, ids, at + 1),
        }
    }
}

impl SentStep {
    #[verifier::type_invariant]
    spec fn inv(self) -> bool {
        &&& self.known@.no_duplicates()
        &&& self.done <= self.ids@.len()
    }

    /// The event arrived, or nobody watches any more.
    pub fn sent(self, arrived: bool) -> (step: WatchStep)
        ensures
            if arrived {
                goes_on(self@, step)
            } else {
                step == WatchStep::Stop
            },
    {
        proof {
            use_type_invariant(&self);
        }
        if arrived {
            advance(self.known, self.ids, self.done)
        } else {
            WatchStep::Stop
        }
    }
}

impl SendStep {
    /// The event to send, and how to go on once it is sent.
    pub fn take(self) -> (parts: (GameEvent, SentStep))
        ensures
            parts.0.deep_view() == self@.0,
            parts.1@ == self@.1,
    {
        (self.event, self.rest)
    }
}

/// The ids of the games that a listener holds who has heard of these.
pub open spec fn held(known: Seq<i64>) -> Set<Seq<char>> {
    Set::new(|id: Seq<char>| exists|k: int| 0 <= k < known.len() && id == text::int_text(#[trigger] known[k] as int))
}

/// What a listener holds after an event.
pub open spec fn heard(before: Set<Seq<char>>, event: GameEventView) -> Set<Seq<char>> {
    match event {
        GameEventView::Added(game) => before.insert(game.id),
        GameEventView::Removed { game_id, .. } => before.remove(game_id),
    }
}

proof fn lemma_held_push(known: Seq<i64>, id: i64)
    ensures
        held(known.push(id)) == held(known).insert(text::int_text(id as int)),
{
    let after = known.push(id);
    assert forall|t: Seq<char>| #[trigger] held(after).contains(t) <==> held(known).insert(
        text::int_text(id as int),
    ).contains(t) by {
        if held(after).contains(t) {
            let k = choose|k: int|
                0 <= k < after.len() && t == text::int_text(#[trigger] after[k] as int);
            if k < known.len() {
                assert(after[k] == known[k]);
            }
        }
        if held(known).contains(t) {
            let k = choose|k: int|
                0 <= k < known.len() && t == text::int_text(#[trigger] known[k] as int);
            assert(after[k] == known[k]);
        }
        if t == text::int_text(id as int) {
            assert(after[known.len() as int] == id);
        }
    }
    assert(held(after) =~= held(known).insert(text::int_text(id as int)));
}

proof fn lemma_held_remove(known: Seq<i64>, at: int)
    requires
        known.no_duplicates(),
        0 <= at < known.len(),
    ensures
        held(known.remove(at)) == held(known).remove(text::int_text(known[at] as int)),
{
    let after = known.remove(at);
    let gone = text::int_text(known[at] as int);
    assert forall|t: Seq<char>| #[trigger] held(after).contains(t) <==> held(known).remove(
        gone,
    ).contains(t) by {
        if held(after).contains(t) {
            let k = choose|k: int|
                0 <= k < after.len() && t == text::int_text(#[trigger] after[k] as int);
            let old_k = if k < at {
                k
            } else {
                k + 1
            };
            assert(after[k] == known[old_k]);
            assert(known[old_k] != known[at]);
            text::law_number_texts_differ(known[old_k], known[at]);
        }
        if held(known).contains(t) && t != gone {
            let k = choose|k: int|
                0 <= k < known.len() && t == text::int_text(#[trigger] known[k] as int);
            assert(k != at);
            let new_k = if k < at {
                k
            } else {
                k - 1
            };
            assert(after[new_k] == known[k]);
        }
    }
    assert(held(after) =~= held(known).remove(gone));
}

/// A listener who follows the removals of a poll holds what is reported.
pub proof fn law_listener_follows_removals(poll: PollView, step: WatchStep)
    requires
        poll.known.no_duplicates(),
        goes_on(poll, step),
    ensures
        match step {
            WatchStep::Send(send) => held(send@.1.known) == heard(held(poll.known), send@.0),
            WatchStep::Resolve(resolve) => held(resolve@.known) == held(poll.known),
            WatchStep::Wait(wait) => held(wait@) == held(poll.known),
            WatchStep::Stop => true,
        },
{
    if let WatchStep::Send(send) = step {
        let k = choose|k: int| #[trigger]
            is_first_gone(poll, k) && send@.0 == removed_event(poll.known[k]) && send@.1.known
                == poll.known.remove(k);
        lemma_held_remove(poll.known, k);
    }
}

/// A listener who hears of a game that was resolved holds what is reported.
pub proof fn law_listener_follows_additions(
    known: Seq<i64>,
    id: i64,
    fetched: Result<Release, String>,
)
    ensures
        held(known.push(id)) == heard(
            held(known),
            GameEventView::Added(games::resolved_game(id, fetched)),
        ),
{
    lemma_held_push(known, id);
}

/// No id that the poll has dealt with is missing from those reported.
pub open spec fn nothing_missed(poll: PollView) -> bool {
    all_known(poll, 0, poll.done)
}

/// A poll in which no worker panics makes the reported ids those of the library:
/// nothing that it dealt with is missing on the way, and at its end the reported
/// ids are the owned ones.
pub proof fn law_poll_mirrors_library(poll: PollView, step: WatchStep)
    requires
        0 <= poll.done <= poll.ids.len(),
        poll.known.no_duplicates(),
        nothing_missed(poll),
        goes_on(poll, step),
    ensures
        match step {
            WatchStep::Resolve(resolve) => nothing_missed(resolve@) && nothing_missed(
                with_next_reported(resolve@),
            ),
            WatchStep::Send(send) => nothing_missed(send@.1),
            WatchStep::Wait(wait) => wait@.to_set() == poll.ids.to_set(),
            WatchStep::Stop => true,
        },
{
    match step {
        WatchStep::Resolve(resolve) => {
            let here = resolve@;
            assert forall|j: int| 0 <= j < here.done implies here.known.contains(
                #[trigger] here.ids[j],
            ) by {
                assert(poll.known.contains(poll.ids[j]));
            }
            let known = here.known.push(here.ids[here.done]);
            assert forall|j: int| 0 <= j < here.done + 1 implies known.contains(
                #[trigger] here.ids[j],
            ) by {
                if j < here.done {
                    let k = choose|k: int| 0 <= k < here.known.len() && here.known[k] == here.ids[j];
                    assert(known[k] == here.ids[j]);
                } else {
                    assert(known[here.known.len() as int] == here.ids[j]);
                }
            }
        },
        WatchStep::Send(send) => {
            let after = send@.1;
            let gone = choose|k: int| #[trigger]
                is_first_gone(poll, k) && send@.0 == removed_event(poll.known[k]) && after.known
                    == poll.known.remove(k);
            assert forall|j: int| 0 <= j < after.done implies after.known.contains(
                #[trigger] after.ids[j],
            ) by {
                assert(poll.known.contains(poll.ids[j]));
                let k = choose|k: int| 0 <= k < poll.known.len() && poll.known[k] == poll.ids[j];
                assert(poll.ids.contains(poll.ids[j]));
                assert(k != gone);
                let new_k = if k < gone {
                    k
                } else {
                    k - 1
                };
                assert(after.known[new_k] == poll.ids[j]);
            }
        },
        WatchStep::Wait(wait) => {
            assert forall|id: i64| #[trigger] wait@.to_set().contains(id) <==> poll.ids.to_set().contains(
                id,
            ) by {
                if wait@.contains(id) {
                    let k = choose|k: int| 0 <= k < poll.known.len() && poll.known[k] == id;
                    assert(poll.ids.contains(poll.known[k]));
                }
                if poll.ids.contains(id) {
                    let j = choose|j: int| 0 <= j < poll.ids.len() && poll.ids[j] == id;
                    assert(poll.known.contains(poll.ids[j]));
                }
            }
            assert(wait@.to_set() =~= poll.ids.to_set());
        },
        WatchStep::Stop => {},
    }
}

/// When a poll ends, whatever happened in it, no game is reported that the
/// library doesn't hold.
pub proof fn law_poll_drops_what_is_gone(poll: PollView, wait: WaitStep)
    requires
        goes_on(poll, WatchStep::Wait(wait)),
    ensures
        wait@.to_set().subset_of(poll.ids.to_set()),
{
    assert forall|id: i64| #[trigger] wait@.to_set().contains(id) implies poll.ids.to_set().contains(
        id,
    ) by {
        let k = choose|k: int| 0 <= k < poll.known.len() && poll.known[k] == id;
        assert(poll.ids.contains(poll.known[k]));
    }
}

/// The id of the game that an event is about.
pub open spec fn subject(event: GameEventView) -> Seq<char> {
    match event {
        GameEventView::Added(game) => game.id,
        GameEventView::Removed { game_id, .. } => game_id,
    }
}

/// What a listener holds after these events.
pub open spec fn heard_all(before: Set<Seq<char>>, events: Seq<GameEventView>) -> Set<Seq<char>>
    decreases events.len(),
{
    if events.len() == 0 {
        before
    } else {
        heard_all(heard(before, events[0]), events.skip(1))
    }
}

/// The next game is resolved and `event` tells that it was added, which leads the poll
/// to `next`.
pub open spec fn adding_leads(poll: PollView, event: GameEventView, next: PollView) -> bool {
    exists|resolve: ResolveStep, fetched: Result<Release, String>|
        {
            &&& #[trigger] goes_on(poll, WatchStep::Resolve(resolve))
            &&& event == GameEventView::Added(
                #[trigger] games::resolved_game(resolve@.ids[resolve@.done], fetched),
            )
            &&& next == with_next_reported(resolve@)
        }
}

/// `event` tells that the next game was removed, which leads the poll to `next`.
pub open spec fn removing_leads(poll: PollView, event: GameEventView, next: PollView) -> bool {
    exists|send: SendStep|
        {
            &&& #[trigger] goes_on(poll, WatchStep::Send(send))
            &&& event == send@.0
            &&& next == send@.1
        }
}

/// `event` is the next that the poll sends, which leads it to `next`.
pub open spec fn event_leads(poll: PollView, event: GameEventView, next: PollView) -> bool {
    adding_leads(poll, event, next) || removing_leads(poll, event, next)
}

/// The poll sends `events` up to its end, and leaves `reported` as the reported
/// ids. No worker panics in it, and every event arrives.
pub open spec fn poll_sends(poll: PollView, events: Seq<GameEventView>, reported: Seq<i64>) -> bool
    decreases events.len(),
{
    if events.len() == 0 {
        exists|wait: WaitStep| #[trigger]
            goes_on(poll, WatchStep::Wait(wait)) && wait@ == reported
    } else {
        exists|next: PollView| #[trigger]
            event_leads(poll, events[0], next) && poll_sends(next, events.skip(1), reported)
    }
}

/// The place among the poll's ids of the game that was added.
proof fn lemma_adding(poll: PollView, event: GameEventView, next: PollView) -> (at: int)
    requires
        adding_leads(poll, event, next),
    ensures
        poll.done <= at < poll.ids.len(),
        !poll.known.contains(poll.ids[at]),
        all_known(poll, poll.done, at),
        event is Added,
        adds_id(event, poll.ids[at]),
        next == (PollView { known: poll.known.push(poll.ids[at]), ids: poll.ids, done: at + 1 }),
        held(next.known) == heard(held(poll.known), event),
        !held(poll.known).contains(subject(event)),
        poll.known.no_duplicates() && 0 <= poll.done && nothing_missed(poll) ==> nothing_missed(next),
{
    let (resolve, fetched) = choose|resolve: ResolveStep, fetched: Result<Release, String>|
        {
            &&& #[trigger] goes_on(poll, WatchStep::Resolve(resolve))
            &&& event == GameEventView::Added(
                #[trigger] games::resolved_game(resolve@.ids[resolve@.done], fetched),
            )
            &&& next == with_next_reported(resolve@)
        };
    let at = resolve@.done;
    law_listener_follows_additions(poll.known, poll.ids[at], fetched);
    lemma_held_id(poll.known, poll.ids[at]);
    if poll.known.no_duplicates() && 0 <= poll.done && nothing_missed(poll) {
        law_poll_mirrors_library(poll, WatchStep::Resolve(resolve));
    }
    at
}

/// The place among the reported ids of the game that was removed.
proof fn lemma_removing(poll: PollView, event: GameEventView, next: PollView) -> (k: int)
    requires
        poll.known.no_duplicates(),
        removing_leads(poll, event, next),
    ensures
        is_first_gone(poll, k),
        all_known(poll, poll.done, poll.ids.len() as int),
        event == removed_event(poll.known[k]),
        next == (PollView {
            known: poll.known.remove(k),
            ids: poll.ids,
            done: poll.ids.len() as int,
        }),
        held(next.known) == heard(held(poll.known), event),
        held(poll.known).contains(subject(event)),
        0 <= poll.done <= poll.ids.len() && nothing_missed(poll) ==> nothing_missed(next),
{
    let send = choose|send: SendStep|
        {
            &&& #[trigger] goes_on(poll, WatchStep::Send(send))
            &&& event == send@.0
            &&& next == send@.1
        };
    law_listener_follows_removals(poll, WatchStep::Send(send));
    let k = choose|k: int| #[trigger]
        is_first_gone(poll, k) && send@.0 == removed_event(poll.known[k]) && send@.1.known
            == poll.known.remove(k);
    lemma_held_id(poll.known, poll.known[k]);
    assert(poll.known.contains(poll.known[k]));
    if 0 <= poll.done <= poll.ids.len() && nothing_missed(poll) {
        law_poll_mirrors_library(poll, WatchStep::Send(send));
    }
    k
}

/// An event keeps what holds of a poll in which nothing was missed.
proof fn lemma_event_keeps(poll: PollView, event: GameEventView, next: PollView)
    requires
        poll.known.no_duplicates(),
        event_leads(poll, event, next),
    ensures
        next.ids == poll.ids,
        next.known.no_duplicates(),
        held(next.known) == heard(held(poll.known), event),
        event is Added <==> !held(poll.known).contains(subject(event)),
        0 <= poll.done <= poll.ids.len() ==> 0 <= next.done <= next.ids.len(),
        0 <= poll.done <= poll.ids.len() && nothing_missed(poll) ==> nothing_missed(next),
{
    if adding_leads(poll, event, next) {
        let at = lemma_adding(poll, event, next);
    } else {
        let k = lemma_removing(poll, event, next);
    }
}

/// The event tells of a change between the reported ids and the owned ones.
pub open spec fn is_change(known: Seq<i64>, ids: Seq<i64>, event: GameEventView) -> bool {
    match event {
        GameEventView::Added(game) => held(ids).contains(game.id) && !held(known).contains(game.id),
        GameEventView::Removed { game_id, .. } => held(known).contains(game_id) && !held(
            ids,
        ).contains(game_id),
    }
}

proof fn lemma_held_id(ids: Seq<i64>, id: i64)
    ensures
        held(ids).contains(text::int_text(id as int)) <==> ids.contains(id),
{
    let t = text::int_text(id as int);
    if held(ids).contains(t) {
        let k = choose|k: int| 0 <= k < ids.len() && t == text::int_text(#[trigger] ids[k] as int);
        text::law_number_texts_differ(ids[k], id);
    }
    if ids.contains(id) {
        let k = choose|k: int| 0 <= k < ids.len() && ids[k] == id;
        assert(t == text::int_text(ids[k] as int));
    }
}

proof fn lemma_held_of_same_ids(a: Seq<i64>, b: Seq<i64>)
    requires
        a.to_set() == b.to_set(),
    ensures
        held(a) == held(b),
{
    assert forall|t: Seq<char>| #[trigger] held(a).contains(t) <==> held(b).contains(t) by {
        if held(a).contains(t) {
            let k = choose|k: int| 0 <= k < a.len() && t == text::int_text(#[trigger] a[k] as int);
            assert(a.to_set().contains(a[k]));
            assert(b.to_set().contains(a[k]));
            lemma_held_id(b, a[k]);
        }
        if held(b).contains(t) {
            let k = choose|k: int| 0 <= k < b.len() && t == text::int_text(#[trigger] b[k] as int);
            assert(b.to_set().contains(b[k]));
            assert(a.to_set().contains(b[k]));
            lemma_held_id(a, b[k]);
        }
    }
    assert(held(a) =~= held(b));
}

proof fn lemma_event_is_change(poll: PollView, event: GameEventView, next: PollView)
    requires
        poll.known.no_duplicates(),
        event_leads(poll, event, next),
        0 <= poll.done,
    ensures
        is_change(poll.known, poll.ids, event),
{
    if adding_leads(poll, event, next) {
        let at = lemma_adding(poll, event, next);
        assert(poll.ids.contains(poll.ids[at]));
        lemma_held_id(poll.ids, poll.ids[at]);
    } else {
        let k = lemma_removing(poll, event, next);
        lemma_held_id(poll.ids, poll.known[k]);
    }
}

proof fn lemma_poll_changes(poll: PollView, events: Seq<GameEventView>, reported: Seq<i64>)
    requires
        0 <= poll.done <= poll.ids.len(),
        poll.known.no_duplicates(),
        nothing_missed(poll),
        poll_sends(poll, events, reported),
    ensures
        reported.no_duplicates(),
        reported.to_set() == poll.ids.to_set(),
        heard_all(held(poll.known), events) == held(reported),
        forall|i: int|
            0 <= i < events.len() ==> is_change(poll.known, poll.ids, #[trigger] events[i]),
        forall|i: int, j: int|
            0 <= i < j < events.len() ==> subject(#[trigger] events[i]) != subject(
                #[trigger] events[j],
            ),
    decreases events.len(),
{
    if events.len() == 0 {
        let wait = choose|wait: WaitStep| #[trigger]
            goes_on(poll, WatchStep::Wait(wait)) && wait@ == reported;
        law_poll_mirrors_library(poll, WatchStep::Wait(wait));
    } else {
        let rest = events.skip(1);
        let next = choose|next: PollView| #[trigger]
            event_leads(poll, events[0], next) && poll_sends(next, rest, reported);
        lemma_event_keeps(poll, events[0], next);
        lemma_event_is_change(poll, events[0], next);
        lemma_poll_changes(next, rest, reported);
        assert forall|i: int| 1 <= i < events.len() implies is_change(
            poll.known,
            poll.ids,
            #[trigger] events[i],
        ) && subject(events[0]) != subject(events[i]) by {
            assert(rest[i - 1] == events[i]);
            assert(is_change(next.known, next.ids, rest[i - 1]));
        }
        assert forall|i: int, j: int| 0 <= i < j < events.len() implies subject(
            #[trigger] events[i],
        ) != subject(#[trigger] events[j]) by {
            if i > 0 {
                assert(rest[i - 1] == events[i]);
                assert(rest[j - 1] == events[j]);
            }
        }
    }
}

/// A poll in which no worker panics reports the changes of the library, and nothing
/// else: a game is added if it is owned and wasn't reported, and removed if it was
/// reported and is no longer owned, each once. A listener who held what was reported
/// before the poll holds the library after it.
pub proof fn law_poll_reports_the_changes(
    poll: PollView,
    events: Seq<GameEventView>,
    reported: Seq<i64>,
)
    requires
        poll.done == 0,
        poll.known.no_duplicates(),
        poll_sends(poll, events, reported),
    ensures
        reported.no_duplicates(),
        reported.to_set() == poll.ids.to_set(),
        heard_all(held(poll.known), events) == held(poll.ids),
        forall|i: int|
            0 <= i < events.len() ==> is_change(poll.known, poll.ids, #[trigger] events[i]),
        forall|i: int, j: int|
            0 <= i < j < events.len() ==> subject(#[trigger] events[i]) != subject(
                #[trigger] events[j],
            ),
{
    lemma_poll_changes(poll, events, reported);
    lemma_held_of_same_ids(reported, poll.ids);
}

/// A poll that brings what is reported already sends nothing.
pub proof fn law_unchanged_library_is_silent(
    poll: PollView,
    events: Seq<GameEventView>,
    reported: Seq<i64>,
)
    requires
        poll.done == 0,
        poll.known.no_duplicates(),
        poll.known.to_set() == poll.ids.to_set(),
        poll_sends(poll, events, reported),
    ensures
        events.len() == 0,
        reported == poll.known,
{
    lemma_poll_changes(poll, events, reported);
    lemma_held_of_same_ids(poll.known, poll.ids);
    if events.len() > 0 {
        assert(is_change(poll.known, poll.ids, events[0]));
    }
}

/// A poll comes to an end: with each game that is resolved fewer of the ids are
/// left, and then, with each game that is removed, fewer of the reported ones.
pub proof fn law_poll_comes_to_an_end(poll: PollView, step: WatchStep)
    requires
        0 <= poll.done <= poll.ids.len(),
        goes_on(poll, step),
    ensures
        match step {
            WatchStep::Resolve(resolve) => {
                let next = with_next_reported(resolve@);
                poll.done < next.done <= poll.ids.len() && next.ids == poll.ids
            },
            WatchStep::Send(send) => {
                let next = send@.1;
                &&& next.done == poll.ids.len()
                &&& next.ids == poll.ids
                &&& next.known.len() < poll.known.len()
            },
            _ => true,
        },
{
}

/// The ids among `ids` that are not among those reported, in their order, each once.
pub open spec fn new_ids(known: Seq<i64>, ids: Seq<i64>) -> Seq<i64>
    decreases ids.len(),
{
    if ids.len() == 0 {
        Seq::empty()
    } else if known.contains(ids[0]) {
        new_ids(known, ids.skip(1))
    } else {
        seq![ids[0]] + new_ids(known.push(ids[0]), ids.skip(1))
    }
}

/// The reported ids that are not among `ids`, in the order in which they were
/// reported.
pub open spec fn gone_ids(known: Seq<i64>, ids: Seq<i64>) -> Seq<i64>
    decreases known.len(),
{
    if known.len() == 0 {
        Seq::empty()
    } else if ids.contains(known[0]) {
        gone_ids(known.skip(1), ids)
    } else {
        seq![known[0]] + gone_ids(known.skip(1), ids)
    }
}

/// The event adds the game with this id.
pub open spec fn adds_id(event: GameEventView, id: i64) -> bool {
    event matches GameEventView::Added(game) && game.id == text::int_text(id as int)
}

/// The events add games with the ids `added`, and then remove those with the ids
/// `removed`, in these orders.
pub open spec fn adds_then_removes(
    events: Seq<GameEventView>,
    added: Seq<i64>,
    removed: Seq<i64>,
) -> bool {
    &&& events.len() == added.len() + removed.len()
    &&& forall|i: int| 0 <= i < added.len() ==> adds_id(#[trigger] events[i], added[i])
    &&& forall|i: int|
        added.len() <= i < events.len() ==> #[trigger] events[i] == removed_event(
            removed[i - added.len()],
        )
}

/// Known ids in front add nothing.
proof fn lemma_new_ids_behind(poll: PollView, from: int, to: int)
    requires
        0 <= from <= to <= poll.ids.len(),
        all_known(poll, from, to),
    ensures
        new_ids(poll.known, poll.ids.skip(from)) == new_ids(poll.known, poll.ids.skip(to)),
    decreases to - from,
{
    if from < to {
        assert(poll.known.contains(poll.ids[from]));
        assert(poll.ids.skip(from)[0] == poll.ids[from]);
        assert(poll.ids.skip(from).skip(1) =~= poll.ids.skip(from + 1));
        lemma_new_ids_behind(poll, from + 1, to);
    }
}

proof fn lemma_none_gone(known: Seq<i64>, ids: Seq<i64>)
    requires
        forall|k: int| 0 <= k < known.len() ==> ids.contains(#[trigger] known[k]),
    ensures
        gone_ids(known, ids) == Seq::<i64>::empty(),
    decreases known.len(),
{
    if known.len() > 0 {
        assert(ids.contains(known[0]));
        assert forall|k: int| 0 <= k < known.skip(1).len() implies ids.contains(
            #[trigger] known.skip(1)[k],
        ) by {
            assert(known.skip(1)[k] == known[k + 1]);
        }
        lemma_none_gone(known.skip(1), ids);
    }
}

proof fn lemma_first_gone(poll: PollView, k: int)
    requires
        is_first_gone(poll, k),
    ensures
        gone_ids(poll.known, poll.ids) == seq![poll.known[k]] + gone_ids(
            poll.known.remove(k),
            poll.ids,
        ),
    decreases k,
{
    let known = poll.known;
    if k == 0 {
        assert(known.remove(0) =~= known.skip(1));
    } else {
        let rest = PollView { known: known.skip(1), ..poll };
        assert(rest.known[k - 1] == known[k]);
        assert forall|j: int| 0 <= j < k - 1 implies rest.ids.contains(#[trigger] rest.known[j]) by {
            assert(rest.known[j] == known[j + 1]);
        }
        lemma_first_gone(rest, k - 1);
        assert(poll.ids.contains(known[0]));
        assert(known.remove(k)[0] == known[0]);
        assert(known.remove(k).skip(1) =~= rest.known.remove(k - 1));
    }
}

proof fn lemma_owned_is_not_gone(known: Seq<i64>, ids: Seq<i64>, id: i64)
    requires
        ids.contains(id),
    ensures
        gone_ids(known.push(id), ids) == gone_ids(known, ids),
    decreases known.len(),
{
    if known.len() == 0 {
        assert(known.push(id).skip(1) =~= Seq::empty());
        assert(known.push(id)[0] == id);
        assert(gone_ids(known.push(id).skip(1), ids) =~= Seq::empty());
    } else {
        assert(known.push(id).skip(1) =~= known.skip(1).push(id));
        assert(known.push(id)[0] == known[0]);
        lemma_owned_is_not_gone(known.skip(1), ids, id);
    }
}

/// One more addition in front.
proof fn lemma_order_after_adding(
    poll: PollView,
    events: Seq<GameEventView>,
    next: PollView,
)
    requires
        0 <= poll.done <= poll.ids.len(),
        events.len() > 0,
        adding_leads(poll, events[0], next),
        adds_then_removes(
            events.skip(1),
            new_ids(next.known, next.ids.skip(next.done)),
            gone_ids(next.known, next.ids),
        ),
    ensures
        adds_then_removes(
            events,
            new_ids(poll.known, poll.ids.skip(poll.done)),
            gone_ids(poll.known, poll.ids),
        ),
{
    let rest = events.skip(1);
    let at = lemma_adding(poll, events[0], next);
    let id = poll.ids[at];
    let added = new_ids(poll.known, poll.ids.skip(poll.done));
    let behind = new_ids(next.known, next.ids.skip(next.done));
    lemma_new_ids_behind(poll, poll.done, at);
    assert(poll.ids.skip(at)[0] == id);
    assert(poll.ids.skip(at).skip(1) =~= poll.ids.skip(at + 1));
    assert(added == seq![id] + behind);
    assert(poll.ids.contains(id));
    lemma_owned_is_not_gone(poll.known, poll.ids, id);
    assert forall|i: int| 0 <= i < added.len() implies adds_id(#[trigger] events[i], added[i]) by {
        if i > 0 {
            assert(adds_id(rest[i - 1], behind[i - 1]));
        }
    }
    assert forall|i: int| added.len() <= i < events.len() implies #[trigger] events[i]
        == removed_event(gone_ids(poll.known, poll.ids)[i - added.len()]) by {
        assert(rest[i - 1] == events[i]);
    }
}

/// One more removal in front.
proof fn lemma_order_after_removing(
    poll: PollView,
    events: Seq<GameEventView>,
    next: PollView,
)
    requires
        0 <= poll.done <= poll.ids.len(),
        poll.known.no_duplicates(),
        events.len() > 0,
        removing_leads(poll, events[0], next),
        adds_then_removes(
            events.skip(1),
            new_ids(next.known, next.ids.skip(next.done)),
            gone_ids(next.known, next.ids),
        ),
    ensures
        adds_then_removes(
            events,
            new_ids(poll.known, poll.ids.skip(poll.done)),
            gone_ids(poll.known, poll.ids),
        ),
{
    let rest = events.skip(1);
    let end = poll.ids.len() as int;
    let k = lemma_removing(poll, events[0], next);
    assert(poll.ids.skip(end) =~= Seq::empty());
    lemma_new_ids_behind(poll, poll.done, end);
    lemma_first_gone(poll, k);
    let removed = gone_ids(poll.known, poll.ids);
    let behind = gone_ids(next.known, poll.ids);
    assert(new_ids(next.known, poll.ids.skip(end)) =~= Seq::empty());
    assert forall|i: int| 0 <= i < events.len() implies #[trigger] events[i] == removed_event(
        removed[i],
    ) by {
        if i > 0 {
            assert(rest[i - 1] == removed_event(behind[i - 1]));
        }
    }
}

proof fn lemma_poll_order(poll: PollView, events: Seq<GameEventView>, reported: Seq<i64>)
    requires
        0 <= poll.done <= poll.ids.len(),
        poll.known.no_duplicates(),
        poll_sends(poll, events, reported),
    ensures
        adds_then_removes(
            events,
            new_ids(poll.known, poll.ids.skip(poll.done)),
            gone_ids(poll.known, poll.ids),
        ),
    decreases events.len(),
{
    if events.len() == 0 {
        let wait = choose|wait: WaitStep| #[trigger]
            goes_on(poll, WatchStep::Wait(wait)) && wait@ == reported;
        let end = poll.ids.len() as int;
        assert(poll.ids.skip(end) =~= Seq::empty());
        lemma_new_ids_behind(poll, poll.done, end);
        lemma_none_gone(poll.known, poll.ids);
    } else {
        let rest = events.skip(1);
        let next = choose|next: PollView| #[trigger]
            event_leads(poll, events[0], next) && poll_sends(next, rest, reported);
        lemma_event_keeps(poll, events[0], next);
        lemma_poll_order(next, rest, reported);
        if adding_leads(poll, events[0], next) {
            lemma_order_after_adding(poll, events, next);
        } else {
            lemma_order_after_removing(poll, events, next);
        }
    }
}

/// A poll in which no worker panics adds the games that are new, in the order in which
/// the poll brought their ids, and then removes those that are gone, in the order in
/// which they were reported.
pub proof fn law_poll_adds_then_removes(
    poll: PollView,
    events: Seq<GameEventView>,
    reported: Seq<i64>,
)
    requires
        poll.done == 0,
        poll.known.no_duplicates(),
        poll_sends(poll, events, reported),
    ensures
        adds_then_removes(
            events,
            new_ids(poll.known, poll.ids),
            gone_ids(poll.known, poll.ids),
        ),
{
    lemma_poll_order(poll, events, reported);
    assert(poll.ids.skip(0) =~= poll.ids);
}

/// What happens in a watch: an event is sent, a worker panics, or the next poll brings
/// the owned ids.
pub enum Turn {
    Sent(GameEventView),
    Panicked,
    Polled(Seq<i64>),
}

/// The turn leads from one state of a watch to the next.
pub open spec fn turn_leads(poll: PollView, turn: Turn, next: PollView) -> bool {
    match turn {
        Turn::Sent(event) => event_leads(poll, event, next),
        Turn::Panicked => exists|resolve: ResolveStep| #[trigger]
            goes_on(poll, WatchStep::Resolve(resolve)) && next == (PollView {
                done: resolve@.done + 1,
                ..resolve@
            }),
        Turn::Polled(ids) => exists|wait: WaitStep| #[trigger]
            goes_on(poll, WatchStep::Wait(wait)) && next == (PollView {
                known: wait@,
                ids,
                done: 0,
            }),
    }
}

/// A watch takes these turns, one after the other, over as many polls as there are, and
/// gets to `end`.
pub open spec fn watch_takes(poll: PollView, turns: Seq<Turn>, end: PollView) -> bool
    decreases turns.len(),
{
    if turns.len() == 0 {
        end == poll
    } else {
        exists|next: PollView| #[trigger]
            turn_leads(poll, turns[0], next) && watch_takes(next, turns.skip(1), end)
    }
}

/// The turn sends an event about the game with this id.
pub open spec fn tells_of(turn: Turn, id: Seq<char>) -> bool {
    turn matches Turn::Sent(event) && subject(event) == id
}

/// The turn adds a game.
pub open spec fn is_addition(turn: Turn) -> bool {
    turn matches Turn::Sent(GameEventView::Added(_))
}

/// The turn removes a game.
pub open spec fn is_removal(turn: Turn) -> bool {
    turn matches Turn::Sent(GameEventView::Removed { .. })
}

/// No turn from `from` up to `to` tells of the game with this id.
pub open spec fn silent_about(turns: Seq<Turn>, from: int, to: int, id: Seq<char>) -> bool {
    forall|k: int| from <= k < to ==> !tells_of(#[trigger] turns[k], id)
}

/// No poll begins from `from` up to `to`.
pub open spec fn within_poll(turns: Seq<Turn>, from: int, to: int) -> bool {
    forall|k: int| from <= k < to ==> !(#[trigger] turns[k] is Polled)
}

proof fn lemma_turn(poll: PollView, turn: Turn, next: PollView)
    requires
        poll.known.no_duplicates(),
        turn_leads(poll, turn, next),
    ensures
        next.known.no_duplicates(),
        match turn {
            Turn::Sent(event) => {
                &&& held(next.known) == heard(held(poll.known), event)
                &&& event is Added <==> !held(poll.known).contains(subject(event))
            },
            _ => held(next.known) == held(poll.known),
        },
{
    if let Turn::Sent(event) = turn {
        lemma_event_keeps(poll, event, next);
    }
}

/// The first event about a game adds it if it wasn't reported before, and removes it
/// if it was. This holds over many polls, and whether or not workers panic.
pub proof fn law_first_news_fits_what_was_reported(
    poll: PollView,
    turns: Seq<Turn>,
    end: PollView,
    j: int,
    id: Seq<char>,
)
    requires
        poll.known.no_duplicates(),
        watch_takes(poll, turns, end),
        0 <= j < turns.len(),
        tells_of(turns[j], id),
        silent_about(turns, 0, j, id),
    ensures
        is_addition(turns[j]) <==> !held(poll.known).contains(id),
        is_removal(turns[j]) <==> held(poll.known).contains(id),
    decreases j,
{
    let rest = turns.skip(1);
    let next = choose|next: PollView| #[trigger]
        turn_leads(poll, turns[0], next) && watch_takes(next, rest, end);
    lemma_turn(poll, turns[0], next);
    if j > 0 {
        assert(!tells_of(turns[0], id));
        assert(rest[j - 1] == turns[j]);
        assert forall|k: int| 0 <= k < j - 1 implies !tells_of(#[trigger] rest[k], id) by {
            assert(rest[k] == turns[k + 1]);
        }
        law_first_news_fits_what_was_reported(next, rest, end, j - 1, id);
    }
}

/// Over many polls, and whether or not workers panic, the additions and the removals
/// of a game alternate: of two events about it with none between them, one adds and
/// the other removes.
pub proof fn law_additions_and_removals_alternate(
    poll: PollView,
    turns: Seq<Turn>,
    end: PollView,
    i: int,
    j: int,
    id: Seq<char>,
)
    requires
        poll.known.no_duplicates(),
        watch_takes(poll, turns, end),
        0 <= i < j < turns.len(),
        tells_of(turns[i], id),
        tells_of(turns[j], id),
        silent_about(turns, i + 1, j, id),
    ensures
        is_addition(turns[i]) <==> is_removal(turns[j]),
        is_removal(turns[i]) <==> is_addition(turns[j]),
    decreases i,
{
    let rest = turns.skip(1);
    let next = choose|next: PollView| #[trigger]
        turn_leads(poll, turns[0], next) && watch_takes(next, rest, end);
    lemma_turn(poll, turns[0], next);
    assert(rest[j - 1] == turns[j]);
    assert forall|k: int| i <= k < j - 1 implies !tells_of(#[trigger] rest[k], id) by {
        assert(rest[k] == turns[k + 1]);
    }
    if i == 0 {
        law_first_news_fits_what_was_reported(next, rest, end, j - 1, id);
    } else {
        assert(rest[i - 1] == turns[i]);
        law_additions_and_removals_alternate(next, rest, end, i - 1, j - 1, id);
    }
}

proof fn lemma_turn_within_poll(poll: PollView, turn: Turn, next: PollView)
    requires
        poll.known.no_duplicates(),
        turn_leads(poll, turn, next),
        !(turn is Polled),
    ensures
        next.ids == poll.ids,
        is_removal(turn) ==> next.done == poll.ids.len(),
        !is_removal(turn) ==> poll.done < next.done <= poll.ids.len(),
        turn matches Turn::Sent(event) ==> (event is Added ==> subject(event) == text::int_text(
            poll.ids[next.done - 1] as int,
        )),
{
    if let Turn::Sent(event) = turn {
        if adding_leads(poll, event, next) {
            let at = lemma_adding(poll, event, next);
        } else {
            let k = lemma_removing(poll, event, next);
        }
    }
}

/// A game that is still to be added in a poll is one of those whose ids are left.
proof fn lemma_addition_lies_ahead(
    poll: PollView,
    turns: Seq<Turn>,
    end: PollView,
    j: int,
) -> (at: int)
    requires
        poll.known.no_duplicates(),
        watch_takes(poll, turns, end),
        0 <= j < turns.len(),
        within_poll(turns, 0, j),
        is_addition(turns[j]),
    ensures
        poll.done <= at < poll.ids.len(),
        tells_of(turns[j], text::int_text(poll.ids[at] as int)),
    decreases j,
{
    let rest = turns.skip(1);
    let next = choose|next: PollView| #[trigger]
        turn_leads(poll, turns[0], next) && watch_takes(next, rest, end);
    lemma_turn(poll, turns[0], next);
    if j == 0 {
        lemma_turn_within_poll(poll, turns[0], next);
        next.done - 1
    } else {
        assert(!(turns[0] is Polled));
        lemma_turn_within_poll(poll, turns[0], next);
        assert(rest[j - 1] == turns[j]);
        assert forall|k: int| 0 <= k < j - 1 implies !(#[trigger] rest[k] is Polled) by {
            assert(rest[k] == turns[k + 1]);
        }
        lemma_addition_lies_ahead(next, rest, end, j - 1)
    }
}

/// The first turn tells of an id that stands, among `ids`, before the one that the
/// second turn tells of.
pub open spec fn added_in_order(ids: Seq<i64>, first: Turn, second: Turn) -> bool {
    exists|a: int, b: int|
        {
            &&& 0 <= a < b < ids.len()
            &&& tells_of(first, text::int_text(#[trigger] ids[a] as int))
            &&& tells_of(second, text::int_text(#[trigger] ids[b] as int))
        }
}

/// Within a poll, whether or not workers panic, nothing is added once something was
/// removed, and games are added in the order in which the poll brought their ids.
pub proof fn law_poll_keeps_the_order(
    poll: PollView,
    turns: Seq<Turn>,
    end: PollView,
    i: int,
    j: int,
)
    requires
        0 <= poll.done,
        poll.known.no_duplicates(),
        watch_takes(poll, turns, end),
        0 <= i < j < turns.len(),
        within_poll(turns, 0, j),
        is_addition(turns[j]),
    ensures
        !is_removal(turns[i]),
        is_addition(turns[i]) ==> added_in_order(poll.ids, turns[i], turns[j]),
    decreases i,
{
    let rest = turns.skip(1);
    let next = choose|next: PollView| #[trigger]
        turn_leads(poll, turns[0], next) && watch_takes(next, rest, end);
    lemma_turn(poll, turns[0], next);
    assert(!(turns[0] is Polled));
    lemma_turn_within_poll(poll, turns[0], next);
    assert(rest[j - 1] == turns[j]);
    assert forall|k: int| 0 <= k < j - 1 implies !(#[trigger] rest[k] is Polled) by {
        assert(rest[k] == turns[k + 1]);
    }
    if i == 0 {
        let b = lemma_addition_lies_ahead(next, rest, end, j - 1);
        if is_addition(turns[0]) {
            let a = next.done - 1;
            assert(tells_of(turns[0], text::int_text(poll.ids[a] as int)));
            assert(tells_of(turns[j], text::int_text(poll.ids[b] as int)));
        }
    } else {
        assert(rest[i - 1] == turns[i]);
        law_poll_keeps_the_order(next, rest, end, i - 1, j - 1);
    }
}

/// What a listener holds after these turns.
pub open spec fn replayed(before: Set<Seq<char>>, turns: Seq<Turn>) -> Set<Seq<char>>
    decreases turns.len(),
{
    if turns.len() == 0 {
        before
    } else {
        match turns[0] {
            Turn::Sent(event) => replayed(heard(before, event), turns.skip(1)),
            _ => replayed(before, turns.skip(1)),
        }
    }
}

/// At any time, over many polls and whether or not workers panic, a listener who heard
/// all events holds what is reported.
pub proof fn law_replay_gives_what_is_reported(poll: PollView, turns: Seq<Turn>, end: PollView)
    requires
        poll.known.no_duplicates(),
        watch_takes(poll, turns, end),
    ensures
        end.known.no_duplicates(),
        replayed(held(poll.known), turns) == held(end.known),
    decreases turns.len(),
{
    if turns.len() > 0 {
        let rest = turns.skip(1);
        let next = choose|next: PollView| #[trigger]
            turn_leads(poll, turns[0], next) && watch_takes(next, rest, end);
        lemma_turn(poll, turns[0], next);
        law_replay_gives_what_is_reported(next, rest, end);
    }
}

/// No worker panics from `from` on.
pub open spec fn no_panic_since(turns: Seq<Turn>, from: int) -> bool {
    forall|k: int| from <= k < turns.len() ==> !(#[trigger] turns[k] is Panicked)
}

proof fn lemma_nothing_missed_since(poll: PollView, turns: Seq<Turn>, end: PollView, last: int)
    requires
        poll.known.no_duplicates(),
        watch_takes(poll, turns, end),
        0 <= last <= turns.len(),
        last == 0 ==> 0 <= poll.done <= poll.ids.len() && nothing_missed(poll),
        last > 0 ==> turns[last - 1] is Polled,
        no_panic_since(turns, last),
    ensures
        end.known.no_duplicates(),
        0 <= end.done <= end.ids.len(),
        nothing_missed(end),
    decreases turns.len(),
{
    if turns.len() > 0 {
        let rest = turns.skip(1);
        let next = choose|next: PollView| #[trigger]
            turn_leads(poll, turns[0], next) && watch_takes(next, rest, end);
        lemma_turn(poll, turns[0], next);
        if last == 0 {
            assert(!(turns[0] is Panicked));
            if let Turn::Sent(event) = turns[0] {
                lemma_event_keeps(poll, event, next);
            }
        }
        let later = if last == 0 {
            0
        } else {
            last - 1
        };
        assert forall|k: int| later <= k < rest.len() implies !(#[trigger] rest[k] is Panicked) by {
            assert(rest[k] == turns[k + 1]);
        }
        if later > 0 {
            assert(rest[later - 1] == turns[last - 1]);
        }
        lemma_nothing_missed_since(next, rest, end, later);
    }
}

/// Whenever a poll in which no worker panicked is over, the events of the whole watch,
/// from its start on, add up to the ids that the poll brought. `last` counts the turns
/// up to the beginning of that poll, or of an earlier one.
pub proof fn law_replay_gives_the_library(
    ids: Seq<i64>,
    turns: Seq<Turn>,
    end: PollView,
    wait: WaitStep,
    last: int,
)
    requires
        watch_takes(PollView { known: Seq::empty(), ids, done: 0 }, turns, end),
        goes_on(end, WatchStep::Wait(wait)),
        0 <= last <= turns.len(),
        last > 0 ==> turns[last - 1] is Polled,
        no_panic_since(turns, last),
    ensures
        replayed(Set::empty(), turns) == held(end.ids),
{
    let start = PollView { known: Seq::empty(), ids, done: 0 };
    assert(held(start.known) =~= Set::empty());
    law_replay_gives_what_is_reported(start, turns, end);
    lemma_nothing_missed_since(start, turns, end, last);
    law_poll_mirrors_library(end, WatchStep::Wait(wait));
    lemma_held_of_same_ids(end.known, end.ids);
}

/// A watch starts with nothing reported, and what is reported can be seen.
pub proof fn law_watch_starts_with_nothing(start: WaitStep, wait: WaitStep, known: &Vec<i64>)
    requires
        call_ensures(watch_games, (), start),
        call_ensures(WaitStep::known, (&wait,), known),
    ensures
        start@.len() == 0,
        known@ == wait@,
{
}

/// A poll, however it goes on, doesn't stop the watch.
pub proof fn law_poll_never_stops_the_watch(poll: PollView, step: WatchStep)
    requires
        goes_on(poll, step),
    ensures
        !(step is Stop),
{
}

/// How a watch goes on from here: with the first of the ids left that isn't reported, which
/// is resolved; without one, with the first reported id that the poll didn't bring, which
/// is removed; and without one of either, with the next poll.
pub open spec fn goes_on_rightly(known: Seq<i64>, ids: Seq<i64>, done: int, step: WatchStep) -> bool {
    let left = exists|at: int| done <= at < ids.len() && !known.contains(#[trigger] ids[at]);
    let gone = exists|k: int| 0 <= k < known.len() && !ids.contains(#[trigger] known[k]);
    match step {
        WatchStep::Resolve(resolve) => {
            &&& left
            &&& resolve@.known == known
            &&& resolve@.ids == ids
            &&& done <= resolve@.done < ids.len()
            &&& !known.contains(ids[resolve@.done])
            &&& forall|at: int| done <= at < resolve@.done ==> known.contains(#[trigger] ids[at])
        },
        WatchStep::Send(send) => {
            &&& !left
            &&& gone
            &&& send@.1.ids == ids
            &&& send@.1.done == ids.len()
            &&& exists|k: int|
                {
                    &&& 0 <= k < known.len()
                    &&& !ids.contains(#[trigger] known[k])
                    &&& forall|j: int| 0 <= j < k ==> ids.contains(#[trigger] known[j])
                    &&& send@.1.known == known.remove(k)
                    &&& send@.0 == (GameEventView::Removed {
                        storefront: Storefront::Gog,
                        game_id: text::int_text(known[k] as int),
                    })
                }
        },
        WatchStep::Wait(wait) => !left && !gone && wait@ == known,
        _ => false,
    }
}

proof fn lemma_goes_on_rightly(poll: PollView, step: WatchStep)
    requires
        goes_on(poll, step),
    ensures
        goes_on_rightly(poll.known, poll.ids, poll.done, step),
{
    match step {
        WatchStep::Resolve(resolve) => {
            assert(!poll.known.contains(poll.ids[resolve@.done]));
        },
        WatchStep::Send(send) => {
            let k = choose|k: int| #[trigger]
                is_first_gone(poll, k) && send@.0 == removed_event(poll.known[k]) && send@.1.known
                    == poll.known.remove(k);
            assert(!poll.ids.contains(poll.known[k]));
        },
        _ => {},
    }
}

/// A poll that brought the owned ids goes on with the first that isn't reported; it doesn't
/// stop the watch, and waits only if nothing has changed. One that failed changes nothing.
pub proof fn law_poll_goes_on<E>(wait: WaitStep, polled: Result<Vec<i64>, E>, step: WatchStep)
    requires
        call_ensures(WaitStep::polled::<E>, (wait, polled), step),
    ensures
        !(step is Stop),
        polled matches Ok(ids) ==> goes_on_rightly(wait@, ids@, 0, step),
        polled is Err ==> step == WatchStep::Wait(wait),
{
    if let Ok(ids) = polled {
        lemma_goes_on_rightly(PollView { known: wait@, ids: ids@, done: 0 }, step);
    }
}

/// Whatever the catalog answers for the id that is to be resolved, the game with that id is
/// reported as added, and is then known. After a panic of the worker the poll goes on
/// behind that id. Neither stops the watch.
pub proof fn law_resolved_game_is_reported(
    resolve: ResolveStep,
    id: i64,
    worked: Result<Result<Release, String>, String>,
    step: WatchStep,
)
    requires
        call_ensures(ResolveStep::id, (&resolve,), id),
        call_ensures(ResolveStep::resolved, (resolve, worked), step),
    ensures
        !(step is Stop),
        0 <= resolve@.done < resolve@.ids.len(),
        id == resolve@.ids[resolve@.done],
        !resolve@.known.contains(id),
        worked matches Ok(fetched) ==> (step matches WatchStep::Send(send) && send@.0
            == GameEventView::Added(games::resolved_game(id, fetched)) && send@.1.known
            == resolve@.known.push(id) && send@.1.ids == resolve@.ids && send@.1.done
            == resolve@.done + 1),
        worked is Err ==> goes_on_rightly(
            resolve@.known,
            resolve@.ids,
            resolve@.done + 1,
            step,
        ),
{
    if worked is Err {
        lemma_goes_on_rightly(PollView { done: resolve@.done + 1, ..resolve@ }, step);
    }
}

/// The watch stops exactly if an event didn't arrive; otherwise the poll goes on.
pub proof fn law_watch_stops_when_nobody_listens(sent: SentStep, arrived: bool, step: WatchStep)
    requires
        call_ensures(SentStep::sent, (sent, arrived), step),
    ensures
        step is Stop <==> !arrived,
        arrived ==> goes_on_rightly(sent@.known, sent@.ids, sent@.done, step),
{
    if arrived {
        lemma_goes_on_rightly(sent@, step);
    }
}

/// What is sent is the event of the step: an added game with all that it shows, or the id
/// of a removed one.
pub proof fn law_event_is_taken(send: SendStep, event: GameEvent, rest: SentStep)
    requires
        call_ensures(SendStep::take, (send,), (event, rest)),
    ensures
        rest@ == send@.1,
        event matches GameEvent::Added(game) ==> send@.0 == GameEventView::Added(game.deep_view()),
        event matches GameEvent::Removed { storefront, game_id } ==> send@.0 == (
        GameEventView::Removed { storefront, game_id: game_id@ }),
{
}

} // verus!
