use vstd::prelude::*;

use crate::pty::Session;

verus! {

/// What a manager holds, as mathematics: the live session of each id, and the
/// counter from which the next generation will be taken.
///
/// A map has at most one value per key, so in this model an id never has more
/// than one live session.
#[verifier::ext_equal]
pub struct ManagerState<H> {
    pub sessions: Map<Seq<char>, Session<H>>,
    pub counter: u64,
}

/// What a reader does after one read, as mathematics.
pub enum Reaction {
    /// Push an output event with this text, then read again.
    Forward { id: Seq<char>, text: Seq<char> },
    /// Push the exit event, then end.
    Exit { id: Seq<char>, code: Option<i32> },
    /// End without a word: the session was replaced or killed.
    Stop,
}

/// One operation on the manager, with what the outside world contributed to it.
pub enum Step<H> {
    /// The first half of a spawn: the occupant of `id`, if any, is evicted.
    Evict { id: Seq<char> },
    /// The second half of a spawn: a launched session is installed under `id`.
    Install { id: Seq<char>, handle: H },
    /// A kill of `id`; `terminated` says whether the process accepted it.
    Kill { id: Seq<char>, terminated: bool },
    /// The reader of one generation reports a read; an empty chunk is the end
    /// of its stream.
    Read { id: Seq<char>, generation: u64, chunk: Seq<u8> },
    /// A write to `id`, which leaves the handle of its session as `handle`.
    Write { id: Seq<char>, handle: H },
}

impl<H> ManagerState<H> {
    /// A manager that has spawned nothing yet.
    pub open spec fn initial() -> Self {
        ManagerState { sessions: Map::empty(), counter: 0 }
    }

    /// Whether `id` has a live session.
    pub open spec fn is_running(self, id: Seq<char>) -> bool {
        self.sessions.contains_key(id)
    }

    /// Whether the live session of `id` is the one spawned as `generation`.
    /// A reader whose generation is not current is stale.
    pub open spec fn is_current(self, id: Seq<char>, generation: u64) -> bool {
        self.sessions.contains_key(id) && self.sessions[id].generation == generation
    }

    /// The counter after one more generation was taken from it. It wraps
    /// around at the end of its range, as a fetch-and-increment does.
    pub open spec fn following_counter(self) -> u64 {
        if self.counter == u64::MAX {
            0
        } else {
            (self.counter + 1) as u64
        }
    }

    /// Every live generation was taken from the counter before its present
    /// value. This holds from the start until the counter wraps around.
    pub open spec fn ordered(self) -> bool {
        forall|id: Seq<char>| #[trigger]
            self.sessions.contains_key(id) ==> self.sessions[id].generation < self.counter
    }

    /// No two live sessions share a generation: a generation names one spawn,
    /// whatever id it was spawned under.
    pub open spec fn distinct_generations(self) -> bool {
        forall|a: Seq<char>, b: Seq<char>|
            #![trigger self.sessions.contains_key(a), self.sessions.contains_key(b)]
            self.sessions.contains_key(a) && self.sessions.contains_key(b)
                && self.sessions[a].generation == self.sessions[b].generation ==> a == b
    }

    /// The state without the session of `id`.
    pub open spec fn evict(self, id: Seq<char>) -> Self {
        ManagerState { sessions: self.sessions.remove(id), counter: self.counter }
    }

    /// The state after a session with `handle` was installed under `id`: it
    /// takes the counter's value as its generation and replaces any occupant.
    pub open spec fn install(self, id: Seq<char>, handle: H) -> Self {
        ManagerState {
            sessions: self.sessions.insert(id, Session { generation: self.counter, handle }),
            counter: self.following_counter(),
        }
    }

    /// The state after the stream of `generation` ended: its session leaves
    /// if it still is the current one, and nothing changes if it is not.
    pub open spec fn end_stream(self, id: Seq<char>, generation: u64) -> Self {
        if self.is_current(id, generation) {
            self.evict(id)
        } else {
            self
        }
    }

    /// The state after I/O on the handle of `id` left it as `handle`. The
    /// session keeps its generation; without a session nothing changes.
    pub open spec fn with_handle(self, id: Seq<char>, handle: H) -> Self {
        if self.is_running(id) {
            ManagerState {
                sessions: self.sessions.insert(
                    id,
                    Session { generation: self.sessions[id].generation, handle },
                ),
                counter: self.counter,
            }
        } else {
            self
        }
    }

    /// The state after a reader reported `chunk`.
    pub open spec fn after_read(self, id: Seq<char>, generation: u64, chunk: Seq<u8>) -> Self {
        if chunk.len() == 0 {
            self.end_stream(id, generation)
        } else {
            self
        }
    }

    /// What the reader of `generation` does after reading `chunk`, whose
    /// lossy decoding is `text`. A stale reader stops silently, whatever it
    /// read. A current one forwards a chunk that holds bytes, all of it, and
    /// announces the exit once at the end of its stream.
    pub open spec fn reaction(
        self,
        id: Seq<char>,
        generation: u64,
        chunk: Seq<u8>,
        text: Seq<char>,
    ) -> Reaction {
        if !self.is_current(id, generation) {
            Reaction::Stop
        } else if chunk.len() == 0 {
            Reaction::Exit { id, code: None }
        } else {
            Reaction::Forward { id, text }
        }
    }

    /// The state after `step`.
    pub open spec fn apply(self, step: Step<H>) -> Self {
        match step {
            Step::Evict { id } => self.evict(id),
            Step::Install { id, handle } => self.install(id, handle),
            Step::Kill { id, terminated } => self.evict(id),
            Step::Read { id, generation, chunk } => self.after_read(id, generation, chunk),
            Step::Write { id, handle } => self.with_handle(id, handle),
        }
    }

    /// The session for which `step` pushes an exit event, by id and
    /// generation, if it pushes one: a kill that the process accepted, for
    /// the session it removed, and the end of a stream, for its own
    /// generation if that still is the current one.
    pub open spec fn exit_of(self, step: Step<H>) -> Option<(Seq<char>, u64)> {
        match step {
            Step::Kill { id, terminated } => if terminated && self.is_running(id) {
                Some((id, self.sessions[id].generation))
            } else {
                None
            },
            Step::Read { id, generation, chunk } => if chunk.len() == 0 && self.is_current(
                id,
                generation,
            ) {
                Some((id, generation))
            } else {
                None
            },
            _ => None,
        }
    }

    /// The state after all of `steps`, in order.
    pub open spec fn run(self, steps: Seq<Step<H>>) -> Self
        decreases steps.len(),
    {
        if steps.len() == 0 {
            self
        } else {
            self.apply(steps[0]).run(steps.drop_first())
        }
    }

    /// How many exit events `steps` push for the session of `id` that was
    /// spawned as `generation`.
    pub open spec fn exit_count(self, steps: Seq<Step<H>>, id: Seq<char>, generation: u64) -> nat
        decreases steps.len(),
    {
        if steps.len() == 0 {
            0
        } else {
            let here: nat = if self.exit_of(steps[0]) == Some((id, generation)) {
                1
            } else {
                0
            };
            here + self.apply(steps[0]).exit_count(steps.drop_first(), id, generation)
        }
    }
}

/// How many sessions `steps` install.
pub open spec fn installs<H>(steps: Seq<Step<H>>) -> nat
    decreases steps.len(),
{
    if steps.len() == 0 {
        0
    } else {
        let here: nat = if steps[0] is Install {
            1
        } else {
            0
        };
        here + installs(steps.drop_first())
    }
}

/// Whether the counter of `state` can serve all installs of `steps` without
/// wrapping around.
pub open spec fn counter_lasts<H>(state: ManagerState<H>, steps: Seq<Step<H>>) -> bool {
    state.counter + installs(steps) <= u64::MAX
}

/// A step keeps the live generations below the counter, as long as the
/// counter does not wrap around in it.
pub proof fn lemma_step_keeps_order<H>(state: ManagerState<H>, step: Step<H>)
    requires
        state.ordered(),
        step is Install ==> state.counter < u64::MAX,
    ensures
        state.apply(step).ordered(),
        state.apply(step).counter == state.counter + (if step is Install {
            1int
        } else {
            0int
        }),
{
    let after = state.apply(step);
    assert forall|id: Seq<char>| #[trigger]
        after.sessions.contains_key(id) implies after.sessions[id].generation < after.counter by {
        match step {
            Step::Install { id: target, handle } => {
                if id != target {
                    assert(state.sessions.contains_key(id));
                }
            },
            _ => {
                assert(state.sessions.contains_key(id));
            },
        }
    }
}

/// The live generations stay below the counter over any sequence of
/// operations that the counter can serve.
pub proof fn law_order_is_kept<H>(state: ManagerState<H>, steps: Seq<Step<H>>)
    requires
        state.ordered(),
        counter_lasts(state, steps),
    ensures
        ManagerState::<H>::initial().ordered(),
        state.run(steps).ordered(),
        state.run(steps).counter == state.counter + installs(steps),
    decreases steps.len(),
{
    if steps.len() > 0 {
        lemma_step_keeps_order(state, steps[0]);
        law_order_is_kept(state.apply(steps[0]), steps.drop_first());
    }
}

/// A generation names one spawn: over any sequence of operations that the
/// counter can serve, no two sessions that are live at the same time share a
/// generation, whatever their ids.
pub proof fn law_generations_identify_sessions<H>(state: ManagerState<H>, steps: Seq<Step<H>>)
    requires
        state.ordered(),
        state.distinct_generations(),
        counter_lasts(state, steps),
    ensures
        ManagerState::<H>::initial().distinct_generations(),
        state.run(steps).distinct_generations(),
    decreases steps.len(),
{
    if steps.len() > 0 {
        let step = steps[0];
        let after = state.apply(step);
        lemma_step_keeps_order(state, step);
        assert forall|a: Seq<char>, b: Seq<char>|
            #![trigger after.sessions.contains_key(a), after.sessions.contains_key(b)]
            after.sessions.contains_key(a) && after.sessions.contains_key(b)
                && after.sessions[a].generation == after.sessions[b].generation implies a == b by {
            match step {
                Step::Install { id: target, handle } => {
                    if a != target {
                        assert(state.sessions.contains_key(a));
                    }
                    if b != target {
                        assert(state.sessions.contains_key(b));
                    }
                },
                _ => {
                    assert(state.sessions.contains_key(a));
                    assert(state.sessions.contains_key(b));
                },
            }
        }
        law_generations_identify_sessions(after, steps.drop_first());
    }
}

/// An operation on an id without a live session changes nothing and pushes
/// no event: a kill, whatever the process would have said, a write, whatever
/// it would have done to a handle, an eviction, and every report of a reader.
pub proof fn law_absent_id_is_untouched<H>(
    state: ManagerState<H>,
    id: Seq<char>,
    terminated: bool,
    handle: H,
    generation: u64,
    chunk: Seq<u8>,
    text: Seq<char>,
)
    requires
        !state.is_running(id),
    ensures
        state.apply(Step::Kill { id, terminated }) == state,
        state.exit_of(Step::Kill { id, terminated }) == None::<(Seq<char>, u64)>,
        state.apply(Step::Write { id, handle }) == state,
        state.apply(Step::Evict { id }) == state,
        state.apply(Step::Read { id, generation, chunk }) == state,
        state.exit_of(Step::Read { id, generation, chunk }) == None::<(Seq<char>, u64)>,
        state.reaction(id, generation, chunk, text) == Reaction::Stop,
{
    assert(state.evict(id).sessions =~= state.sessions);
}

/// The reader of the current generation forwards every chunk that holds
/// bytes, whatever the bytes are, with the text that was decoded from all of
/// them; doing so changes nothing and announces no exit.
pub proof fn law_current_reader_forwards_every_chunk<H>(
    state: ManagerState<H>,
    id: Seq<char>,
    generation: u64,
    chunk: Seq<u8>,
    text: Seq<char>,
)
    requires
        state.is_current(id, generation),
        chunk.len() > 0,
    ensures
        state.reaction(id, generation, chunk, text) == (Reaction::Forward { id, text }),
        state.apply(Step::Read { id, generation, chunk }) == state,
        state.exit_of(Step::Read { id, generation, chunk }) == None::<(Seq<char>, u64)>,
{
}

/// The exit events that are counted are the ones that are pushed: a reader
/// is told to announce the exit exactly when its report is the step that
/// owns the exit of its generation, and a kill owns the exit of the session
/// it removed exactly when there was one and its process accepted the kill.
pub proof fn law_counted_exits_are_pushed<H>(
    state: ManagerState<H>,
    id: Seq<char>,
    generation: u64,
    chunk: Seq<u8>,
    text: Seq<char>,
    terminated: bool,
)
    ensures
        (state.reaction(id, generation, chunk, text) is Exit) == (state.exit_of(
            Step::Read { id, generation, chunk },
        ) == Some((id, generation))),
        state.exit_of(Step::Read { id, generation, chunk }) is Some ==> state.exit_of(
            Step::Read { id, generation, chunk },
        ) == Some((id, generation)),
        state.exit_of(Step::Kill { id, terminated }) is Some == (terminated && state.is_running(
            id,
        )),
        state.exit_of(Step::Kill { id, terminated }) is Some ==> state.exit_of(
            Step::Kill { id, terminated },
        ) == Some((id, state.sessions[id].generation)),
{
}

/// A generation that was handed out and is no longer current stays silent:
/// whatever happens later, no exit event is pushed for it.
pub proof fn law_spent_generation_is_silent<H>(
    state: ManagerState<H>,
    steps: Seq<Step<H>>,
    id: Seq<char>,
    generation: u64,
)
    requires
        state.ordered(),
        counter_lasts(state, steps),
        generation < state.counter,
        !state.is_current(id, generation),
    ensures
        state.exit_count(steps, id, generation) == 0,
    decreases steps.len(),
{
    if steps.len() > 0 {
        let step = steps[0];
        let after = state.apply(step);
        lemma_step_keeps_order(state, step);
        assert(!after.is_current(id, generation));
        law_spent_generation_is_silent(after, steps.drop_first(), id, generation);
    }
}

/// No session has its exit announced twice: over any sequence of operations
/// that the counter can serve, at most one exit event is pushed for a given
/// id and generation, whether a kill or the end of the stream comes first.
pub proof fn law_exit_at_most_once<H>(
    state: ManagerState<H>,
    steps: Seq<Step<H>>,
    id: Seq<char>,
    generation: u64,
)
    requires
        state.ordered(),
        counter_lasts(state, steps),
    ensures
        state.exit_count(steps, id, generation) <= 1,
    decreases steps.len(),
{
    if steps.len() > 0 {
        let step = steps[0];
        let after = state.apply(step);
        lemma_step_keeps_order(state, step);
        if state.exit_of(step) == Some((id, generation)) {
            assert(state.is_current(id, generation));
            assert(!after.is_current(id, generation));
            law_spent_generation_is_silent(after, steps.drop_first(), id, generation);
        } else {
            law_exit_at_most_once(after, steps.drop_first(), id, generation);
        }
    }
}

/// A session that ends by a kill which its process accepted, or by the end of
/// its own stream, has its exit announced exactly once: by that step, and by
/// no step after it.
pub proof fn law_exit_exactly_once<H>(
    state: ManagerState<H>,
    ending: Step<H>,
    later: Seq<Step<H>>,
    id: Seq<char>,
    generation: u64,
)
    requires
        state.ordered(),
        counter_lasts(state, later),
        state.is_current(id, generation),
        ending == (Step::<H>::Kill { id, terminated: true }) || ending == (Step::<H>::Read {
            id,
            generation,
            chunk: Seq::<u8>::empty(),
        }),
    ensures
        state.exit_of(ending) == Some((id, generation)),
        !state.apply(ending).is_running(id),
        state.exit_count(seq![ending] + later, id, generation) == 1,
{
    let steps = seq![ending] + later;
    let after = state.apply(ending);
    assert(steps[0] == ending);
    assert(steps.drop_first() =~= later);
    lemma_step_keeps_order(state, ending);
    law_spent_generation_is_silent(after, later, id, generation);
}

/// A session is running right after it was installed, and no longer running
/// right after a kill of its id, an eviction, or the end of its own stream.
pub proof fn law_running_follows_lifecycle<H>(
    state: ManagerState<H>,
    id: Seq<char>,
    handle: H,
    generation: u64,
)
    ensures
        state.install(id, handle).is_running(id),
        state.install(id, handle).is_current(id, state.counter),
        !state.evict(id).is_running(id),
        state.is_current(id, generation) ==> !state.end_stream(id, generation).is_running(id),
        !state.is_running(id) ==> state.evict(id) == state,
        !state.is_current(id, generation) ==> state.end_stream(id, generation) == state,
{
    if !state.is_running(id) {
        assert(state.evict(id).sessions =~= state.sessions);
    }
}

/// Spawning again under an id that is running leaves that id with one live
/// session, of a generation strictly greater than the one it replaces, and
/// the reader of the replaced generation never speaks again: every chunk it
/// reports makes it stop, and no exit event is ever pushed for it.
pub proof fn law_respawn_supersedes<H>(
    state: ManagerState<H>,
    id: Seq<char>,
    handle: H,
    later: Seq<Step<H>>,
    chunk: Seq<u8>,
    text: Seq<char>,
)
    requires
        state.ordered(),
        state.is_running(id),
        state.counter < u64::MAX,
        counter_lasts(state.install(id, handle), later),
    ensures
        state.evict(id).install(id, handle) == state.install(id, handle),
        state.install(id, handle).is_running(id),
        state.install(id, handle).sessions[id].generation > state.sessions[id].generation,
        state.install(id, handle).reaction(id, state.sessions[id].generation, chunk, text)
            == Reaction::Stop,
        state.install(id, handle).after_read(id, state.sessions[id].generation, chunk)
            == state.install(id, handle),
        state.install(id, handle).exit_count(later, id, state.sessions[id].generation) == 0,
{
    let after = state.install(id, handle);
    let old_generation = state.sessions[id].generation;
    assert(state.evict(id).install(id, handle).sessions =~= after.sessions);
    lemma_step_keeps_order(state, Step::Install { id, handle });
    assert(after == state.apply(Step::Install { id, handle }));
    law_spent_generation_is_silent(after, later, id, old_generation);
}

} // verus!
