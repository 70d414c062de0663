use std::collections::HashMap;
use vstd::prelude::*;
use vstd::string::*;
use vstd::utf8::{decode_utf8, valid_utf8};

use crate::error::PtyError;
use crate::lifecycle::{ManagerState, Reaction};
use crate::text::{decode_lossy, lemma_lossy_keeps_valid_text, str_eq, utf8_lossy};

verus! {

/// Columns of the viewport that a new pseudo-terminal is opened with.
pub const INITIAL_COLS: u16 = 80;

/// Rows of the viewport that a new pseudo-terminal is opened with.
pub const INITIAL_ROWS: u16 = 24;

/// The most bytes that a reader asks for in one read.
pub const READ_CHUNK_SIZE: usize = 4096;

/// What to launch, and under which id.
#[derive(Debug, Clone)]
pub struct ProcessConfig {
    pub id: String,
    pub command: String,
    pub args: Vec<String>,
    pub working_dir: Option<String>,
    pub env: HashMap<String, String>,
}

/// A chunk of decoded output of the session `id`.
#[derive(Debug, Clone)]
pub struct ProcessOutput {
    pub id: String,
    pub data: String,
}

/// The end of the session `id`. The code is the exit status where one is
/// known.
#[derive(Debug, Clone)]
pub struct ProcessExit {
    pub id: String,
    pub code: Option<i32>,
}

/// The viewport of a pseudo-terminal, in character cells and in pixels.
#[derive(Debug, Clone, Copy, PartialEq, Eq, Structural)]
pub struct Viewport {
    pub rows: u16,
    pub cols: u16,
    pub pixel_width: u16,
    pub pixel_height: u16,
}

/// One live session: the I/O handles of a spawned process, opaque to the
/// manager, and the generation it was spawned as.
pub struct Session<H> {
    pub generation: u64,
    pub handle: H,
}

/// What a reader is to do after it reported a read.
#[derive(Debug, Clone)]
pub enum ReaderAction {
    /// Push this output event, then read again.
    Forward(ProcessOutput),
    /// Push this exit event, then end.
    Exit(ProcessExit),
    /// End without pushing anything.
    Stop,
}

impl ProcessOutput {
    /// The output event of `id` that carries `data`.
    pub fn new(id: &str, data: String) -> (event: ProcessOutput)
        ensures
            event.id@ == id@,
            event.data@ == data@,
    {
        ProcessOutput { id: id.to_owned(), data }
    }
}

impl ProcessExit {
    /// The exit event of `id`, with no code.
    pub fn new(id: &str) -> (event: ProcessExit)
        ensures
            event.id@ == id@,
            event.code == None::<i32>,
    {
        ProcessExit { id: id.to_owned(), code: None }
    }
}

impl Viewport {
    /// A viewport of `cols` by `rows` cells that leaves the pixel size open.
    pub fn new(cols: u16, rows: u16) -> (viewport: Viewport)
        ensures
            viewport == (Viewport { rows, cols, pixel_width: 0, pixel_height: 0 }),
    {
        Viewport { rows, cols, pixel_width: 0, pixel_height: 0 }
    }

    /// The viewport that every new pseudo-terminal is opened with.
    pub fn initial() -> (viewport: Viewport)
        ensures
            viewport == (Viewport { rows: 24, cols: 80, pixel_width: 0, pixel_height: 0 }),
    {
        Viewport::new(INITIAL_COLS, INITIAL_ROWS)
    }
}

impl View for ReaderAction {
    type V = Reaction;

    open spec fn view(&self) -> Reaction {
        match self {
            ReaderAction::Forward(event) => Reaction::Forward { id: event.id@, text: event.data@ },
            ReaderAction::Exit(event) => Reaction::Exit { id: event.id@, code: event.code },
            ReaderAction::Stop => Reaction::Stop,
        }
    }
}

/// A session as the manager stores it, under its id.
struct Slot<H> {
    id: String,
    session: Session<H>,
}

/// Whether some slot is filed under `id`.
spec fn has_slot<H>(slots: Seq<Slot<H>>, id: Seq<char>) -> bool {
    exists|i: int| 0 <= i < slots.len() && #[trigger] slots[i].id@ == id
}

/// The place of a slot filed under `id`.
spec fn slot_index<H>(slots: Seq<Slot<H>>, id: Seq<char>) -> int {
    choose|i: int| 0 <= i < slots.len() && #[trigger] slots[i].id@ == id
}

/// No two slots are filed under the same id.
spec fn distinct_ids<H>(slots: Seq<Slot<H>>) -> bool {
    forall|i: int, j: int|
        0 <= i < j < slots.len() ==> #[trigger] slots[i].id@ != #[trigger] slots[j].id@
}

/// The sessions of `slots`, by id.
spec fn sessions_of<H>(slots: Seq<Slot<H>>) -> Map<Seq<char>, Session<H>> {
    Map::new(|id: Seq<char>| has_slot(slots, id), |id: Seq<char>| slots[slot_index(slots, id)].session)
}

/// Where ids are distinct, the slot at `i` is the one that its id finds.
proof fn lemma_slot_found<H>(slots: Seq<Slot<H>>, i: int)
    requires
        distinct_ids(slots),
        0 <= i < slots.len(),
    ensures
        has_slot(slots, slots[i].id@),
        slot_index(slots, slots[i].id@) == i,
        sessions_of(slots).contains_key(slots[i].id@),
        sessions_of(slots)[slots[i].id@] == slots[i].session,
{
    let id = slots[i].id@;
    assert(0 <= i < slots.len() && slots[i].id@ == id);
    let j = slot_index(slots, id);
    assert(0 <= j < slots.len() && slots[j].id@ == id);
    if j < i {
        assert(slots[j].id@ != slots[i].id@);
    } else if i < j {
        assert(slots[i].id@ != slots[j].id@);
    }
}

/// Filing a slot under an id that is not in use adds its session.
proof fn lemma_slot_pushed<H>(slots: Seq<Slot<H>>, slot: Slot<H>)
    requires
        distinct_ids(slots),
        !has_slot(slots, slot.id@),
    ensures
        distinct_ids(slots.push(slot)),
        sessions_of(slots.push(slot)) == sessions_of(slots).insert(slot.id@, slot.session),
{
    let after = slots.push(slot);
    assert forall|i: int, j: int| 0 <= i < j < after.len() implies #[trigger] after[i].id@
        != #[trigger] after[j].id@ by {
        if j == slots.len() {
            assert(0 <= i < slots.len() && slots[i].id@ == after[i].id@);
        } else {
            assert(slots[i].id@ != slots[j].id@);
        }
    }
    let expected = sessions_of(slots).insert(slot.id@, slot.session);
    assert forall|id: Seq<char>| sessions_of(after).contains_key(id) == expected.contains_key(
        id,
    ) by {
        if has_slot(after, id) {
            let i = slot_index(after, id);
            if i < slots.len() {
                assert(0 <= i < slots.len() && slots[i].id@ == id);
            }
        }
        if has_slot(slots, id) {
            let i = slot_index(slots, id);
            assert(0 <= i < after.len() && after[i].id@ == id);
        }
        if id == slot.id@ {
            assert(0 <= slots.len() < after.len() && after[slots.len() as int].id@ == id);
        }
    }
    assert forall|id: Seq<char>| sessions_of(after).contains_key(id) implies sessions_of(after)[id]
        == expected[id] by {
        let i = slot_index(after, id);
        lemma_slot_found(after, i);
        if i < slots.len() {
            lemma_slot_found(slots, i);
        }
    }
    assert(sessions_of(after) =~= expected);
}

/// Taking the slot at `i` out removes the session of its id, and no other.
proof fn lemma_slot_removed<H>(slots: Seq<Slot<H>>, i: int)
    requires
        distinct_ids(slots),
        0 <= i < slots.len(),
    ensures
        distinct_ids(slots.remove(i)),
        !has_slot(slots.remove(i), slots[i].id@),
        sessions_of(slots.remove(i)) == sessions_of(slots).remove(slots[i].id@),
{
    let after = slots.remove(i);
    let gone = slots[i].id@;
    assert forall|a: int| 0 <= a < after.len() implies #[trigger] after[a] == slots[if a < i {
        a
    } else {
        a + 1
    }] by {}
    assert forall|a: int, b: int| 0 <= a < b < after.len() implies #[trigger] after[a].id@
        != #[trigger] after[b].id@ by {
        let x = if a < i { a } else { a + 1 };
        let y = if b < i { b } else { b + 1 };
        assert(slots[x].id@ != slots[y].id@);
    }
    assert(!has_slot(after, gone)) by {
        if has_slot(after, gone) {
            let a = slot_index(after, gone);
            let x = if a < i { a } else { a + 1 };
            assert(after[a] == slots[x]);
            if x < i {
                assert(slots[x].id@ != slots[i].id@);
            } else {
                assert(slots[i].id@ != slots[x].id@);
            }
        }
    }
    let expected = sessions_of(slots).remove(gone);
    assert forall|id: Seq<char>| sessions_of(after).contains_key(id) == expected.contains_key(
        id,
    ) by {
        if has_slot(after, id) {
            let a = slot_index(after, id);
            let x = if a < i { a } else { a + 1 };
            assert(after[a] == slots[x]);
            assert(0 <= x < slots.len() && slots[x].id@ == id);
        }
        if has_slot(slots, id) && id != gone {
            let x = slot_index(slots, id);
            let a = if x < i { x } else { x - 1 };
            assert(after[a] == slots[x]);
            assert(0 <= a < after.len() && after[a].id@ == id);
        }
    }
    assert forall|id: Seq<char>| sessions_of(after).contains_key(id) implies sessions_of(after)[id]
        == expected[id] by {
        let a = slot_index(after, id);
        let x = if a < i { a } else { a + 1 };
        assert(after[a] == slots[x]);
        lemma_slot_found(after, a);
        lemma_slot_found(slots, x);
    }
    assert(sessions_of(after) =~= expected);
}

/// Changing the session of the slot at `i`, and not its id, changes the
/// session of that id, and no other.
proof fn lemma_slot_updated<H>(slots: Seq<Slot<H>>, i: int, slot: Slot<H>)
    requires
        distinct_ids(slots),
        0 <= i < slots.len(),
        slot.id@ == slots[i].id@,
    ensures
        distinct_ids(slots.update(i, slot)),
        sessions_of(slots.update(i, slot)) == sessions_of(slots).insert(slot.id@, slot.session),
{
    let after = slots.update(i, slot);
    assert forall|a: int| 0 <= a < after.len() implies (#[trigger] after[a]).id@ == slots[a].id@ by {}
    assert forall|a: int, b: int| 0 <= a < b < after.len() implies #[trigger] after[a].id@
        != #[trigger] after[b].id@ by {
        assert(slots[a].id@ != slots[b].id@);
    }
    let expected = sessions_of(slots).insert(slot.id@, slot.session);
    lemma_slot_found(slots, i);
    assert forall|id: Seq<char>| sessions_of(after).contains_key(id) == expected.contains_key(
        id,
    ) by {
        if has_slot(after, id) {
            let a = slot_index(after, id);
            assert(0 <= a < slots.len() && slots[a].id@ == id);
        }
        if has_slot(slots, id) {
            let a = slot_index(slots, id);
            assert(0 <= a < after.len() && after[a].id@ == id);
        }
    }
    assert forall|id: Seq<char>| sessions_of(after).contains_key(id) implies sessions_of(after)[id]
        == expected[id] by {
        let a = slot_index(after, id);
        lemma_slot_found(after, a);
        lemma_slot_found(slots, a);
    }
    assert(sessions_of(after) =~= expected);
}

/// The registry of live sessions and the counter of generations.
///
/// The manager does no I/O. It decides: which session an operation is about,
/// whether a reader is stale, who owns the exit event. The caller holds it
/// behind one lock, performs the I/O on the handles it hands out, and pushes
/// the events it returns. `H` is whatever the caller keeps per session.
///
/// Its view is a [`ManagerState`], and each method that changes it takes one
/// [`crate::lifecycle::Step`] of that model: `evict`, `spawn_process`
/// (install), `kill_process`, `read_output` and `write_to_process`. What is
/// proved of all sequences of steps therefore holds of every order in which
/// threads get hold of the lock.
pub struct PtyManager<H> {
    slots: Vec<Slot<H>>,
    spawn_counter: u64,
}

impl<H> View for PtyManager<H> {
    type V = ManagerState<H>;

    closed spec fn view(&self) -> ManagerState<H> {
        ManagerState { sessions: sessions_of(self.slots@), counter: self.spawn_counter }
    }
}

impl<H> PtyManager<H> {
    /// The registry files at most one session under an id. `new` makes a
    /// manager of which this holds and every method keeps it, so it holds
    /// of every manager there is: the fields are private, and no other code
    /// can make or change one.
    pub closed spec fn wf(&self) -> bool {
        distinct_ids(self.slots@)
    }

    /// A manager without sessions, whose first generation will be 0.
    pub fn new() -> (manager: Self)
        ensures
            manager.wf(),
            manager@ == ManagerState::<H>::initial(),
    {
        let manager = PtyManager { slots: Vec::new(), spawn_counter: 0 };
        assert(manager@.sessions =~= Map::<Seq<char>, Session<H>>::empty());
        manager
    }

    /// The place of the slot filed under `id`, if there is one.
    fn find(&self, id: &str) -> (place: Option<usize>)
        requires
            self.wf(),
        ensures
            place matches Some(i) ==> i < self.slots@.len() && self.slots@[i as int].id@ == id@,
            place is Some == self@.is_running(id@),
    {
        let mut i: usize = 0;
        while i < self.slots.len()
            invariant
                self.wf(),
                i <= self.slots@.len(),
                forall|k: int| 0 <= k < i ==> (#[trigger] self.slots@[k]).id@ != id@,
            decreases self.slots@.len() - i,
        {
            if str_eq(self.slots[i].id.as_str(), id) {
                proof {
                    lemma_slot_found(self.slots@, i as int);
                }
                return Some(i);
            }
            i = i + 1;
        }
        assert(!has_slot(self.slots@, id@));
        None
    }

    /// Whether `id` has a live session. Changes nothing.
    pub fn is_running(&self, id: &str) -> (running: bool)
        requires
            self.wf(),
        ensures
            running == self@.is_running(id@),
    {
        self.find(id).is_some()
    }

    /// The generation of the live session of `id`, if it has one.
    pub fn generation_of(&self, id: &str) -> (generation: Option<u64>)
        requires
            self.wf(),
        ensures
            generation == (if self@.is_running(id@) {
                Some(self@.sessions[id@].generation)
            } else {
                None
            }),
    {
        match self.find(id) {
            Some(i) => {
                proof {
                    lemma_slot_found(self.slots@, i as int);
                }
                Some(self.slots[i].session.generation)
            },
            None => None,
        }
    }

    /// The first half of a spawn: takes the session of `id` out of the
    /// registry, if it has one, and hands it over so that its process can be
    /// asked to terminate. No exit event belongs to a session that leaves
    /// this way.
    pub fn evict(&mut self, id: &str) -> (evicted: Option<Session<H>>)
        requires
            old(self).wf(),
        ensures
            final(self).wf(),
            final(self)@ == old(self)@.evict(id@),
            evicted == (if old(self)@.is_running(id@) {
                Some(old(self)@.sessions[id@])
            } else {
                None
            }),
    {
        match self.find(id) {
            Some(i) => {
                proof {
                    lemma_slot_found(self.slots@, i as int);
                    lemma_slot_removed(self.slots@, i as int);
                }
                let slot = self.slots.remove(i);
                Some(slot.session)
            },
            None => {
                assert(self@.sessions.remove(id@) =~= self@.sessions);
                None
            },
        }
    }

    /// The second half of a spawn: installs the launched session under the
    /// id of `config`, in place of any occupant, and returns the generation
    /// it was given, which the reader of the session must remember.
    pub fn spawn_process(&mut self, config: &ProcessConfig, handle: H) -> (generation: u64)
        requires
            old(self).wf(),
        ensures
            final(self).wf(),
            final(self)@ == old(self)@.install(config.id@, handle),
            generation == old(self)@.counter,
            final(self)@.is_current(config.id@, generation),
    {
        let ghost before = self@;
        let _ = self.evict(config.id.as_str());
        let generation: u64 = self.spawn_counter;
        let slot = Slot { id: config.id.clone(), session: Session { generation, handle } };
        proof {
            assert(!self@.sessions.contains_key(slot.id@));
            assert(!has_slot(self.slots@, slot.id@));
            lemma_slot_pushed(self.slots@, slot);
        }
        self.slots.push(slot);
        self.spawn_counter = self.spawn_counter.wrapping_add(1);
        assert(self@.sessions =~= before.install(config.id@, handle).sessions);
        generation
    }

    /// Decides what the reader of `generation` does after a read. `chunk`
    /// holds the bytes that were read; an empty chunk stands for the end of
    /// the stream, be it zero bytes or a failed read.
    ///
    /// A stale reader stops and changes nothing. A current one forwards the
    /// whole chunk, lossily decoded, which for valid UTF-8 is the very text
    /// that the bytes encode; at the end of its stream its session is removed
    /// and the exit event is its to push.
    pub fn read_output(&mut self, id: &str, generation: u64, chunk: &[u8]) -> (action: ReaderAction)
        requires
            old(self).wf(),
        ensures
            final(self).wf(),
            final(self)@ == old(self)@.after_read(id@, generation, chunk@),
            action@ == old(self)@.reaction(id@, generation, chunk@, utf8_lossy(chunk@)),
            action matches ReaderAction::Forward(event) ==> (valid_utf8(chunk@) ==> event.data@
                == decode_utf8(chunk@)),
    {
        let current = match self.generation_of(id) {
            Some(live) => live == generation,
            None => false,
        };
        if !current {
            ReaderAction::Stop
        } else if chunk.len() == 0 {
            let _ = self.evict(id);
            ReaderAction::Exit(ProcessExit::new(id))
        } else {
            let text = decode_lossy(chunk);
            proof {
                if valid_utf8(chunk@) {
                    lemma_lossy_keeps_valid_text(text@, chunk@);
                }
            }
            ReaderAction::Forward(ProcessOutput::new(id, text))
        }
    }

    /// Finds the session that a write is for and lends its handle. The write
    /// and the flush are the caller's; whatever they do to the handle, the
    /// session stays registered under its generation.
    pub fn write_to_process(&mut self, id: &str) -> (found: Result<&mut H, PtyError>)
        requires
            old(self).wf(),
        ensures
            final(self).wf(),
            found is Ok == old(self)@.is_running(id@),
            found matches Ok(handle) ==> *handle == old(self)@.sessions[id@].handle && final(self)@
                == old(self)@.with_handle(id@, *final(handle)),
            found matches Err(error) ==> error.names_missing(id@) && final(self)@ == old(
                self,
            )@,
    {
        match self.find(id) {
            Some(i) => {
                proof {
                    lemma_slot_found(self.slots@, i as int);
                }
                let handle = &mut self.slots[i].session.handle;
                proof {
                    let slot = Slot {
                        id: old(self).slots@[i as int].id,
                        session: Session {
                            generation: old(self).slots@[i as int].session.generation,
                            handle: *final(handle),
                        },
                    };
                    lemma_slot_updated(old(self).slots@, i as int, slot);
                }
                Ok(handle)
            },
            None => Err(PtyError::NotFound(id.to_owned())),
        }
    }

    /// Finds the session that a resize is for, and returns its handle with
    /// the viewport to apply to its pseudo-terminal. Changes nothing.
    pub fn resize_pty(&self, id: &str, cols: u16, rows: u16) -> (found: Result<
        (&H, Viewport),
        PtyError,
    >)
        requires
            self.wf(),
        ensures
            found is Ok == self@.is_running(id@),
            found matches Ok(target) ==> *target.0 == self@.sessions[id@].handle && target.1 == (
            Viewport { rows, cols, pixel_width: 0, pixel_height: 0 }),
            found matches Err(error) ==> error.names_missing(id@),
    {
        match self.find(id) {
            Some(i) => {
                proof {
                    lemma_slot_found(self.slots@, i as int);
                }
                Ok((&self.slots[i].session.handle, Viewport::new(cols, rows)))
            },
            None => Err(PtyError::NotFound(id.to_owned())),
        }
    }

    /// Takes the session of `id` out of the registry and hands it over, so
    /// that its process can be told to terminate. From here on the exit
    /// event of that session is the caller's to push, once the process
    /// accepted the request: see [`PtyManager::kill_outcome`].
    pub fn kill_process(&mut self, id: &str) -> (taken: Result<Session<H>, PtyError>)
        requires
            old(self).wf(),
        ensures
            final(self).wf(),
            final(self)@ == old(self)@.evict(id@),
            taken is Ok == old(self)@.is_running(id@),
            taken matches Ok(session) ==> session == old(self)@.sessions[id@],
            taken matches Err(error) ==> error.names_missing(id@) && final(self)@ == old(
                self,
            )@,
    {
        match self.evict(id) {
            Some(session) => Ok(session),
            None => {
                assert(self@.sessions =~= old(self)@.sessions);
                Err(PtyError::NotFound(id.to_owned()))
            },
        }
    }

    /// What a kill reports once the process of the removed session was told
    /// to terminate: the exit event to push if it accepted, and the failure
    /// if it did not, in which case no event is pushed.
    pub fn kill_outcome(id: &str, terminated: Result<(), String>) -> (outcome: Result<
        ProcessExit,
        PtyError,
    >)
        ensures
            terminated is Ok ==> (outcome matches Ok(event) && event.id@ == id@ && event.code
                == None::<i32>),
            terminated matches Err(cause) ==> outcome == Err::<ProcessExit, PtyError>(
                PtyError::Kill(cause),
            ),
    {
        match terminated {
            Ok(()) => Ok(ProcessExit::new(id)),
            Err(cause) => Err(PtyError::Kill(cause)),
        }
    }
}

impl<H> Default for PtyManager<H> {
    fn default() -> (manager: Self)
        ensures
            manager.wf(),
            manager@ == ManagerState::<H>::initial(),
    {
        PtyManager::new()
    }
}

} // verus!
