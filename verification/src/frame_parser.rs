//! The frame driver: it walks the frames in order and keeps the registry
//! and the aggregate state up to date.
//!
//! Each frame is worked off in three phases. First the destructions and
//! then the creations of the frame are applied to the registry. Then the
//! attribute updates of the frame are merged into the dictionaries; an
//! update for an actor that is not live is dropped and noted. Last, the
//! handler of each live actor runs, oldest actor first, on what the
//! dictionaries now show.

use vstd::prelude::*;
use crate::actor::{
    created,
    destroyed,
    distinct_ids,
    is_live,
    lemma_merged_keeps_ids,
    merged,
    ActorClass,
    ActorRegistry,
    ActorState,
};
use crate::actor_handlers::{actor_after_handler, state_after_handler, ActorHandler};
use crate::aggregate::{AggregateState, AggregateView};
use crate::attribute::{ActorId, Attribute, Scalar};

verus! {

/// An actor that comes to life in a frame.
#[derive(Clone, Copy, Debug, PartialEq, Eq)]
pub struct NewActor {
    pub actor_id: ActorId,
    pub class: ActorClass,
}

/// A new value for one attribute of one actor.
#[derive(Clone, Debug, PartialEq, Eq)]
pub struct UpdatedAttribute {
    pub actor_id: ActorId,
    pub name: String,
    pub value: Attribute,
}

/// One step of the recording: what was destroyed, what was created and
/// what changed, with the time of the step.
#[derive(Clone, Debug, PartialEq, Eq)]
pub struct Frame {
    /// Time in seconds at which the frame was recorded.
    pub time: Scalar,
    /// Time that passed since the frame before.
    pub delta: Scalar,
    pub new_actors: Vec<NewActor>,
    pub deleted_actors: Vec<ActorId>,
    pub updated_actors: Vec<UpdatedAttribute>,
}

/// Note of an attribute update that was dropped because the actor it names
/// was not live.
#[derive(Clone, Debug, PartialEq, Eq)]
pub struct Diagnostic {
    pub frame_number: usize,
    pub actor_id: ActorId,
    pub name: String,
}

/// `actors` after the actors named in `ids` are destroyed, one after the
/// other.
pub open spec fn after_destructions(actors: Seq<ActorState>, ids: Seq<ActorId>) -> Seq<ActorState>
    decreases ids.len(),
{
    if ids.len() == 0 {
        actors
    } else {
        destroyed(after_destructions(actors, ids.drop_last()), ids.last())
    }
}

/// `actors` after the actors in `new_actors` are created, one after the
/// other.
pub open spec fn after_creations(actors: Seq<ActorState>, new_actors: Seq<NewActor>) -> Seq<
    ActorState,
>
    decreases new_actors.len(),
{
    if new_actors.len() == 0 {
        actors
    } else {
        created(
            after_creations(actors, new_actors.drop_last()),
            new_actors.last().actor_id,
            new_actors.last().class,
        )
    }
}

/// `actors` after `updates` are merged, one after the other. An update for
/// an actor that is not live changes nothing.
pub open spec fn after_updates(actors: Seq<ActorState>, updates: Seq<UpdatedAttribute>) -> Seq<
    ActorState,
>
    decreases updates.len(),
{
    if updates.len() == 0 {
        actors
    } else {
        merged(
            after_updates(actors, updates.drop_last()),
            updates.last().actor_id,
            updates.last().name@,
            updates.last().value,
        )
    }
}

/// The note for an update dropped in frame `frame_number`.
pub open spec fn dropped_update(update: UpdatedAttribute, frame_number: usize) -> Diagnostic {
    Diagnostic { frame_number, actor_id: update.actor_id, name: update.name }
}

/// The notes for those of `updates` that name no actor of `actors`, in the
/// order of the updates.
pub open spec fn dropped_updates(
    actors: Seq<ActorState>,
    updates: Seq<UpdatedAttribute>,
    frame_number: usize,
) -> Seq<Diagnostic>
    decreases updates.len(),
{
    if updates.len() == 0 {
        Seq::empty()
    } else {
        let earlier = dropped_updates(actors, updates.drop_last(), frame_number);
        if is_live(actors, updates.last().actor_id) {
            earlier
        } else {
            earlier.push(dropped_update(updates.last(), frame_number))
        }
    }
}

/// The registry as the handlers of `frame` see it: the destructions, the
/// creations and the updates of the frame are applied, in this order.
pub open spec fn visible_actors(actors: Seq<ActorState>, frame: Frame) -> Seq<ActorState> {
    after_updates(
        after_creations(after_destructions(actors, frame.deleted_actors@), frame.new_actors@),
        frame.updated_actors@,
    )
}

/// The actors after the handler of each has run.
pub open spec fn actors_after_handlers(actors: Seq<ActorState>) -> Seq<ActorState> {
    Seq::new(actors.len(), |i: int| actor_after_handler(actors[i]))
}

/// The aggregate state after the handlers of `actors` have run in frame
/// `frame_number`, first actor first.
pub open spec fn state_after_handlers(
    actors: Seq<ActorState>,
    frame_number: usize,
    state: AggregateView,
) -> AggregateView
    decreases actors.len(),
{
    if actors.len() == 0 {
        state
    } else {
        state_after_handler(
            actors.last(),
            frame_number,
            state_after_handlers(actors.drop_last(), frame_number, state),
        )
    }
}

/// Mathematical model of a [`FrameParser`].
pub struct ParserView {
    /// The live actors, oldest first.
    pub actors: Seq<ActorState>,
    /// What the handlers have derived so far.
    pub state: AggregateView,
    /// The dropped updates so far.
    pub diagnostics: Seq<Diagnostic>,
    /// Number of frames worked off; the next frame gets this index.
    pub frames_done: usize,
}

/// The parser before the first frame.
pub open spec fn initial_parser() -> ParserView {
    ParserView {
        actors: Seq::empty(),
        state: AggregateView { owners: Map::empty(), series: Map::empty(), demos: Seq::empty() },
        diagnostics: Seq::empty(),
        frames_done: 0,
    }
}

/// The parser after one more frame.
pub open spec fn after_frame(parser: ParserView, frame: Frame) -> ParserView {
    let frame_number = parser.frames_done;
    let lifecycle = after_creations(
        after_destructions(parser.actors, frame.deleted_actors@),
        frame.new_actors@,
    );
    let visible = after_updates(lifecycle, frame.updated_actors@);
    ParserView {
        actors: actors_after_handlers(visible),
        state: state_after_handlers(visible, frame_number, parser.state),
        diagnostics: parser.diagnostics + dropped_updates(
            lifecycle,
            frame.updated_actors@,
            frame_number,
        ),
        frames_done: (frame_number + 1) as usize,
    }
}

/// The parser after `frames`, worked off in order.
pub open spec fn after_frames(parser: ParserView, frames: Seq<Frame>) -> ParserView
    decreases frames.len(),
{
    if frames.len() == 0 {
        parser
    } else {
        after_frame(after_frames(parser, frames.drop_last()), frames.last())
    }
}

/// Merging updates moves no actor and changes no identifier, so the same
/// actors are live before and after.
pub(crate) proof fn lemma_updates_keep_ids(actors: Seq<ActorState>, updates: Seq<UpdatedAttribute>)
    ensures
        after_updates(actors, updates).len() == actors.len(),
        forall|i: int|
            0 <= i < actors.len() ==> (#[trigger] after_updates(actors, updates)[i]).actor_id
                == actors[i].actor_id && after_updates(actors, updates)[i].class
                == actors[i].class,
        forall|id: ActorId| is_live(after_updates(actors, updates), id) == is_live(actors, id),
        distinct_ids(actors) ==> distinct_ids(after_updates(actors, updates)),
    decreases updates.len(),
{
    let result = after_updates(actors, updates);
    if updates.len() > 0 {
        let earlier = after_updates(actors, updates.drop_last());
        lemma_updates_keep_ids(actors, updates.drop_last());
        lemma_merged_keeps_ids(
            earlier,
            updates.last().actor_id,
            updates.last().name@,
            updates.last().value,
        );
    }
    assert forall|id: ActorId| is_live(result, id) == is_live(actors, id) by {
        if is_live(actors, id) {
            let i = choose|i: int| 0 <= i < actors.len() && (#[trigger] actors[i]).actor_id == id;
            assert(result[i].actor_id == id);
        }
        if is_live(result, id) {
            let i = choose|i: int| 0 <= i < result.len() && (#[trigger] result[i]).actor_id == id;
            assert(actors[i].actor_id == id);
        }
    }
    if distinct_ids(actors) {
        assert forall|i: int, j: int| 0 <= i < j < result.len() implies (#[trigger] result[i]).actor_id
            != (#[trigger] result[j]).actor_id by {
            assert(actors[i].actor_id != actors[j].actor_id);
        }
    }
}

/// Interpreter of one recording. It owns the registry of live actors and the
/// aggregate state, and lends both to the handlers for the length of one
/// call.
pub struct FrameParser {
    frame_count: usize,
    replay_version: i32,
    registry: ActorRegistry,
    state: AggregateState,
    diagnostics: Vec<Diagnostic>,
    frames_done: usize,
}

impl View for FrameParser {
    type V = ParserView;

    closed spec fn view(&self) -> ParserView {
        ParserView {
            actors: self.registry@,
            state: self.state@,
            diagnostics: self.diagnostics@,
            frames_done: self.frames_done,
        }
    }
}

impl FrameParser {
    /// No two live actors share an identifier.
    pub open spec fn well_formed(&self) -> bool {
        distinct_ids(self@.actors)
    }

    /// Number of frames that the run was announced to have.
    pub closed spec fn spec_frame_count(&self) -> usize {
        self.frame_count
    }

    /// Version tag of the replay.
    pub closed spec fn spec_replay_version(&self) -> i32 {
        self.replay_version
    }

    /// A parser before the first frame of a run of `frame_count` frames.
    pub fn new(frame_count: usize, replay_version: i32) -> (parser: FrameParser)
        ensures
            parser.well_formed(),
            parser@ == initial_parser(),
            parser.spec_frame_count() == frame_count,
            parser.spec_replay_version() == replay_version,
    {
        FrameParser {
            frame_count,
            replay_version,
            registry: ActorRegistry::new(),
            state: AggregateState::new(),
            diagnostics: Vec::new(),
            frames_done: 0,
        }
    }

    /// Applies the destructions of a frame to the registry.
    fn apply_destructions(&mut self, ids: &Vec<ActorId>)
        requires
            old(self).well_formed(),
        ensures
            final(self).well_formed(),
            final(self)@.actors == after_destructions(old(self)@.actors, ids@),
            final(self)@.state == old(self)@.state,
            final(self)@.diagnostics == old(self)@.diagnostics,
            final(self)@.frames_done == old(self)@.frames_done,
            final(self).spec_frame_count() == old(self).spec_frame_count(),
            final(self).spec_replay_version() == old(self).spec_replay_version(),
    {
        let mut i: usize = 0;
        while i < ids.len()
            invariant
                i <= ids.len(),
                self.well_formed(),
                self@.actors == after_destructions(old(self)@.actors, ids@.take(i as int)),
                self@.state == old(self)@.state,
                self@.diagnostics == old(self)@.diagnostics,
                self@.frames_done == old(self)@.frames_done,
                self.spec_frame_count() == old(self).spec_frame_count(),
                self.spec_replay_version() == old(self).spec_replay_version(),
            decreases ids.len() - i,
        {
            assert(ids@.take(i + 1).drop_last() =~= ids@.take(i as int));
            self.registry.on_destroy(ids[i]);
            i += 1;
        }
        assert(ids@.take(i as int) =~= ids@);
    }

    /// Applies the creations of a frame to the registry.
    fn apply_creations(&mut self, new_actors: &Vec<NewActor>)
        requires
            old(self).well_formed(),
        ensures
            final(self).well_formed(),
            final(self)@.actors == after_creations(old(self)@.actors, new_actors@),
            final(self)@.state == old(self)@.state,
            final(self)@.diagnostics == old(self)@.diagnostics,
            final(self)@.frames_done == old(self)@.frames_done,
            final(self).spec_frame_count() == old(self).spec_frame_count(),
            final(self).spec_replay_version() == old(self).spec_replay_version(),
    {
        let mut i: usize = 0;
        while i < new_actors.len()
            invariant
                i <= new_actors.len(),
                self.well_formed(),
                self@.actors == after_creations(old(self)@.actors, new_actors@.take(i as int)),
                self@.state == old(self)@.state,
                self@.diagnostics == old(self)@.diagnostics,
                self@.frames_done == old(self)@.frames_done,
                self.spec_frame_count() == old(self).spec_frame_count(),
                self.spec_replay_version() == old(self).spec_replay_version(),
            decreases new_actors.len() - i,
        {
            assert(new_actors@.take(i + 1).drop_last() =~= new_actors@.take(i as int));
            self.registry.on_create(new_actors[i].actor_id, new_actors[i].class);
            i += 1;
        }
        assert(new_actors@.take(i as int) =~= new_actors@);
    }

    /// Merges the updates of a frame into the dictionaries and notes those
    /// that name no live actor.
    fn apply_updates(&mut self, updates: &Vec<UpdatedAttribute>)
        requires
            old(self).well_formed(),
        ensures
            final(self).well_formed(),
            final(self)@.actors == after_updates(old(self)@.actors, updates@),
            final(self)@.state == old(self)@.state,
            final(self)@.diagnostics == old(self)@.diagnostics + dropped_updates(
                old(self)@.actors,
                updates@,
                old(self)@.frames_done,
            ),
            final(self)@.frames_done == old(self)@.frames_done,
            final(self).spec_frame_count() == old(self).spec_frame_count(),
            final(self).spec_replay_version() == old(self).spec_replay_version(),
    {
        let mut i: usize = 0;
        assert(self@.diagnostics =~= old(self)@.diagnostics + Seq::<Diagnostic>::empty());
        while i < updates.len()
            invariant
                i <= updates.len(),
                self.well_formed(),
                self@.actors == after_updates(old(self)@.actors, updates@.take(i as int)),
                self@.state == old(self)@.state,
                self@.diagnostics == old(self)@.diagnostics + dropped_updates(
                    old(self)@.actors,
                    updates@.take(i as int),
                    old(self)@.frames_done,
                ),
                self@.frames_done == old(self)@.frames_done,
                self.spec_frame_count() == old(self).spec_frame_count(),
                self.spec_replay_version() == old(self).spec_replay_version(),
            decreases updates.len() - i,
        {
            assert(updates@.take(i + 1).drop_last() =~= updates@.take(i as int));
            proof {
                lemma_updates_keep_ids(old(self)@.actors, updates@.take(i as int));
            }
            let update = &updates[i];
            match self.registry.merge_update(update.actor_id, update.name.clone(), update.value) {
                Ok(_) => {},
                Err(dropped) => {
                    self.diagnostics.push(
                        Diagnostic {
                            frame_number: self.frames_done,
                            actor_id: dropped.actor_id,
                            name: dropped.name,
                        },
                    );
                    assert(self@.diagnostics =~= old(self)@.diagnostics + dropped_updates(
                        old(self)@.actors,
                        updates@.take(i + 1),
                        old(self)@.frames_done,
                    ));
                },
            }
            i += 1;
        }
        assert(updates@.take(i as int) =~= updates@);
    }

    /// Runs the handler of each live actor, oldest actor first.
    fn run_handlers(&mut self, time: Scalar, delta: Scalar)
        requires
            old(self).well_formed(),
        ensures
            final(self).well_formed(),
            final(self)@.actors == actors_after_handlers(old(self)@.actors),
            final(self)@.state == state_after_handlers(
                old(self)@.actors,
                old(self)@.frames_done,
                old(self)@.state,
            ),
            final(self)@.diagnostics == old(self)@.diagnostics,
            final(self)@.frames_done == old(self)@.frames_done,
            final(self).spec_frame_count() == old(self).spec_frame_count(),
            final(self).spec_replay_version() == old(self).spec_replay_version(),
    {
        let frame_number = self.frames_done;
        let ghost before = self@.actors;
        let mut i: usize = 0;
        while i < self.registry.actors.len()
            invariant
                i <= self.registry.actors.len(),
                self@.actors.len() == before.len(),
                before == old(self)@.actors,
                frame_number == old(self)@.frames_done,
                forall|k: int|
                    0 <= k < i ==> (#[trigger] self@.actors[k]) == actor_after_handler(before[k]),
                forall|k: int| i <= k < before.len() ==> (#[trigger] self@.actors[k]) == before[k],
                self@.state == state_after_handlers(
                    before.take(i as int),
                    frame_number,
                    old(self)@.state,
                ),
                self@.diagnostics == old(self)@.diagnostics,
                self@.frames_done == old(self)@.frames_done,
                self.spec_frame_count() == old(self).spec_frame_count(),
                self.spec_replay_version() == old(self).spec_replay_version(),
            decreases self.registry.actors.len() - i,
        {
            assert(before.take(i + 1).drop_last() =~= before.take(i as int));
            assert(self@.actors[i as int] == before[i as int]);
            let ghost current = self@.actors;
            let handler = ActorHandler::for_class(
                self.registry.actors[i].class,
                self.frame_count,
                self.replay_version,
            );
            handler.update(
                &mut self.registry.actors[i],
                frame_number,
                time,
                delta,
                &mut self.state,
            );
            assert(self@.actors =~= current.update(i as int, actor_after_handler(before[i as int])));
            i += 1;
        }
        assert(before.take(i as int) =~= before);
        assert(self@.actors =~= actors_after_handlers(before));
    }

    /// Works off the next frame: lifecycle events, then attribute updates,
    /// then the handlers. The frame gets the index `frames_done`.
    pub fn process_frame(&mut self, frame: &Frame)
        requires
            old(self).well_formed(),
            old(self)@.frames_done < usize::MAX,
        ensures
            final(self).well_formed(),
            final(self)@ == after_frame(old(self)@, *frame),
            final(self).spec_frame_count() == old(self).spec_frame_count(),
            final(self).spec_replay_version() == old(self).spec_replay_version(),
    {
        self.apply_destructions(&frame.deleted_actors);
        self.apply_creations(&frame.new_actors);
        self.apply_updates(&frame.updated_actors);
        self.run_handlers(frame.time, frame.delta);
        self.frames_done = self.frames_done + 1;
    }

    /// Works off `frames` in order, after the frames already done.
    pub fn process_frames(&mut self, frames: &Vec<Frame>)
        requires
            old(self).well_formed(),
            old(self)@.frames_done + frames.len() <= usize::MAX,
        ensures
            final(self).well_formed(),
            final(self)@ == after_frames(old(self)@, frames@),
            final(self).spec_frame_count() == old(self).spec_frame_count(),
            final(self).spec_replay_version() == old(self).spec_replay_version(),
    {
        let mut i: usize = 0;
        while i < frames.len()
            invariant
                i <= frames.len(),
                self.well_formed(),
                old(self)@.frames_done + frames.len() <= usize::MAX,
                self@.frames_done == old(self)@.frames_done + i,
                self@ == after_frames(old(self)@, frames@.take(i as int)),
                self.spec_frame_count() == old(self).spec_frame_count(),
                self.spec_replay_version() == old(self).spec_replay_version(),
            decreases frames.len() - i,
        {
            assert(frames@.take(i + 1).drop_last() =~= frames@.take(i as int));
            self.process_frame(&frames[i]);
            i += 1;
        }
        assert(frames@.take(i as int) =~= frames@);
    }

    /// Interprets a whole recording, from the state before the first frame
    /// to the state after the last.
    pub fn parse(frames: &Vec<Frame>, replay_version: i32) -> (parser: FrameParser)
        ensures
            parser.well_formed(),
            parser@ == after_frames(initial_parser(), frames@),
            parser.spec_frame_count() == frames.len(),
            parser.spec_replay_version() == replay_version,
    {
        let mut parser = FrameParser::new(frames.len(), replay_version);
        parser.process_frames(frames);
        parser
    }

    /// Number of frames that the run was announced to have.
    pub fn frame_count(&self) -> (n: usize)
        ensures
            n == self.spec_frame_count(),
    {
        self.frame_count
    }

    /// Version tag of the replay.
    pub fn replay_version(&self) -> (version: i32)
        ensures
            version == self.spec_replay_version(),
    {
        self.replay_version
    }

    /// Number of frames worked off so far.
    pub fn frames_done(&self) -> (n: usize)
        ensures
            n == self@.frames_done,
    {
        self.frames_done
    }

    /// The live actors.
    pub fn registry(&self) -> (registry: &ActorRegistry)
        ensures
            registry@ == self@.actors,
    {
        &self.registry
    }

    /// What the handlers have derived so far.
    pub fn state(&self) -> (state: &AggregateState)
        ensures
            state@ == self@.state,
    {
        &self.state
    }

    /// The updates dropped so far, in the order in which they came.
    pub fn diagnostics(&self) -> (diagnostics: &Vec<Diagnostic>)
        ensures
            diagnostics@ == self@.diagnostics,
    {
        &self.diagnostics
    }

    /// Ends the run and hands out what it derived.
    pub fn into_state(self) -> (state: AggregateState)
        ensures
            state@ == self@.state,
    {
        self.state
    }
}

} // verus!
