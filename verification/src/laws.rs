//! Laws of the interpreter, stated over its mathematical model and proved.

use vstd::prelude::*;
use crate::actor::{
    created,
    destroyed,
    dictionary_of,
    distinct_ids,
    is_live,
    lemma_created_distinct,
    lemma_created_is_fresh,
    lemma_created_keeps_others,
    lemma_destroyed_distinct,
    lemma_destroyed_keeps_others,
    lemma_merged_dictionary,
    lemma_position_is,
    ActorClass,
    ActorState,
};
use crate::actor_handlers::car::{
    car_after_update,
    car_snapshot,
    demo_record,
    pending_demolish,
    player_link,
    state_after_car_update,
    DemoData,
};
use crate::aggregate::AggregateView;
use crate::attribute::{lemma_demolish_name_is_distinct, ActorId, Attribute, DEMOLISH};
use crate::actor_handlers::actor_after_handler;
use crate::frame_parser::{
    actors_after_handlers,
    after_creations,
    after_destructions,
    after_frame,
    after_frames,
    after_updates,
    initial_parser,
    lemma_updates_keep_ids,
    state_after_handlers,
    visible_actors,
    Frame,
    NewActor,
    ParserView,
    UpdatedAttribute,
};

verus! {

/// Whether `id` is among the identifiers that `new_actors` create.
pub open spec fn creates(new_actors: Seq<NewActor>, id: ActorId) -> bool {
    exists|k: int| 0 <= k < new_actors.len() && (#[trigger] new_actors[k]).actor_id == id
}

/// Whether `updates` hold a value for the attribute `name` of the actor `id`.
pub open spec fn updates_attribute(
    updates: Seq<UpdatedAttribute>,
    id: ActorId,
    name: Seq<char>,
) -> bool {
    exists|k: int|
        0 <= k < updates.len() && (#[trigger] updates[k]).actor_id == id && updates[k].name@
            == name
}

/// Whether a record stands in `state` for `player` at frame `frame_number`.
pub open spec fn has_record(state: AggregateView, player: ActorId, frame_number: usize) -> bool {
    state.series.contains_key(player) && state.series[player].contains_key(frame_number)
}

/// Whether `actors[i]` is a car whose dictionary links it to `player`.
pub open spec fn is_car_of(actors: Seq<ActorState>, i: int, player: ActorId) -> bool {
    0 <= i < actors.len() && actors[i].class == ActorClass::Car && player_link(
        actors[i].attributes,
    ) == Some(player)
}

/// Whether some car among `actors` is linked to `player`.
pub open spec fn has_car_of(actors: Seq<ActorState>, player: ActorId) -> bool {
    exists|i: int| is_car_of(actors, i, player)
}

/// Whether `actors[i]` is the youngest car linked to `player`.
pub open spec fn is_last_car_of(actors: Seq<ActorState>, i: int, player: ActorId) -> bool {
    is_car_of(actors, i, player) && forall|j: int|
        i < j < actors.len() ==> !is_car_of(actors, j, player)
}

/// Whether `actors[i]` is a car that is linked to some player.
pub open spec fn is_linked_car(actors: Seq<ActorState>, i: int) -> bool {
    0 <= i < actors.len() && actors[i].class == ActorClass::Car && player_link(
        actors[i].attributes,
    ) is Some
}

/// Whether a car with identifier `id` among `actors` is linked to some
/// player.
pub open spec fn has_linked_car(actors: Seq<ActorState>, id: ActorId) -> bool {
    exists|i: int| is_linked_car(actors, i) && (#[trigger] actors[i]).actor_id == id
}

/// Destructions leave an actor that they do not name, and its dictionary, in place.
proof fn lemma_destructions_keep_others(actors: Seq<ActorState>, ids: Seq<ActorId>, id: ActorId)
    requires
        distinct_ids(actors),
        !ids.contains(id),
    ensures
        distinct_ids(after_destructions(actors, ids)),
        is_live(after_destructions(actors, ids), id) == is_live(actors, id),
        is_live(actors, id) ==> dictionary_of(after_destructions(actors, ids), id)
            == dictionary_of(actors, id),
    decreases ids.len(),
{
    if ids.len() > 0 {
        let earlier = after_destructions(actors, ids.drop_last());
        assert forall|k: int| 0 <= k < ids.drop_last().len() implies ids.drop_last()[k] != id by {
            assert(ids[k] != id);
        }
        lemma_destructions_keep_others(actors, ids.drop_last(), id);
        assert(ids[ids.len() - 1] != id);
        lemma_destroyed_keeps_others(earlier, ids.last(), id);
        lemma_destroyed_distinct(earlier, ids.last());
    }
}

/// Destructions keep the identifiers distinct.
proof fn lemma_destructions_distinct(actors: Seq<ActorState>, ids: Seq<ActorId>)
    requires
        distinct_ids(actors),
    ensures
        distinct_ids(after_destructions(actors, ids)),
    decreases ids.len(),
{
    if ids.len() > 0 {
        lemma_destructions_distinct(actors, ids.drop_last());
        lemma_destroyed_distinct(after_destructions(actors, ids.drop_last()), ids.last());
    }
}

/// Creations keep the identifiers distinct.
proof fn lemma_creations_distinct(actors: Seq<ActorState>, new_actors: Seq<NewActor>)
    requires
        distinct_ids(actors),
    ensures
        distinct_ids(after_creations(actors, new_actors)),
    decreases new_actors.len(),
{
    if new_actors.len() > 0 {
        lemma_creations_distinct(actors, new_actors.drop_last());
        lemma_created_distinct(
            after_creations(actors, new_actors.drop_last()),
            new_actors.last().actor_id,
            new_actors.last().class,
        );
    }
}

/// Creations leave an actor that they do not name, and its dictionary, in place.
proof fn lemma_creations_keep_others(
    actors: Seq<ActorState>,
    new_actors: Seq<NewActor>,
    id: ActorId,
)
    requires
        distinct_ids(actors),
        !creates(new_actors, id),
    ensures
        is_live(after_creations(actors, new_actors), id) == is_live(actors, id),
        is_live(actors, id) ==> dictionary_of(after_creations(actors, new_actors), id)
            == dictionary_of(actors, id),
    decreases new_actors.len(),
{
    if new_actors.len() > 0 {
        let earlier = after_creations(actors, new_actors.drop_last());
        assert forall|k: int| 0 <= k < new_actors.drop_last().len() implies (
        #[trigger] new_actors.drop_last()[k]).actor_id != id by {
            assert(new_actors[k].actor_id != id);
        }
        lemma_creations_keep_others(actors, new_actors.drop_last(), id);
        lemma_creations_distinct(actors, new_actors.drop_last());
        assert(new_actors[new_actors.len() - 1].actor_id != id);
        lemma_created_keeps_others(earlier, new_actors.last().actor_id, new_actors.last().class, id);
    }
}

/// An actor that the creations name is live afterwards, with an empty dictionary.
proof fn lemma_creations_reset(actors: Seq<ActorState>, new_actors: Seq<NewActor>, id: ActorId)
    requires
        distinct_ids(actors),
        creates(new_actors, id),
    ensures
        is_live(after_creations(actors, new_actors), id),
        dictionary_of(after_creations(actors, new_actors), id) == Map::<
            Seq<char>,
            Attribute,
        >::empty(),
    decreases new_actors.len(),
{
    let earlier = after_creations(actors, new_actors.drop_last());
    lemma_creations_distinct(actors, new_actors.drop_last());
    if new_actors.last().actor_id == id {
        lemma_created_is_fresh(earlier, id, new_actors.last().class);
    } else {
        let k = choose|k: int| 0 <= k < new_actors.len() && (#[trigger] new_actors[k]).actor_id == id;
        assert(new_actors.drop_last()[k].actor_id == id);
        lemma_creations_reset(actors, new_actors.drop_last(), id);
        lemma_created_keeps_others(earlier, new_actors.last().actor_id, new_actors.last().class, id);
    }
}

/// Updates leave an attribute that they do not name as it is, present or absent.
proof fn lemma_updates_keep_untouched(
    actors: Seq<ActorState>,
    updates: Seq<UpdatedAttribute>,
    id: ActorId,
    name: Seq<char>,
)
    requires
        distinct_ids(actors),
        is_live(actors, id),
        !updates_attribute(updates, id, name),
    ensures
        is_live(after_updates(actors, updates), id),
        dictionary_of(after_updates(actors, updates), id).contains_key(name) == dictionary_of(
            actors,
            id,
        ).contains_key(name),
        dictionary_of(after_updates(actors, updates), id)[name] == dictionary_of(actors, id)[name],
    decreases updates.len(),
{
    if updates.len() > 0 {
        let earlier = after_updates(actors, updates.drop_last());
        assert forall|k: int| 0 <= k < updates.drop_last().len() implies !((
        #[trigger] updates.drop_last()[k]).actor_id == id && updates.drop_last()[k].name@
            == name) by {
            assert(!(updates[k].actor_id == id && updates[k].name@ == name));
        }
        lemma_updates_keep_untouched(actors, updates.drop_last(), id, name);
        lemma_updates_keep_ids(actors, updates.drop_last());
        let last = updates[updates.len() - 1];
        assert(!(last.actor_id == id && last.name@ == name));
        lemma_merged_dictionary(earlier, last.actor_id, last.name@, last.value, id);
    }
}

/// Updates put into an empty dictionary only the names that they send for its actor.
proof fn lemma_updates_add_only_sent(
    actors: Seq<ActorState>,
    updates: Seq<UpdatedAttribute>,
    id: ActorId,
)
    requires
        distinct_ids(actors),
        is_live(actors, id),
        dictionary_of(actors, id) == Map::<Seq<char>, Attribute>::empty(),
    ensures
        is_live(after_updates(actors, updates), id),
        forall|name: Seq<char>| #[trigger]
            dictionary_of(after_updates(actors, updates), id).contains_key(name)
                ==> updates_attribute(updates, id, name),
    decreases updates.len(),
{
    if updates.len() > 0 {
        let earlier = after_updates(actors, updates.drop_last());
        lemma_updates_add_only_sent(actors, updates.drop_last(), id);
        lemma_updates_keep_ids(actors, updates.drop_last());
        let last = updates[updates.len() - 1];
        lemma_merged_dictionary(earlier, last.actor_id, last.name@, last.value, id);
        assert forall|name: Seq<char>| #[trigger]
            dictionary_of(after_updates(actors, updates), id).contains_key(
                name,
            ) implies updates_attribute(updates, id, name) by {
            if last.actor_id == id && last.name@ == name {
            } else {
                assert(dictionary_of(earlier, id).contains_key(name));
                let k = choose|k: int|
                    0 <= k < updates.drop_last().len() && (#[trigger] updates.drop_last()[k]).actor_id
                        == id && updates.drop_last()[k].name@ == name;
                assert(updates[k].actor_id == id && updates[k].name@ == name);
            }
        }
    }
}

/// **Sticky updates.** An attribute that an actor holds before a frame, and
/// for which the frame brings no update, is shown to the handlers of the
/// frame with the value it had, provided the frame neither destroys the
/// actor nor creates one under its identifier.
pub proof fn law_sticky_update(
    actors: Seq<ActorState>,
    frame: Frame,
    id: ActorId,
    name: Seq<char>,
)
    requires
        distinct_ids(actors),
        is_live(actors, id),
        dictionary_of(actors, id).contains_key(name),
        !frame.deleted_actors@.contains(id),
        !creates(frame.new_actors@, id),
        !updates_attribute(frame.updated_actors@, id, name),
    ensures
        is_live(visible_actors(actors, frame), id),
        dictionary_of(visible_actors(actors, frame), id).contains_key(name),
        dictionary_of(visible_actors(actors, frame), id)[name] == dictionary_of(actors, id)[name],
{
    let after_d = after_destructions(actors, frame.deleted_actors@);
    let after_c = after_creations(after_d, frame.new_actors@);
    lemma_destructions_keep_others(actors, frame.deleted_actors@, id);
    lemma_creations_keep_others(after_d, frame.new_actors@, id);
    lemma_creations_distinct(after_d, frame.new_actors@);
    lemma_updates_keep_untouched(after_c, frame.updated_actors@, id, name);
}

/// **Identifier reuse.** An actor created under an identifier starts from an
/// empty dictionary, whether or not the earlier holder of the identifier was
/// destroyed before.
pub proof fn law_identifier_reuse(actors: Seq<ActorState>, id: ActorId, class: ActorClass)
    requires
        distinct_ids(actors),
    ensures
        is_live(created(destroyed(actors, id), id, class), id),
        dictionary_of(created(destroyed(actors, id), id, class), id) == Map::<
            Seq<char>,
            Attribute,
        >::empty(),
        is_live(created(actors, id, class), id),
        dictionary_of(created(actors, id, class), id) == Map::<Seq<char>, Attribute>::empty(),
{
    lemma_destroyed_distinct(actors, id);
    lemma_created_is_fresh(destroyed(actors, id), id, class);
    lemma_created_is_fresh(actors, id, class);
}

/// **No leakage into a new actor.** Of an actor created in a frame the
/// handlers of that frame see only attributes that the same frame sent for
/// it: nothing of an earlier holder of the identifier is visible.
pub proof fn law_created_actor_sees_only_this_frame(
    actors: Seq<ActorState>,
    frame: Frame,
    id: ActorId,
    name: Seq<char>,
)
    requires
        distinct_ids(actors),
        creates(frame.new_actors@, id),
        dictionary_of(visible_actors(actors, frame), id).contains_key(name),
    ensures
        is_live(visible_actors(actors, frame), id),
        updates_attribute(frame.updated_actors@, id, name),
{
    let after_d = after_destructions(actors, frame.deleted_actors@);
    let after_c = after_creations(after_d, frame.new_actors@);
    lemma_destructions_distinct(actors, frame.deleted_actors@);
    lemma_creations_distinct(after_d, frame.new_actors@);
    lemma_creations_reset(after_d, frame.new_actors@, id);
    lemma_updates_add_only_sent(after_c, frame.updated_actors@, id);
}

/// The events that the handlers of one frame derive from `actors`: one for
/// each linked car whose dictionary announces a demolition, first actor
/// first.
pub open spec fn frame_events(actors: Seq<ActorState>, frame_number: usize) -> Seq<DemoData>
    decreases actors.len(),
{
    if actors.len() == 0 {
        Seq::empty()
    } else {
        let earlier = frame_events(actors.drop_last(), frame_number);
        let last = actors.last();
        if last.class == ActorClass::Car && player_link(last.attributes) is Some
            && pending_demolish(last.attributes) is Some {
            earlier.push(demo_record(pending_demolish(last.attributes)->0, frame_number))
        } else {
            earlier
        }
    }
}

/// Whether every record of `state` stands at a frame before `frame_number`.
pub open spec fn records_before(state: AggregateView, frame_number: int) -> bool {
    forall|player: ActorId, f: usize| #[trigger] has_record(state, player, f) ==> f < frame_number
}

/// **One-shot events, one car.** The handler records a demolition exactly
/// when the car is linked to a player and its dictionary announces one. A
/// second run of the handler on the dictionary that the first run left
/// behind, in the same or in a later frame, records nothing.
pub proof fn law_one_shot_event(
    car: ActorState,
    first: usize,
    second: usize,
    state: AggregateView,
)
    ensures
        state_after_car_update(car, first, state).demos == (if player_link(car.attributes) is Some
            && pending_demolish(car.attributes) is Some {
            state.demos.push(demo_record(pending_demolish(car.attributes)->0, first))
        } else {
            state.demos
        }),
        state_after_car_update(
            car_after_update(car),
            second,
            state_after_car_update(car, first, state),
        ).demos == state_after_car_update(car, first, state).demos,
        player_link(car_after_update(car).attributes) == player_link(car.attributes),
        car_snapshot(car_after_update(car).attributes) == car_snapshot(car.attributes),
{
    lemma_demolish_name_is_distinct();
}

/// The handlers append the events of the frame to the events before.
proof fn lemma_handlers_events(actors: Seq<ActorState>, frame_number: usize, state: AggregateView)
    ensures
        state_after_handlers(actors, frame_number, state).demos == state.demos + frame_events(
            actors,
            frame_number,
        ),
    decreases actors.len(),
{
    if actors.len() > 0 {
        lemma_handlers_events(actors.drop_last(), frame_number, state);
        let earlier = state_after_handlers(actors.drop_last(), frame_number, state);
        assert(state_after_handlers(actors, frame_number, state).demos =~= state.demos
            + frame_events(actors, frame_number));
    } else {
        assert(state.demos =~= state.demos + frame_events(actors, frame_number));
    }
}

/// What the handlers leave behind yields no event.
proof fn lemma_no_events_after_handlers(actors: Seq<ActorState>, frame_number: usize)
    ensures
        frame_events(actors_after_handlers(actors), frame_number) == Seq::<DemoData>::empty(),
    decreases actors.len(),
{
    let after = actors_after_handlers(actors);
    if actors.len() > 0 {
        lemma_no_events_after_handlers(actors.drop_last(), frame_number);
        assert(after.drop_last() =~= actors_after_handlers(actors.drop_last()));
        assert(after.last() == actor_after_handler(actors.last()));
        law_one_shot_event(actors.last(), frame_number, frame_number, arbitrary());
    }
}

/// **One-shot events, one frame.** The handlers of a frame append one event
/// for each linked car whose dictionary announces a demolition, in the order
/// of the actors, and nothing else. Run once more on the dictionaries that
/// they left behind, they append nothing.
pub proof fn law_events_recorded_once(
    actors: Seq<ActorState>,
    frame_number: usize,
    again: usize,
    state: AggregateView,
)
    ensures
        state_after_handlers(actors, frame_number, state).demos == state.demos + frame_events(
            actors,
            frame_number,
        ),
        state_after_handlers(
            actors_after_handlers(actors),
            again,
            state_after_handlers(actors, frame_number, state),
        ).demos == state_after_handlers(actors, frame_number, state).demos,
{
    let once = state_after_handlers(actors, frame_number, state);
    lemma_handlers_events(actors, frame_number, state);
    lemma_handlers_events(actors_after_handlers(actors), again, once);
    lemma_no_events_after_handlers(actors, again);
    assert(once.demos + Seq::<DemoData>::empty() =~= once.demos);
}

/// The handlers enter records at the current frame only, one for each player with a
/// linked car, and that record is the snapshot of the youngest such car.
proof fn lemma_handlers_records(actors: Seq<ActorState>, frame_number: usize, state: AggregateView)
    ensures
        forall|player: ActorId, f: usize|
            f != frame_number ==> #[trigger] has_record(
                state_after_handlers(actors, frame_number, state),
                player,
                f,
            ) == has_record(state, player, f) && (has_record(state, player, f)
                ==> state_after_handlers(actors, frame_number, state).series[player][f]
                == state.series[player][f]),
        forall|player: ActorId| #[trigger]
            has_record(state_after_handlers(actors, frame_number, state), player, frame_number)
                == (has_record(state, player, frame_number) || has_car_of(actors, player)),
        forall|player: ActorId| #[trigger]
            has_car_of(actors, player) ==> exists|i: int| #[trigger]
                is_last_car_of(actors, i, player) && state_after_handlers(
                    actors,
                    frame_number,
                    state,
                ).series[player][frame_number] == car_snapshot(actors[i].attributes),
    decreases actors.len(),
{
    let after = state_after_handlers(actors, frame_number, state);
    if actors.len() > 0 {
        let front = actors.drop_last();
        let earlier = state_after_handlers(front, frame_number, state);
        let last = actors.last();
        lemma_handlers_records(front, frame_number, state);
        assert forall|player: ActorId, f: usize| f != frame_number implies #[trigger] has_record(
            after,
            player,
            f,
        ) == has_record(state, player, f) && (has_record(state, player, f)
            ==> after.series[player][f] == state.series[player][f]) by {
            assert(has_record(earlier, player, f) == has_record(state, player, f));
            if has_record(state, player, f) {
                assert(earlier.series[player][f] == state.series[player][f]);
            }
        }
        assert forall|player: ActorId| #[trigger]
            has_record(after, player, frame_number) == (has_record(state, player, frame_number)
                || has_car_of(actors, player)) by {
            assert(has_record(earlier, player, frame_number) == (has_record(
                state,
                player,
                frame_number,
            ) || has_car_of(front, player)));
            if has_car_of(front, player) {
                let i = choose|i: int| is_car_of(front, i, player);
                assert(is_car_of(actors, i, player));
            }
            if has_car_of(actors, player) {
                let i = choose|i: int| is_car_of(actors, i, player);
                if i < front.len() {
                    assert(is_car_of(front, i, player));
                }
            }
            if last.class == ActorClass::Car && player_link(last.attributes) == Some(player) {
                assert(is_car_of(actors, actors.len() - 1, player));
            }
        }
        assert forall|player: ActorId| #[trigger] has_car_of(actors, player) implies exists|i: int|
            #[trigger] is_last_car_of(actors, i, player) && after.series[player][frame_number]
                == car_snapshot(actors[i].attributes) by {
            if last.class == ActorClass::Car && player_link(last.attributes) == Some(player) {
                assert(is_last_car_of(actors, actors.len() - 1, player));
                assert(after.series[player][frame_number] == car_snapshot(
                    actors[actors.len() - 1].attributes,
                ));
            } else {
                let some = choose|i: int| is_car_of(actors, i, player);
                assert(is_car_of(front, some, player));
                assert(has_car_of(front, player));
                let i = choose|i: int| #[trigger]
                    is_last_car_of(front, i, player) && earlier.series[player][frame_number]
                        == car_snapshot(front[i].attributes);
                assert forall|j: int| i < j < actors.len() implies !is_car_of(actors, j, player) by {
                    if j < front.len() {
                        assert(!is_car_of(front, j, player));
                    }
                }
                assert(is_last_car_of(actors, i, player));
                assert(after.series[player][frame_number] == car_snapshot(actors[i].attributes));
            }
        }
    } else {
        assert forall|player: ActorId| !has_car_of(actors, player) by {
            if has_car_of(actors, player) {
                let i = choose|i: int| is_car_of(actors, i, player);
            }
        }
    }
}

/// **Time series grow at the current frame only.** Working off a frame
/// leaves every record at another frame index as it is, and raises the
/// index for the next frame by one.
pub proof fn law_records_only_current_frame(
    parser: ParserView,
    frame: Frame,
    player: ActorId,
    f: usize,
)
    requires
        f != parser.frames_done,
    ensures
        has_record(after_frame(parser, frame).state, player, f) == has_record(
            parser.state,
            player,
            f,
        ),
        has_record(parser.state, player, f) ==> after_frame(parser, frame).state.series[player][f]
            == parser.state.series[player][f],
        parser.frames_done < usize::MAX ==> after_frame(parser, frame).frames_done
            == parser.frames_done + 1,
{
    lemma_handlers_records(visible_actors(parser.actors, frame), parser.frames_done, parser.state);
}

/// **A record stands for a linked car.** After a frame a player has a
/// record at the index of that frame exactly if the handlers of the frame
/// saw a car linked to that player; the record is the snapshot of the
/// youngest such car.
pub proof fn law_record_matches_linked_car(parser: ParserView, frame: Frame, player: ActorId)
    requires
        records_before(parser.state, parser.frames_done as int),
    ensures
        has_record(after_frame(parser, frame).state, player, parser.frames_done) == has_car_of(
            visible_actors(parser.actors, frame),
            player,
        ),
        has_record(after_frame(parser, frame).state, player, parser.frames_done) ==> exists|i: int|
            #[trigger] is_last_car_of(visible_actors(parser.actors, frame), i, player)
                && after_frame(parser, frame).state.series[player][parser.frames_done]
                == car_snapshot(visible_actors(parser.actors, frame)[i].attributes),
{
    lemma_handlers_records(visible_actors(parser.actors, frame), parser.frames_done, parser.state);
    assert(!has_record(parser.state, player, parser.frames_done));
    assert(has_car_of(visible_actors(parser.actors, frame), player) ==> has_record(
        after_frame(parser, frame).state,
        player,
        parser.frames_done,
    ));
}

/// **Time series are filled in frame order.** After any run from the start
/// every record stands at the index of a frame already worked off. Together
/// with the two laws before, the records of a player are entered at strictly
/// increasing frame indices, one for each frame in which a car linked to the
/// player was live.
pub proof fn law_records_in_frame_order(frames: Seq<Frame>)
    requires
        frames.len() <= usize::MAX,
    ensures
        after_frames(initial_parser(), frames).frames_done == frames.len(),
        records_before(after_frames(initial_parser(), frames).state, frames.len() as int),
    decreases frames.len(),
{
    let parser = after_frames(initial_parser(), frames);
    if frames.len() > 0 {
        let earlier = after_frames(initial_parser(), frames.drop_last());
        law_records_in_frame_order(frames.drop_last());
        lemma_handlers_records(
            visible_actors(earlier.actors, frames.last()),
            earlier.frames_done,
            earlier.state,
        );
        assert forall|player: ActorId, f: usize| #[trigger]
            has_record(parser.state, player, f) implies f < frames.len() by {
            if f != earlier.frames_done {
                assert(has_record(earlier.state, player, f));
            }
        }
    } else {
        assert forall|player: ActorId, f: usize| #[trigger]
            has_record(parser.state, player, f) implies f < frames.len() by {
            assert(!parser.state.series.contains_key(player));
        }
    }
}

/// **Last link wins, one car.** When the handler runs twice for a car, the
/// owner mapping afterwards names the player of the second run, whatever
/// the first run had entered.
pub proof fn law_last_link_wins(
    earlier: ActorState,
    later: ActorState,
    first: usize,
    second: usize,
    state: AggregateView,
)
    requires
        earlier.actor_id == later.actor_id,
        player_link(later.attributes) is Some,
    ensures
        state_after_car_update(
            later,
            second,
            state_after_car_update(earlier, first, state),
        ).owners.contains_key(later.actor_id),
        state_after_car_update(
            later,
            second,
            state_after_car_update(earlier, first, state),
        ).owners[later.actor_id] == player_link(later.attributes)->0,
{
}

/// The handlers enter the link of each linked car and leave the other links alone.
proof fn lemma_handlers_owners(actors: Seq<ActorState>, frame_number: usize, state: AggregateView)
    requires
        distinct_ids(actors),
    ensures
        forall|i: int| #[trigger]
            is_linked_car(actors, i) ==> state_after_handlers(
                actors,
                frame_number,
                state,
            ).owners.contains_key(actors[i].actor_id) && state_after_handlers(
                actors,
                frame_number,
                state,
            ).owners[actors[i].actor_id] == player_link(actors[i].attributes)->0,
        forall|id: ActorId|
            !has_linked_car(actors, id) ==> (#[trigger] state_after_handlers(
                actors,
                frame_number,
                state,
            ).owners.contains_key(id)) == state.owners.contains_key(id),
        forall|id: ActorId|
            !has_linked_car(actors, id) ==> (#[trigger] state_after_handlers(
                actors,
                frame_number,
                state,
            ).owners[id]) == state.owners[id],
    decreases actors.len(),
{
    let after = state_after_handlers(actors, frame_number, state);
    if actors.len() > 0 {
        let front = actors.drop_last();
        let earlier = state_after_handlers(front, frame_number, state);
        let last = actors.last();
        lemma_handlers_owners(front, frame_number, state);
        assert forall|i: int| #[trigger] is_linked_car(actors, i) implies after.owners.contains_key(
            actors[i].actor_id,
        ) && after.owners[actors[i].actor_id] == player_link(actors[i].attributes)->0 by {
            if i < front.len() {
                assert(is_linked_car(front, i));
                assert(actors[i].actor_id != actors[actors.len() - 1].actor_id);
            }
        }
        assert forall|id: ActorId| !has_linked_car(actors, id) implies (
        #[trigger] after.owners.contains_key(id)) == state.owners.contains_key(id)
            && after.owners[id] == state.owners[id] by {
            if has_linked_car(front, id) {
                let i = choose|i: int| is_linked_car(front, i) && (#[trigger] front[i]).actor_id == id;
                assert(is_linked_car(actors, i) && actors[i].actor_id == id);
            }
            if last.class == ActorClass::Car && player_link(last.attributes) is Some {
                assert(is_linked_car(actors, actors.len() - 1));
                assert(actors[actors.len() - 1].actor_id != id);
            }
        }
    }
}

/// The three phases before the handlers keep the identifiers distinct.
proof fn lemma_visible_distinct(actors: Seq<ActorState>, frame: Frame)
    requires
        distinct_ids(actors),
    ensures
        distinct_ids(visible_actors(actors, frame)),
{
    let after_d = after_destructions(actors, frame.deleted_actors@);
    let after_c = after_creations(after_d, frame.new_actors@);
    lemma_destructions_distinct(actors, frame.deleted_actors@);
    lemma_creations_distinct(after_d, frame.new_actors@);
    lemma_updates_keep_ids(after_c, frame.updated_actors@);
}

/// **The owner mapping follows the latest link.** After a frame the owner
/// mapping names, for each car that the handlers saw linked to a player,
/// that player, whatever it named before. For every other identifier it is
/// as it was before the frame.
pub proof fn law_owner_is_latest_link(parser: ParserView, frame: Frame, id: ActorId)
    requires
        distinct_ids(parser.actors),
    ensures
        forall|i: int|
            is_linked_car(visible_actors(parser.actors, frame), i) && (#[trigger] visible_actors(
                parser.actors,
                frame,
            )[i]).actor_id == id ==> after_frame(parser, frame).state.owners.contains_key(id)
                && after_frame(parser, frame).state.owners[id] == player_link(
                visible_actors(parser.actors, frame)[i].attributes,
            )->0,
        !has_linked_car(visible_actors(parser.actors, frame), id) ==> after_frame(
            parser,
            frame,
        ).state.owners.contains_key(id) == parser.state.owners.contains_key(id) && after_frame(
            parser,
            frame,
        ).state.owners[id] == parser.state.owners[id],
{
    let visible = visible_actors(parser.actors, frame);
    lemma_visible_distinct(parser.actors, frame);
    lemma_handlers_owners(visible, parser.frames_done, parser.state);
    assert forall|i: int|
        is_linked_car(visible, i) && (#[trigger] visible[i]).actor_id
            == id implies after_frame(parser, frame).state.owners.contains_key(id) && after_frame(
        parser,
        frame,
    ).state.owners[id] == player_link(visible[i].attributes)->0 by {
        assert(is_linked_car(visible, i));
    }
}

/// **The run keeps the identifiers distinct.** After any run from the start
/// no two live actors share an identifier.
pub proof fn law_live_identifiers_distinct(frames: Seq<Frame>)
    ensures
        distinct_ids(after_frames(initial_parser(), frames).actors),
    decreases frames.len(),
{
    if frames.len() > 0 {
        let earlier = after_frames(initial_parser(), frames.drop_last());
        law_live_identifiers_distinct(frames.drop_last());
        lemma_visible_distinct(earlier.actors, frames.last());
        lemma_handlers_keep_ids(visible_actors(earlier.actors, frames.last()));
    }
}

/// **The records of a run.** After a run from the start a player has a
/// record at a frame index exactly if the run has worked off that frame and
/// its handlers saw a car linked to the player.
pub proof fn law_records_match_linked_frames(frames: Seq<Frame>, player: ActorId, f: usize)
    requires
        frames.len() <= usize::MAX,
    ensures
        has_record(after_frames(initial_parser(), frames).state, player, f) == (f < frames.len()
            && has_car_of(
            visible_actors(
                after_frames(initial_parser(), frames.take(f as int)).actors,
                frames[f as int],
            ),
            player,
        )),
    decreases frames.len(),
{
    let parser = after_frames(initial_parser(), frames);
    if frames.len() > 0 {
        let front = frames.drop_last();
        let earlier = after_frames(initial_parser(), front);
        law_records_in_frame_order(front);
        if f == earlier.frames_done {
            law_record_matches_linked_car(earlier, frames.last(), player);
            assert(frames.take(f as int) =~= front);
        } else {
            law_records_only_current_frame(earlier, frames.last(), player, f);
            law_records_match_linked_frames(front, player, f);
            if f < front.len() {
                assert(front.take(f as int) =~= frames.take(f as int));
            }
        }
    } else {
        assert(!parser.state.series.contains_key(player));
    }
}

/// An actor that the destructions name is not live afterwards.
proof fn lemma_destructions_remove(actors: Seq<ActorState>, ids: Seq<ActorId>, id: ActorId)
    requires
        distinct_ids(actors),
        ids.contains(id),
    ensures
        !is_live(after_destructions(actors, ids), id),
    decreases ids.len(),
{
    let earlier = after_destructions(actors, ids.drop_last());
    lemma_destructions_distinct(actors, ids.drop_last());
    if ids.last() == id {
        lemma_destroyed_distinct(earlier, id);
    } else {
        let k = choose|k: int| 0 <= k < ids.len() && ids[k] == id;
        assert(ids.drop_last()[k] == id);
        lemma_destructions_remove(actors, ids.drop_last(), id);
        lemma_destroyed_keeps_others(earlier, ids.last(), id);
    }
}

/// **A destroyed actor is not seen.** The handlers of a frame do not see an
/// actor that the frame destroys, unless the frame also creates an actor
/// under the same identifier.
pub proof fn law_destroyed_actor_is_not_seen(actors: Seq<ActorState>, frame: Frame, id: ActorId)
    requires
        distinct_ids(actors),
        frame.deleted_actors@.contains(id),
        !creates(frame.new_actors@, id),
    ensures
        !is_live(visible_actors(actors, frame), id),
{
    let after_d = after_destructions(actors, frame.deleted_actors@);
    let after_c = after_creations(after_d, frame.new_actors@);
    lemma_destructions_remove(actors, frame.deleted_actors@, id);
    lemma_destructions_distinct(actors, frame.deleted_actors@);
    lemma_creations_keep_others(after_d, frame.new_actors@, id);
    lemma_updates_keep_ids(after_c, frame.updated_actors@);
}

/// After the updates a name shows the value of the last update sent for it.
proof fn lemma_updates_show_last(
    actors: Seq<ActorState>,
    updates: Seq<UpdatedAttribute>,
    k: int,
)
    requires
        distinct_ids(actors),
        0 <= k < updates.len(),
        is_live(actors, updates[k].actor_id),
        forall|j: int|
            k < j < updates.len() ==> !((#[trigger] updates[j]).actor_id == updates[k].actor_id
                && updates[j].name@ == updates[k].name@),
    ensures
        is_live(after_updates(actors, updates), updates[k].actor_id),
        dictionary_of(after_updates(actors, updates), updates[k].actor_id).contains_key(
            updates[k].name@,
        ),
        dictionary_of(after_updates(actors, updates), updates[k].actor_id)[updates[k].name@]
            == updates[k].value,
    decreases updates.len(),
{
    let earlier = after_updates(actors, updates.drop_last());
    let last = updates[updates.len() - 1];
    let id = updates[k].actor_id;
    lemma_updates_keep_ids(actors, updates.drop_last());
    lemma_merged_dictionary(earlier, last.actor_id, last.name@, last.value, id);
    if k < updates.len() - 1 {
        assert(updates.drop_last()[k] == updates[k]);
        assert forall|j: int| k < j < updates.drop_last().len() implies !((
        #[trigger] updates.drop_last()[j]).actor_id == id && updates.drop_last()[j].name@
            == updates[k].name@) by {
            assert(!(updates[j].actor_id == id && updates[j].name@ == updates[k].name@));
        }
        lemma_updates_show_last(actors, updates.drop_last(), k);
        assert(!(last.actor_id == id && last.name@ == updates[k].name@));
    }
}

/// **An update is seen.** The handlers of a frame see, under the name of an
/// attribute that the frame updates for an actor live after the lifecycle
/// events of the frame, the value of the last such update.
pub proof fn law_update_is_visible(actors: Seq<ActorState>, frame: Frame, k: int)
    requires
        distinct_ids(actors),
        0 <= k < frame.updated_actors@.len(),
        is_live(
            after_creations(after_destructions(actors, frame.deleted_actors@), frame.new_actors@),
            frame.updated_actors@[k].actor_id,
        ),
        forall|j: int|
            k < j < frame.updated_actors@.len() ==> !((#[trigger] frame.updated_actors@[j]).actor_id
                == frame.updated_actors@[k].actor_id && frame.updated_actors@[j].name@
                == frame.updated_actors@[k].name@),
    ensures
        is_live(visible_actors(actors, frame), frame.updated_actors@[k].actor_id),
        dictionary_of(
            visible_actors(actors, frame),
            frame.updated_actors@[k].actor_id,
        ).contains_key(frame.updated_actors@[k].name@),
        dictionary_of(
            visible_actors(actors, frame),
            frame.updated_actors@[k].actor_id,
        )[frame.updated_actors@[k].name@] == frame.updated_actors@[k].value,
{
    let after_d = after_destructions(actors, frame.deleted_actors@);
    let after_c = after_creations(after_d, frame.new_actors@);
    lemma_destructions_distinct(actors, frame.deleted_actors@);
    lemma_creations_distinct(after_d, frame.new_actors@);
    lemma_updates_show_last(after_c, frame.updated_actors@, k);
}

/// The handlers keep the identifiers: the same actors are live before and after.
proof fn lemma_handlers_keep_ids(actors: Seq<ActorState>)
    requires
        distinct_ids(actors),
    ensures
        distinct_ids(actors_after_handlers(actors)),
        forall|id: ActorId| #[trigger]
            is_live(actors_after_handlers(actors), id) == is_live(actors, id),
{
    let after = actors_after_handlers(actors);
    assert forall|i: int, j: int| 0 <= i < j < after.len() implies (#[trigger] after[i]).actor_id != (
    #[trigger] after[j]).actor_id by {
        assert(actors[i].actor_id != actors[j].actor_id);
    }
    assert forall|id: ActorId| #[trigger] is_live(after, id) == is_live(actors, id) by {
        if is_live(actors, id) {
            let i = choose|i: int| 0 <= i < actors.len() && (#[trigger] actors[i]).actor_id == id;
            assert(after[i].actor_id == id);
        }
        if is_live(after, id) {
            let i = choose|i: int| 0 <= i < after.len() && (#[trigger] after[i]).actor_id == id;
            assert(actors[i].actor_id == id);
        }
    }
}

/// **A recorded event does not return.** Once the handlers of a frame have
/// run on a linked car, the next frame shows no demolition for that car
/// unless it brings a new one: the car must be destroyed and created anew,
/// or receive an update of its demolition attribute, before its handler
/// records an event again.
pub proof fn law_recorded_event_does_not_return(
    actors: Seq<ActorState>,
    next: Frame,
    i: int,
)
    requires
        distinct_ids(actors),
        is_linked_car(actors, i),
        !next.deleted_actors@.contains(actors[i].actor_id),
        !creates(next.new_actors@, actors[i].actor_id),
        !updates_attribute(next.updated_actors@, actors[i].actor_id, DEMOLISH@),
    ensures
        is_live(visible_actors(actors_after_handlers(actors), next), actors[i].actor_id),
        pending_demolish(
            dictionary_of(visible_actors(actors_after_handlers(actors), next), actors[i].actor_id),
        ) is None,
{
    let id = actors[i].actor_id;
    let after = actors_after_handlers(actors);
    lemma_handlers_keep_ids(actors);
    assert(after[i] == car_after_update(actors[i]));
    lemma_position_is(after, id, i);
    assert(pending_demolish(dictionary_of(after, id)) is None);
    let after_d = after_destructions(after, next.deleted_actors@);
    let after_c = after_creations(after_d, next.new_actors@);
    lemma_destructions_keep_others(after, next.deleted_actors@, id);
    lemma_creations_keep_others(after_d, next.new_actors@, id);
    lemma_creations_distinct(after_d, next.new_actors@);
    lemma_updates_keep_untouched(after_c, next.updated_actors@, id, DEMOLISH@);
}

/// Every event of a frame carries the index of that frame.
proof fn lemma_frame_events_carry_frame(actors: Seq<ActorState>, frame_number: usize)
    ensures
        forall|k: int|
            0 <= k < frame_events(actors, frame_number).len() ==> (#[trigger] frame_events(
                actors,
                frame_number,
            )[k]).frame_number == frame_number,
    decreases actors.len(),
{
    let events = frame_events(actors, frame_number);
    if actors.len() > 0 {
        let earlier = frame_events(actors.drop_last(), frame_number);
        lemma_frame_events_carry_frame(actors.drop_last(), frame_number);
        assert forall|k: int| 0 <= k < events.len() implies (#[trigger] events[k]).frame_number
            == frame_number by {
            if k < earlier.len() {
                assert(events[k] == earlier[k]);
            }
        }
    }
}

/// **Events keep the order of the frames.** A frame appends its events to
/// the list and leaves the earlier events where they are. After a run from
/// the start the events stand in the order of their frames, and each
/// carries the index of a frame already worked off.
pub proof fn law_events_in_frame_order(frames: Seq<Frame>)
    requires
        frames.len() <= usize::MAX,
    ensures
        frames.len() > 0 ==> after_frames(initial_parser(), frames).state.demos == after_frames(
            initial_parser(),
            frames.drop_last(),
        ).state.demos + frame_events(
            visible_actors(
                after_frames(initial_parser(), frames.drop_last()).actors,
                frames.last(),
            ),
            (frames.len() - 1) as usize,
        ),
        forall|k: int|
            0 <= k < after_frames(initial_parser(), frames).state.demos.len() ==> (
            #[trigger] after_frames(initial_parser(), frames).state.demos[k]).frame_number
                < frames.len(),
        forall|j: int, k: int|
            0 <= j <= k < after_frames(initial_parser(), frames).state.demos.len() ==> (
            #[trigger] after_frames(initial_parser(), frames).state.demos[j]).frame_number <= (
            #[trigger] after_frames(initial_parser(), frames).state.demos[k]).frame_number,
    decreases frames.len(),
{
    if frames.len() > 0 {
        let earlier = after_frames(initial_parser(), frames.drop_last());
        let visible = visible_actors(earlier.actors, frames.last());
        law_events_in_frame_order(frames.drop_last());
        law_records_in_frame_order(frames.drop_last());
        lemma_handlers_events(visible, earlier.frames_done, earlier.state);
        lemma_frame_events_carry_frame(visible, earlier.frames_done);
    }
}

} // verus!
