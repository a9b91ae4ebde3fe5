//! Live actors and the registry that tracks them.
//!
//! The registry keeps the live actors in the order of their creation. No two
//! live actors share an identifier; an identifier freed by a destroyed actor
//! may be taken by a later, unrelated actor, which then starts from an empty
//! dictionary.

use vstd::prelude::*;
use crate::attribute::{ActorId, Attribute};
use crate::dictionary::AttributeDictionary;

verus! {

/// Class of an actor. Each known class has a handler; `Other` has none.
#[derive(Clone, Copy, Debug, PartialEq, Eq)]
pub enum ActorClass {
    Car,
    Other,
}

/// Name under which the stream announces an actor of the car class.
pub const CAR_ARCHETYPE: &'static str = "Archetypes.Car.Car_Default";

impl ActorClass {
    /// The class that an object name stands for: the car class for the car
    /// archetype, `Other` for every other name.
    pub open spec fn of_object_name(name: Seq<char>) -> ActorClass {
        if name == CAR_ARCHETYPE@ {
            ActorClass::Car
        } else {
            ActorClass::Other
        }
    }

    /// Reads the class of a new actor from the object name that the stream
    /// gives for it. A name that is not known yields `Other`.
    pub fn from_object_name(name: &str) -> (class: ActorClass)
        ensures
            class == ActorClass::of_object_name(name@),
    {
        if name.to_owned() == CAR_ARCHETYPE.to_owned() {
            ActorClass::Car
        } else {
            ActorClass::Other
        }
    }
}

/// A live actor with the attributes received for it so far.
pub struct Actor {
    pub actor_id: ActorId,
    pub class: ActorClass,
    pub attributes: AttributeDictionary,
}

/// Mathematical model of an [`Actor`].
pub struct ActorState {
    pub actor_id: ActorId,
    pub class: ActorClass,
    pub attributes: Map<Seq<char>, Attribute>,
}

impl View for Actor {
    type V = ActorState;

    open spec fn view(&self) -> ActorState {
        ActorState { actor_id: self.actor_id, class: self.class, attributes: self.attributes@ }
    }
}

/// No identifier occurs twice.
pub open spec fn distinct_ids(actors: Seq<ActorState>) -> bool {
    forall|i: int, j: int|
        0 <= i < j < actors.len() ==> (#[trigger] actors[i]).actor_id != (
        #[trigger] actors[j]).actor_id
}

/// Whether an actor with identifier `id` is among `actors`.
pub open spec fn is_live(actors: Seq<ActorState>, id: ActorId) -> bool {
    exists|i: int| 0 <= i < actors.len() && (#[trigger] actors[i]).actor_id == id
}

/// Where the actor with identifier `id` stands among `actors`.
pub open spec fn position(actors: Seq<ActorState>, id: ActorId) -> int
    recommends
        is_live(actors, id),
{
    choose|i: int| 0 <= i < actors.len() && (#[trigger] actors[i]).actor_id == id
}

/// The dictionary of the live actor `id`.
pub open spec fn dictionary_of(actors: Seq<ActorState>, id: ActorId) -> Map<Seq<char>, Attribute>
    recommends
        is_live(actors, id),
{
    actors[position(actors, id)].attributes
}

/// A newly created actor: it has no attributes yet.
pub open spec fn fresh_actor(id: ActorId, class: ActorClass) -> ActorState {
    ActorState { actor_id: id, class, attributes: Map::empty() }
}

/// `actors` after the actor `id` is destroyed. Nothing changes if no such
/// actor is live.
pub open spec fn destroyed(actors: Seq<ActorState>, id: ActorId) -> Seq<ActorState> {
    if is_live(actors, id) {
        actors.remove(position(actors, id))
    } else {
        actors
    }
}

/// `actors` after an actor `id` of class `class` is created. A live actor
/// that held the identifier before is dropped with all its attributes.
pub open spec fn created(actors: Seq<ActorState>, id: ActorId, class: ActorClass) -> Seq<
    ActorState,
> {
    destroyed(actors, id).push(fresh_actor(id, class))
}

/// `actors` after `value` is stored under `name` for the live actor `id`.
/// Nothing changes if no such actor is live.
pub open spec fn merged(
    actors: Seq<ActorState>,
    id: ActorId,
    name: Seq<char>,
    value: Attribute,
) -> Seq<ActorState> {
    if is_live(actors, id) {
        let at = position(actors, id);
        actors.update(
            at,
            ActorState {
                actor_id: id,
                class: actors[at].class,
                attributes: actors[at].attributes.insert(name, value),
            },
        )
    } else {
        actors
    }
}

/// An attribute update that named an actor which is not live. The update is
/// handed back unapplied.
#[derive(Debug, PartialEq, Eq)]
pub struct UnknownActor {
    pub actor_id: ActorId,
    pub name: String,
}

/// The live actors, in the order of their creation.
pub struct ActorRegistry {
    pub(crate) actors: Vec<Actor>,
}

impl ActorRegistry {
    /// The live actors as models, oldest first.
    pub open(crate) spec fn view(&self) -> Seq<ActorState> {
        Seq::new(self.actors@.len(), |i: int| self.actors@[i]@)
    }

    /// No two live actors share an identifier.
    pub open spec fn well_formed(&self) -> bool {
        distinct_ids(self@)
    }

    /// A registry without actors.
    pub fn new() -> (registry: ActorRegistry)
        ensures
            registry@ == Seq::<ActorState>::empty(),
            registry.well_formed(),
    {
        ActorRegistry { actors: Vec::new() }
    }

    /// Number of live actors.
    pub fn len(&self) -> (n: usize)
        ensures
            n == self@.len(),
    {
        self.actors.len()
    }

    /// Index of the live actor `id`, if there is one.
    pub(crate) fn find(&self, id: ActorId) -> (found: Option<usize>)
        requires
            self.well_formed(),
        ensures
            match found {
                Some(at) => is_live(self@, id) && at == position(self@, id),
                None => !is_live(self@, id),
            },
    {
        let mut i: usize = 0;
        while i < self.actors.len()
            invariant
                self.well_formed(),
                i <= self.actors.len(),
                forall|k: int| 0 <= k < i ==> (#[trigger] self@[k]).actor_id != id,
            decreases self.actors.len() - i,
        {
            if self.actors[i].actor_id == id {
                assert(self@[i as int].actor_id == id);
                return Some(i);
            }
            i += 1;
        }
        None
    }

    /// Whether an actor with identifier `id` is live.
    pub fn contains(&self, id: ActorId) -> (live: bool)
        requires
            self.well_formed(),
        ensures
            live == is_live(self@, id),
    {
        self.find(id).is_some()
    }

    /// The live actor `id`, if there is one.
    pub fn get(&self, id: ActorId) -> (actor: Option<&Actor>)
        requires
            self.well_formed(),
        ensures
            match actor {
                Some(a) => is_live(self@, id) && a@ == self@[position(self@, id)],
                None => !is_live(self@, id),
            },
    {
        match self.find(id) {
            Some(at) => Some(&self.actors[at]),
            None => None,
        }
    }

    /// Removes the actor `id` and its dictionary. Does nothing if no such
    /// actor is live.
    pub fn on_destroy(&mut self, actor_id: ActorId)
        requires
            old(self).well_formed(),
        ensures
            final(self).well_formed(),
            final(self)@ == destroyed(old(self)@, actor_id),
            !is_live(final(self)@, actor_id),
            forall|other: ActorId|
                other != actor_id ==> #[trigger] is_live(final(self)@, other) == is_live(
                    old(self)@,
                    other,
                ),
            forall|other: ActorId|
                other != actor_id && is_live(old(self)@, other) ==> #[trigger] dictionary_of(
                    final(self)@,
                    other,
                ) == dictionary_of(old(self)@, other),
    {
        match self.find(actor_id) {
            Some(at) => {
                self.actors.remove(at);
                assert(self@ =~= destroyed(old(self)@, actor_id));
            },
            None => {},
        }
        proof {
            lemma_destroyed_distinct(old(self)@, actor_id);
            assert forall|other: ActorId| other != actor_id implies #[trigger] is_live(
                self@,
                other,
            ) == is_live(old(self)@, other) by {
                lemma_destroyed_keeps_others(old(self)@, actor_id, other);
            }
            assert forall|other: ActorId|
                other != actor_id && is_live(old(self)@, other) implies #[trigger] dictionary_of(
                self@,
                other,
            ) == dictionary_of(old(self)@, other) by {
                lemma_destroyed_keeps_others(old(self)@, actor_id, other);
            }
        }
    }

    /// Registers a new actor `id` with an empty dictionary. A live actor
    /// that held the identifier before is dropped first, so nothing of the
    /// earlier occupant stays visible.
    pub fn on_create(&mut self, actor_id: ActorId, class: ActorClass)
        requires
            old(self).well_formed(),
        ensures
            final(self).well_formed(),
            final(self)@ == created(old(self)@, actor_id, class),
            is_live(final(self)@, actor_id),
            dictionary_of(final(self)@, actor_id) == Map::<Seq<char>, Attribute>::empty(),
            forall|other: ActorId|
                other != actor_id ==> #[trigger] is_live(final(self)@, other) == is_live(
                    old(self)@,
                    other,
                ),
            forall|other: ActorId|
                other != actor_id && is_live(old(self)@, other) ==> #[trigger] dictionary_of(
                    final(self)@,
                    other,
                ) == dictionary_of(old(self)@, other),
    {
        self.on_destroy(actor_id);
        let ghost before = self@;
        self.actors.push(Actor { actor_id, class, attributes: AttributeDictionary::new() });
        assert(self@ =~= before.push(fresh_actor(actor_id, class)));
        proof {
            lemma_created_is_fresh(old(self)@, actor_id, class);
            assert forall|other: ActorId| other != actor_id implies #[trigger] is_live(
                self@,
                other,
            ) == is_live(old(self)@, other) by {
                lemma_created_keeps_others(old(self)@, actor_id, class, other);
            }
            assert forall|other: ActorId|
                other != actor_id && is_live(old(self)@, other) implies #[trigger] dictionary_of(
                self@,
                other,
            ) == dictionary_of(old(self)@, other) by {
                lemma_created_keeps_others(old(self)@, actor_id, class, other);
            }
        }
    }

    /// Stores `value` under `name` in the dictionary of the live actor `id`;
    /// every other attribute of every actor keeps its value. If no such actor
    /// is live the registry stays as it is and the update is handed back.
    pub fn merge_update(&mut self, actor_id: ActorId, name: String, value: Attribute) -> (result:
        Result<(), UnknownActor>)
        requires
            old(self).well_formed(),
        ensures
            final(self).well_formed(),
            final(self)@ == merged(old(self)@, actor_id, name@, value),
            match result {
                Ok(_) => is_live(old(self)@, actor_id),
                Err(e) => !is_live(old(self)@, actor_id) && e.actor_id == actor_id && e.name == name,
            },
            forall|id: ActorId| #[trigger] is_live(final(self)@, id) == is_live(old(self)@, id),
            forall|id: ActorId|
                is_live(old(self)@, id) ==> #[trigger] dictionary_of(final(self)@, id) == (if id
                    == actor_id {
                    dictionary_of(old(self)@, id).insert(name@, value)
                } else {
                    dictionary_of(old(self)@, id)
                }),
    {
        proof {
            let after = merged(old(self)@, actor_id, name@, value);
            assert forall|id: ActorId| #[trigger] is_live(after, id) == is_live(old(self)@, id) by {
                lemma_merged_keeps_ids(old(self)@, actor_id, name@, value);
                if is_live(old(self)@, id) {
                    lemma_merged_dictionary(old(self)@, actor_id, name@, value, id);
                }
                if is_live(after, id) {
                    let i = position(after, id);
                    assert(old(self)@[i].actor_id == id);
                }
            }
            assert forall|id: ActorId| is_live(old(self)@, id) implies #[trigger] dictionary_of(
                after,
                id,
            ) == (if id == actor_id {
                dictionary_of(old(self)@, id).insert(name@, value)
            } else {
                dictionary_of(old(self)@, id)
            }) by {
                lemma_merged_dictionary(old(self)@, actor_id, name@, value, id);
            }
        }
        match self.find(actor_id) {
            Some(at) => {
                self.actors[at].attributes.set(name, value);
                assert(self@ =~= merged(old(self)@, actor_id, name@, value));
                Ok(())
            },
            None => Err(UnknownActor { actor_id, name }),
        }
    }
}

/// Destroying an actor keeps the identifiers distinct.
pub(crate) proof fn lemma_destroyed_distinct(actors: Seq<ActorState>, id: ActorId)
    requires
        distinct_ids(actors),
    ensures
        distinct_ids(destroyed(actors, id)),
        !is_live(destroyed(actors, id), id),
{
}

/// Creating an actor keeps the identifiers distinct.
pub(crate) proof fn lemma_created_distinct(actors: Seq<ActorState>, id: ActorId, class: ActorClass)
    requires
        distinct_ids(actors),
    ensures
        distinct_ids(created(actors, id, class)),
{
    lemma_destroyed_distinct(actors, id);
}

/// Merging an update moves no actor and changes no identifier.
pub(crate) proof fn lemma_merged_keeps_ids(
    actors: Seq<ActorState>,
    id: ActorId,
    name: Seq<char>,
    value: Attribute,
)
    ensures
        merged(actors, id, name, value).len() == actors.len(),
        forall|i: int|
            0 <= i < actors.len() ==> (#[trigger] merged(actors, id, name, value)[i]).actor_id
                == actors[i].actor_id && merged(actors, id, name, value)[i].class
                == actors[i].class,
{
}

/// With distinct identifiers an actor stands where its identifier is found.
pub(crate) proof fn lemma_position_is(actors: Seq<ActorState>, id: ActorId, i: int)
    requires
        distinct_ids(actors),
        0 <= i < actors.len(),
        actors[i].actor_id == id,
    ensures
        is_live(actors, id),
        position(actors, id) == i,
{
}

/// Destroying an actor leaves every other actor and its dictionary in place.
pub(crate) proof fn lemma_destroyed_keeps_others(actors: Seq<ActorState>, gone: ActorId, id: ActorId)
    requires
        distinct_ids(actors),
        gone != id,
    ensures
        is_live(destroyed(actors, gone), id) == is_live(actors, id),
        is_live(actors, id) ==> dictionary_of(destroyed(actors, gone), id) == dictionary_of(
            actors,
            id,
        ),
{
    let after = destroyed(actors, gone);
    lemma_destroyed_distinct(actors, gone);
    if is_live(actors, gone) {
        let at = position(actors, gone);
        if is_live(actors, id) {
            let i = position(actors, id);
            let j = if i < at {
                i
            } else {
                i - 1
            };
            assert(after[j] == actors[i]);
            lemma_position_is(after, id, j);
        }
        if is_live(after, id) {
            let j = position(after, id);
            let i = if j < at {
                j
            } else {
                j + 1
            };
            assert(actors[i] == after[j]);
        }
    }
}

/// Creating an actor leaves every other actor and its dictionary in place.
pub(crate) proof fn lemma_created_keeps_others(
    actors: Seq<ActorState>,
    new_id: ActorId,
    class: ActorClass,
    id: ActorId,
)
    requires
        distinct_ids(actors),
        new_id != id,
    ensures
        is_live(created(actors, new_id, class), id) == is_live(actors, id),
        is_live(actors, id) ==> dictionary_of(created(actors, new_id, class), id)
            == dictionary_of(actors, id),
{
    let without = destroyed(actors, new_id);
    let after = created(actors, new_id, class);
    lemma_destroyed_keeps_others(actors, new_id, id);
    lemma_destroyed_distinct(actors, new_id);
    lemma_created_distinct(actors, new_id, class);
    if is_live(without, id) {
        let i = position(without, id);
        assert(after[i] == without[i]);
        lemma_position_is(after, id, i);
    }
    if is_live(after, id) {
        let i = position(after, id);
        assert(i < without.len());
        assert(without[i] == after[i]);
    }
}

/// A created actor is live and has an empty dictionary.
pub(crate) proof fn lemma_created_is_fresh(actors: Seq<ActorState>, id: ActorId, class: ActorClass)
    requires
        distinct_ids(actors),
    ensures
        distinct_ids(created(actors, id, class)),
        is_live(created(actors, id, class), id),
        dictionary_of(created(actors, id, class), id) == Map::<Seq<char>, Attribute>::empty(),
{
    let after = created(actors, id, class);
    lemma_created_distinct(actors, id, class);
    lemma_position_is(after, id, after.len() - 1);
}

/// Merging an update changes one name in one dictionary and nothing else.
pub(crate) proof fn lemma_merged_dictionary(
    actors: Seq<ActorState>,
    target: ActorId,
    name: Seq<char>,
    value: Attribute,
    id: ActorId,
)
    requires
        distinct_ids(actors),
        is_live(actors, id),
    ensures
        distinct_ids(merged(actors, target, name, value)),
        is_live(merged(actors, target, name, value), id),
        dictionary_of(merged(actors, target, name, value), id) == (if target == id {
            dictionary_of(actors, id).insert(name, value)
        } else {
            dictionary_of(actors, id)
        }),
{
    let after = merged(actors, target, name, value);
    let i = position(actors, id);
    assert(after[i].actor_id == id);
    assert forall|a: int, b: int| 0 <= a < b < after.len() implies (#[trigger] after[a]).actor_id != (
    #[trigger] after[b]).actor_id by {
        assert(actors[a].actor_id != actors[b].actor_id);
    }
    lemma_position_is(after, id, i);
}

} // verus!
