//! The handler for car actors.

use vstd::prelude::*;
use std::collections::hash_map::Entry;
use std::collections::HashMap;
use crate::actor::{Actor, ActorState};
use crate::aggregate::{recorded, AggregateState, AggregateView};
use crate::actor_handlers::{rigid_body_data, RigidBodyData};
use crate::attribute::{
    ActorId,
    Attribute,
    Demolish,
    Scalar,
    DEMOLISH,
    HANDBRAKE,
    PLAYER_LINK,
    STEER,
    THROTTLE,
};

verus! {

/// What a car shows in one frame: its control inputs and its rigid-body
/// state. A field is absent where the dictionary holds no value for it;
/// nothing is carried forward from earlier snapshots.
#[derive(Clone, Copy, Debug, PartialEq, Eq)]
pub struct TimeSeriesCarData {
    pub throttle: Option<u8>,
    pub steer: Option<u8>,
    pub handbrake: Option<u8>,
    pub is_sleeping: Option<bool>,
    pub pos_x: Option<Scalar>,
    pub pos_y: Option<Scalar>,
    pub pos_z: Option<Scalar>,
    pub vel_x: Option<Scalar>,
    pub vel_y: Option<Scalar>,
    pub vel_z: Option<Scalar>,
    pub rot_pitch: Option<Scalar>,
    pub rot_yaw: Option<Scalar>,
    pub rot_roll: Option<Scalar>,
    pub ang_vel_x: Option<Scalar>,
    pub ang_vel_y: Option<Scalar>,
    pub ang_vel_z: Option<Scalar>,
}

/// One demolition: the frame in which it was seen and the two cars involved.
#[derive(Clone, Copy, Debug, PartialEq, Eq)]
pub struct DemoData {
    pub frame_number: usize,
    pub attacker_actor_id: ActorId,
    pub victim_actor_id: ActorId,
}

/// The byte stored under `name`, if a byte is stored there.
pub open spec fn byte_attribute(attributes: Map<Seq<char>, Attribute>, name: Seq<char>) -> Option<
    u8,
> {
    if attributes.contains_key(name) && attributes[name] is Byte {
        Some(attributes[name]->Byte_0)
    } else {
        None
    }
}

/// The snapshot that a dictionary gives: the three control inputs and the
/// rigid-body reading, each as stored.
pub open spec fn car_snapshot(attributes: Map<Seq<char>, Attribute>) -> TimeSeriesCarData {
    let body = rigid_body_data(attributes);
    TimeSeriesCarData {
        throttle: byte_attribute(attributes, THROTTLE@),
        steer: byte_attribute(attributes, STEER@),
        handbrake: byte_attribute(attributes, HANDBRAKE@),
        is_sleeping: body.is_sleeping,
        pos_x: body.pos_x,
        pos_y: body.pos_y,
        pos_z: body.pos_z,
        vel_x: body.vel_x,
        vel_y: body.vel_y,
        vel_z: body.vel_z,
        rot_pitch: body.rot_pitch,
        rot_yaw: body.rot_yaw,
        rot_roll: body.rot_roll,
        ang_vel_x: body.ang_vel_x,
        ang_vel_y: body.ang_vel_y,
        ang_vel_z: body.ang_vel_z,
    }
}

/// The derived event for a demolition seen in frame `frame_number`.
pub open spec fn demo_record(demolish: Demolish, frame_number: usize) -> DemoData {
    DemoData {
        frame_number,
        attacker_actor_id: demolish.attacker,
        victim_actor_id: demolish.victim,
    }
}

/// The player that a car's dictionary names as its controller, if any.
pub open spec fn player_link(attributes: Map<Seq<char>, Attribute>) -> Option<ActorId> {
    if attributes.contains_key(PLAYER_LINK@) && attributes[PLAYER_LINK@] is ActiveActor {
        Some(attributes[PLAYER_LINK@]->ActiveActor_0.actor)
    } else {
        None
    }
}

/// The demolition that a car's dictionary still announces, if any.
pub open spec fn pending_demolish(attributes: Map<Seq<char>, Attribute>) -> Option<Demolish> {
    if attributes.contains_key(DEMOLISH@) && attributes[DEMOLISH@] is Demolish {
        Some(attributes[DEMOLISH@]->Demolish_0)
    } else {
        None
    }
}

/// The car after its handler has run. A demolition that the handler
/// recorded is cleared from the dictionary; nothing else changes.
pub open spec fn car_after_update(car: ActorState) -> ActorState {
    if player_link(car.attributes) is Some && pending_demolish(car.attributes) is Some {
        ActorState {
            actor_id: car.actor_id,
            class: car.class,
            attributes: car.attributes.remove(DEMOLISH@),
        }
    } else {
        car
    }
}

/// The aggregate state after the car handler has run on `car` in frame
/// `frame_number`. A car without a player link leaves the state as it is.
/// Otherwise the car is linked to the player, the car's snapshot is recorded
/// for the player at this frame, and a pending demolition is appended to the
/// events.
pub open spec fn state_after_car_update(
    car: ActorState,
    frame_number: usize,
    state: AggregateView,
) -> AggregateView {
    match player_link(car.attributes) {
        Some(player) => AggregateView {
            owners: state.owners.insert(car.actor_id, player),
            series: recorded(state.series, player, frame_number, car_snapshot(car.attributes)),
            demos: match pending_demolish(car.attributes) {
                Some(demolish) => state.demos.push(demo_record(demolish, frame_number)),
                None => state.demos,
            },
        },
        None => state,
    }
}

/// Handler for actors of the car class.
#[derive(Clone, Copy, Debug)]
pub struct CarHandler {
    /// Number of frames in the run, used to size a new series.
    pub frame_count: usize,
    /// Version tag of the replay.
    pub replay_version: i32,
}

impl CarHandler {
    /// A handler for a run of `frame_count` frames of a replay with version
    /// tag `replay_version`.
    pub fn new(frame_count: usize, replay_version: i32) -> (handler: CarHandler)
        ensures
            handler.frame_count == frame_count,
            handler.replay_version == replay_version,
    {
        CarHandler { frame_count, replay_version }
    }

    /// Runs the handler on `actor` for frame `frame_number`.
    ///
    /// If the dictionary links the car to a player, the link and the car's
    /// snapshot are written to `state`; a demolition found in the dictionary
    /// is appended to the events and then cleared, so that a later run on the
    /// same dictionary does not record it again. Without a link nothing is
    /// written and nothing is cleared. The time of the frame and the time
    /// since the frame before play no part for a car.
    pub fn update(
        &self,
        actor: &mut Actor,
        frame_number: usize,
        _time: Scalar,
        _delta: Scalar,
        state: &mut AggregateState,
    )
        ensures
            final(actor)@ == car_after_update(old(actor)@),
            final(state)@ == state_after_car_update(old(actor)@, frame_number, old(state)@),
    {
        broadcast use vstd::std_specs::hash::group_hash_axioms;

        let car_actor_id = actor.actor_id;
        if let Some(Attribute::ActiveActor(active_actor)) = actor.attributes.get(PLAYER_LINK) {
            let player_actor_id = active_actor.actor;
            state.car_ids_to_player_ids.insert(car_actor_id, player_actor_id);

            let car_data = TimeSeriesCarData::from(actor, self.replay_version);
            match state.players_time_series_car_data.entry(player_actor_id) {
                Entry::Occupied(entry) => {
                    let player_data = entry.into_mut();
                    player_data.insert(frame_number, car_data);
                },
                Entry::Vacant(entry) => {
                    let remaining = if frame_number <= self.frame_count {
                        self.frame_count - frame_number
                    } else {
                        0
                    };
                    let mut player_data = HashMap::with_capacity(remaining);
                    player_data.insert(frame_number, car_data);
                    entry.insert(player_data);
                },
            }
            assert(state@.series =~= recorded(
                old(state)@.series,
                player_actor_id,
                frame_number,
                car_data,
            ));

            if let Some(Attribute::Demolish(demolish)) = actor.attributes.get(DEMOLISH) {
                state.demos_data.push(DemoData::from(&demolish, frame_number));
                actor.attributes.remove(DEMOLISH);
            }
        }
    }
}

impl TimeSeriesCarData {
    /// Builds the snapshot of a car from its dictionary.
    pub fn from(actor: &Actor, replay_version: i32) -> (data: TimeSeriesCarData)
        ensures
            data == car_snapshot(actor@.attributes),
    {
        let mut throttle = None;
        let mut steer = None;
        let mut handbrake = None;

        if let Some(Attribute::Byte(value)) = actor.attributes.get(THROTTLE) {
            throttle = Some(value);
        }
        if let Some(Attribute::Byte(value)) = actor.attributes.get(STEER) {
            steer = Some(value);
        }
        if let Some(Attribute::Byte(value)) = actor.attributes.get(HANDBRAKE) {
            handbrake = Some(value);
        }

        let rigid_body_data = RigidBodyData::from(actor, replay_version);

        TimeSeriesCarData {
            throttle,
            steer,
            handbrake,
            is_sleeping: rigid_body_data.is_sleeping,
            pos_x: rigid_body_data.pos_x,
            pos_y: rigid_body_data.pos_y,
            pos_z: rigid_body_data.pos_z,
            vel_x: rigid_body_data.vel_x,
            vel_y: rigid_body_data.vel_y,
            vel_z: rigid_body_data.vel_z,
            rot_pitch: rigid_body_data.rot_pitch,
            rot_yaw: rigid_body_data.rot_yaw,
            rot_roll: rigid_body_data.rot_roll,
            ang_vel_x: rigid_body_data.ang_vel_x,
            ang_vel_y: rigid_body_data.ang_vel_y,
            ang_vel_z: rigid_body_data.ang_vel_z,
        }
    }
}

impl DemoData {
    /// The derived event for `demolish`, seen in frame `frame_number`.
    pub fn from(demolish: &Demolish, frame_number: usize) -> (demo: DemoData)
        ensures
            demo == demo_record(*demolish, frame_number),
    {
        DemoData {
            frame_number,
            attacker_actor_id: demolish.attacker,
            victim_actor_id: demolish.victim,
        }
    }
}

} // verus!
