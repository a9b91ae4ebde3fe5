//! Handlers, one per actor class, that turn an actor's dictionary into
//! entries of the aggregate state.

pub mod car;

use vstd::prelude::*;
use crate::actor::{Actor, ActorClass, ActorState};
use crate::actor_handlers::car::{car_after_update, state_after_car_update, CarHandler};
use crate::aggregate::{AggregateState, AggregateView};
use crate::attribute::{Attribute, Scalar, RIGID_BODY_STATE};

verus! {

/// What an actor's rigid-body state shows in one frame. A field is absent
/// where the dictionary holds no value for it.
#[derive(Clone, Copy, Debug, PartialEq, Eq)]
pub struct RigidBodyData {
    pub is_sleeping: Option<bool>,
    pub pos_x: Option<Scalar>,
    pub pos_y: Option<Scalar>,
    pub pos_z: Option<Scalar>,
    pub vel_x: Option<Scalar>,
    pub vel_y: Option<Scalar>,
    pub vel_z: Option<Scalar>,
    pub rot_pitch: Option<Scalar>,
    pub rot_yaw: Option<Scalar>,
    pub rot_roll: Option<Scalar>,
    pub ang_vel_x: Option<Scalar>,
    pub ang_vel_y: Option<Scalar>,
    pub ang_vel_z: Option<Scalar>,
}

/// The rigid-body reading of a dictionary: the fields of the rigid-body
/// state stored in it, unchanged, or nothing at all if it stores none.
pub open spec fn rigid_body_data(attributes: Map<Seq<char>, Attribute>) -> RigidBodyData {
    if attributes.contains_key(RIGID_BODY_STATE@)
        && attributes[RIGID_BODY_STATE@] is RigidBody {
        let body = attributes[RIGID_BODY_STATE@]->RigidBody_0;
        RigidBodyData {
            is_sleeping: Some(body.sleeping),
            pos_x: Some(body.location.x),
            pos_y: Some(body.location.y),
            pos_z: Some(body.location.z),
            vel_x: if body.linear_velocity is Some {
                Some(body.linear_velocity->0.x)
            } else {
                None
            },
            vel_y: if body.linear_velocity is Some {
                Some(body.linear_velocity->0.y)
            } else {
                None
            },
            vel_z: if body.linear_velocity is Some {
                Some(body.linear_velocity->0.z)
            } else {
                None
            },
            rot_pitch: Some(body.rotation.pitch),
            rot_yaw: Some(body.rotation.yaw),
            rot_roll: Some(body.rotation.roll),
            ang_vel_x: if body.angular_velocity is Some {
                Some(body.angular_velocity->0.x)
            } else {
                None
            },
            ang_vel_y: if body.angular_velocity is Some {
                Some(body.angular_velocity->0.y)
            } else {
                None
            },
            ang_vel_z: if body.angular_velocity is Some {
                Some(body.angular_velocity->0.z)
            } else {
                None
            },
        }
    } else {
        RigidBodyData {
            is_sleeping: None,
            pos_x: None,
            pos_y: None,
            pos_z: None,
            vel_x: None,
            vel_y: None,
            vel_z: None,
            rot_pitch: None,
            rot_yaw: None,
            rot_roll: None,
            ang_vel_x: None,
            ang_vel_y: None,
            ang_vel_z: None,
        }
    }
}

impl RigidBodyData {
    /// Reads the rigid-body state from the actor's dictionary. The values
    /// are handed on as stored, whatever the replay version.
    pub fn from(actor: &Actor, _replay_version: i32) -> (data: RigidBodyData)
        ensures
            data == rigid_body_data(actor@.attributes),
    {
        let mut data = RigidBodyData {
            is_sleeping: None,
            pos_x: None,
            pos_y: None,
            pos_z: None,
            vel_x: None,
            vel_y: None,
            vel_z: None,
            rot_pitch: None,
            rot_yaw: None,
            rot_roll: None,
            ang_vel_x: None,
            ang_vel_y: None,
            ang_vel_z: None,
        };
        if let Some(Attribute::RigidBody(body)) = actor.attributes.get(RIGID_BODY_STATE) {
            data.is_sleeping = Some(body.sleeping);
            data.pos_x = Some(body.location.x);
            data.pos_y = Some(body.location.y);
            data.pos_z = Some(body.location.z);
            data.rot_pitch = Some(body.rotation.pitch);
            data.rot_yaw = Some(body.rotation.yaw);
            data.rot_roll = Some(body.rotation.roll);
            if let Some(velocity) = body.linear_velocity {
                data.vel_x = Some(velocity.x);
                data.vel_y = Some(velocity.y);
                data.vel_z = Some(velocity.z);
            }
            if let Some(velocity) = body.angular_velocity {
                data.ang_vel_x = Some(velocity.x);
                data.ang_vel_y = Some(velocity.y);
                data.ang_vel_z = Some(velocity.z);
            }
        }
        data
    }
}

/// The handler of one actor class. A class without handler of its own gets
/// `Ignore`, which does nothing.
#[derive(Clone, Copy, Debug)]
pub enum ActorHandler {
    Car(CarHandler),
    Ignore,
}

/// An actor after the handler of its class has run. An actor of a class
/// without handler stays as it is.
pub open spec fn actor_after_handler(actor: ActorState) -> ActorState {
    match actor.class {
        ActorClass::Car => car_after_update(actor),
        ActorClass::Other => actor,
    }
}

/// The aggregate state after the handler for `actor` has run in frame
/// `frame_number`.
pub open spec fn state_after_handler(
    actor: ActorState,
    frame_number: usize,
    state: AggregateView,
) -> AggregateView {
    match actor.class {
        ActorClass::Car => state_after_car_update(actor, frame_number, state),
        ActorClass::Other => state,
    }
}

impl ActorHandler {
    /// The handler for actors of class `class`, in a run of `frame_count`
    /// frames of a replay with version tag `replay_version`.
    pub fn for_class(class: ActorClass, frame_count: usize, replay_version: i32) -> (handler:
        ActorHandler)
        ensures
            handler == (match class {
                ActorClass::Car => ActorHandler::Car(CarHandler { frame_count, replay_version }),
                ActorClass::Other => ActorHandler::Ignore,
            }),
    {
        match class {
            ActorClass::Car => ActorHandler::Car(CarHandler::new(frame_count, replay_version)),
            ActorClass::Other => ActorHandler::Ignore,
        }
    }

    /// Runs the handler on `actor` for frame `frame_number`, recorded at
    /// `time`, `delta` after the frame before. The car handler does what
    /// [`CarHandler::update`] says; `Ignore` leaves actor and state alone.
    pub fn update(
        &self,
        actor: &mut Actor,
        frame_number: usize,
        time: Scalar,
        delta: Scalar,
        state: &mut AggregateState,
    )
        ensures
            match self {
                ActorHandler::Car(_) => {
                    &&& final(actor)@ == car_after_update(old(actor)@)
                    &&& final(state)@ == state_after_car_update(
                        old(actor)@,
                        frame_number,
                        old(state)@,
                    )
                },
                ActorHandler::Ignore => {
                    &&& final(actor)@ == old(actor)@
                    &&& final(state)@ == old(state)@
                },
            },
    {
        match self {
            ActorHandler::Car(handler) => handler.update(actor, frame_number, time, delta, state),
            ActorHandler::Ignore => {},
        }
    }
}

} // verus!
