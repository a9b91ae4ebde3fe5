//! Attribute values as the replication stream carries them.
//!
//! Spatial and kinematic quantities are single-precision numbers. This layer
//! never computes with them: it stores and hands on their bit patterns, so a
//! value leaves exactly as it came in.

use vstd::prelude::*;

verus! {

/// Identifier of an actor. It is unique only while the actor is live: once an
/// actor is destroyed its identifier may be given to an unrelated actor.
pub type ActorId = i32;

/// A single-precision number, carried as its IEEE-754 bit pattern.
#[derive(Clone, Copy, Debug, PartialEq, Eq)]
pub struct Scalar {
    pub bits: u32,
}

/// Three numbers along the x, y and z axes.
#[derive(Clone, Copy, Debug, PartialEq, Eq)]
pub struct Vector3 {
    pub x: Scalar,
    pub y: Scalar,
    pub z: Scalar,
}

/// An orientation as pitch, yaw and roll.
#[derive(Clone, Copy, Debug, PartialEq, Eq)]
pub struct Rotation {
    pub pitch: Scalar,
    pub yaw: Scalar,
    pub roll: Scalar,
}

/// Reference from one actor to another actor.
#[derive(Clone, Copy, Debug, PartialEq, Eq)]
pub struct ActiveActor {
    pub active: bool,
    pub actor: ActorId,
}

/// Record of one car demolishing another.
#[derive(Clone, Copy, Debug, PartialEq, Eq)]
pub struct Demolish {
    pub attacker_flag: bool,
    pub attacker: ActorId,
    pub victim_flag: bool,
    pub victim: ActorId,
    pub attack_velocity: Vector3,
    pub victim_velocity: Vector3,
}

/// Physical state of a rigid body. The two velocities are absent while the
/// body is at rest.
#[derive(Clone, Copy, Debug, PartialEq, Eq)]
pub struct RigidBody {
    pub sleeping: bool,
    pub location: Vector3,
    pub rotation: Rotation,
    pub linear_velocity: Option<Vector3>,
    pub angular_velocity: Option<Vector3>,
}

/// A replicated attribute value. `Other` stands for every kind of value that
/// no handler reads.
#[derive(Clone, Copy, Debug, PartialEq, Eq)]
pub enum Attribute {
    Boolean(bool),
    Byte(u8),
    Int(i32),
    Float(Scalar),
    Location(Vector3),
    ActiveActor(ActiveActor),
    Demolish(Demolish),
    RigidBody(RigidBody),
    Other,
}

/// Name of the attribute that links a car to the player who controls it.
pub const PLAYER_LINK: &'static str = "Engine.Pawn:PlayerReplicationInfo";

/// Name of the attribute that announces a demolition.
pub const DEMOLISH: &'static str = "TAGame.Car_TA:ReplicatedDemolish";

/// Name of the throttle input attribute.
pub const THROTTLE: &'static str = "TAGame.Vehicle_TA:ReplicatedThrottle";

/// Name of the steering input attribute.
pub const STEER: &'static str = "TAGame.Vehicle_TA:ReplicatedSteer";

/// Name of the handbrake input attribute.
pub const HANDBRAKE: &'static str = "TAGame.Vehicle_TA:bReplicatedHandbrake";

/// Name of the rigid-body state attribute.
pub const RIGID_BODY_STATE: &'static str = "TAGame.RBActor_TA:ReplicatedRBState";

impl Scalar {
    /// Wraps a bit pattern.
    pub fn from_bits(bits: u32) -> (s: Scalar)
        ensures
            s.bits == bits,
    {
        Scalar { bits }
    }
}

/// No tracked attribute shares its name with the demolition attribute, so
/// clearing a demolition leaves every tracked attribute in place.
pub proof fn lemma_demolish_name_is_distinct()
    ensures
        DEMOLISH@ != PLAYER_LINK@,
        DEMOLISH@ != THROTTLE@,
        DEMOLISH@ != STEER@,
        DEMOLISH@ != HANDBRAKE@,
        DEMOLISH@ != RIGID_BODY_STATE@,
{
    reveal_strlit("Engine.Pawn:PlayerReplicationInfo");
    reveal_strlit("TAGame.Car_TA:ReplicatedDemolish");
    reveal_strlit("TAGame.Vehicle_TA:ReplicatedThrottle");
    reveal_strlit("TAGame.Vehicle_TA:ReplicatedSteer");
    reveal_strlit("TAGame.Vehicle_TA:bReplicatedHandbrake");
    reveal_strlit("TAGame.RBActor_TA:ReplicatedRBState");
    assert(DEMOLISH@.len() == 32);
    assert(PLAYER_LINK@.len() == 33);
    assert(THROTTLE@.len() == 36);
    assert(STEER@.len() == 33);
    assert(HANDBRAKE@.len() == 38);
    assert(RIGID_BODY_STATE@.len() == 35);
}

} // verus!
