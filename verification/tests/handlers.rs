use carball::actor::{Actor, ActorClass, CAR_ARCHETYPE};
use carball::actor_handlers::car::{CarHandler, DemoData, TimeSeriesCarData};
use carball::actor_handlers::{ActorHandler, RigidBodyData};
use carball::aggregate::AggregateState;
use carball::attribute::{
    ActiveActor, Attribute, Demolish, RigidBody, Rotation, Scalar, Vector3, DEMOLISH, HANDBRAKE,
    PLAYER_LINK, RIGID_BODY_STATE, STEER, THROTTLE,
};
use carball::dictionary::AttributeDictionary;
use std::collections::HashMap;

fn number(value: f32) -> Scalar {
    Scalar { bits: value.to_bits() }
}

fn vector(x: f32, y: f32, z: f32) -> Vector3 {
    Vector3 { x: number(x), y: number(y), z: number(z) }
}

fn car(actor_id: i32) -> Actor {
    Actor { actor_id, class: ActorClass::Car, attributes: AttributeDictionary::new() }
}

fn moving_body() -> RigidBody {
    RigidBody {
        sleeping: false,
        location: vector(1.5, -2.25, 17.0),
        rotation: Rotation { pitch: number(0.125), yaw: number(-3.0), roll: number(0.5) },
        linear_velocity: Some(vector(100.0, 200.0, -300.0)),
        angular_velocity: Some(vector(0.25, 0.75, -1.0)),
    }
}

fn wreck(attacker: i32, victim: i32) -> Demolish {
    Demolish {
        attacker_flag: true,
        attacker,
        victim_flag: false,
        victim,
        attack_velocity: vector(1.0, 2.0, 3.0),
        victim_velocity: vector(4.0, 5.0, 6.0),
    }
}

fn no_state() -> AggregateState {
    AggregateState::new()
}

#[test]
fn demo_data_takes_frame_and_participants() {
    let demo = DemoData::from(&wreck(11, 12), 42);
    assert_eq!(demo, DemoData { frame_number: 42, attacker_actor_id: 11, victim_actor_id: 12 });
}

#[test]
fn rigid_body_data_of_empty_dictionary_is_empty() {
    let data = RigidBodyData::from(&car(1), 0);
    assert_eq!(
        data,
        RigidBodyData {
            is_sleeping: None,
            pos_x: None,
            pos_y: None,
            pos_z: None,
            vel_x: None,
            vel_y: None,
            vel_z: None,
            rot_pitch: None,
            rot_yaw: None,
            rot_roll: None,
            ang_vel_x: None,
            ang_vel_y: None,
            ang_vel_z: None,
        }
    );
}

#[test]
fn rigid_body_data_hands_on_every_field() {
    let mut actor = car(1);
    actor.attributes.set(RIGID_BODY_STATE.to_string(), Attribute::RigidBody(moving_body()));
    let data = RigidBodyData::from(&actor, 0);
    assert_eq!(
        data,
        RigidBodyData {
            is_sleeping: Some(false),
            pos_x: Some(number(1.5)),
            pos_y: Some(number(-2.25)),
            pos_z: Some(number(17.0)),
            vel_x: Some(number(100.0)),
            vel_y: Some(number(200.0)),
            vel_z: Some(number(-300.0)),
            rot_pitch: Some(number(0.125)),
            rot_yaw: Some(number(-3.0)),
            rot_roll: Some(number(0.5)),
            ang_vel_x: Some(number(0.25)),
            ang_vel_y: Some(number(0.75)),
            ang_vel_z: Some(number(-1.0)),
        }
    );
    assert_eq!(RigidBodyData::from(&actor, 0), RigidBodyData::from(&actor, 31));
}

#[test]
fn sleeping_body_has_no_velocities() {
    let mut actor = car(1);
    let body = RigidBody { sleeping: true, linear_velocity: None, angular_velocity: None, ..moving_body() };
    actor.attributes.set(RIGID_BODY_STATE.to_string(), Attribute::RigidBody(body));
    let data = TimeSeriesCarData::from(&actor, 0);
    assert_eq!(data.is_sleeping, Some(true));
    assert_eq!(data.pos_x, Some(number(1.5)));
    assert_eq!(data.pos_y, Some(number(-2.25)));
    assert_eq!(data.pos_z, Some(number(17.0)));
    assert_eq!(data.rot_pitch, Some(number(0.125)));
    assert_eq!(data.rot_yaw, Some(number(-3.0)));
    assert_eq!(data.rot_roll, Some(number(0.5)));
    assert_eq!((data.vel_x, data.vel_y, data.vel_z), (None, None, None));
    assert_eq!((data.ang_vel_x, data.ang_vel_y, data.ang_vel_z), (None, None, None));
    assert_eq!((data.throttle, data.steer, data.handbrake), (None, None, None));
}

#[test]
fn only_one_velocity_present() {
    let mut actor = car(1);
    let body = RigidBody { angular_velocity: None, ..moving_body() };
    actor.attributes.set(RIGID_BODY_STATE.to_string(), Attribute::RigidBody(body));
    let data = RigidBodyData::from(&actor, 0);
    assert_eq!(data.vel_z, Some(number(-300.0)));
    assert_eq!(data.ang_vel_x, None);
}

#[test]
fn car_data_reads_controls_and_body() {
    let mut actor = car(1);
    actor.attributes.set(THROTTLE.to_string(), Attribute::Byte(255));
    actor.attributes.set(STEER.to_string(), Attribute::Byte(0));
    actor.attributes.set(HANDBRAKE.to_string(), Attribute::Byte(1));
    actor.attributes.set(RIGID_BODY_STATE.to_string(), Attribute::RigidBody(moving_body()));
    let data = TimeSeriesCarData::from(&actor, 0);
    assert_eq!(
        data,
        TimeSeriesCarData {
            throttle: Some(255),
            steer: Some(0),
            handbrake: Some(1),
            is_sleeping: Some(false),
            pos_x: Some(number(1.5)),
            pos_y: Some(number(-2.25)),
            pos_z: Some(number(17.0)),
            vel_x: Some(number(100.0)),
            vel_y: Some(number(200.0)),
            vel_z: Some(number(-300.0)),
            rot_pitch: Some(number(0.125)),
            rot_yaw: Some(number(-3.0)),
            rot_roll: Some(number(0.5)),
            ang_vel_x: Some(number(0.25)),
            ang_vel_y: Some(number(0.75)),
            ang_vel_z: Some(number(-1.0)),
        }
    );
}

#[test]
fn value_of_another_kind_is_not_read() {
    let mut actor = car(1);
    actor.attributes.set(THROTTLE.to_string(), Attribute::Int(200));
    actor.attributes.set(STEER.to_string(), Attribute::Boolean(true));
    actor.attributes.set(HANDBRAKE.to_string(), Attribute::Byte(7));
    actor.attributes.set(RIGID_BODY_STATE.to_string(), Attribute::Location(vector(1.0, 2.0, 3.0)));
    let data = TimeSeriesCarData::from(&actor, 0);
    assert_eq!(data.throttle, None);
    assert_eq!(data.steer, None);
    assert_eq!(data.handbrake, Some(7));
    assert_eq!(data.is_sleeping, None);
    assert_eq!(data.pos_x, None);
}

#[test]
fn update_without_link_does_nothing() {
    let handler = CarHandler::new(10, 0);
    let mut actor = car(1);
    actor.attributes.set(THROTTLE.to_string(), Attribute::Byte(5));
    actor.attributes.set(DEMOLISH.to_string(), Attribute::Demolish(wreck(1, 2)));
    let mut state = no_state();
    handler.update(&mut actor, 3, number(0.0), number(0.0), &mut state);
    assert!(state.car_ids_to_player_ids.is_empty());
    assert!(state.players_time_series_car_data.is_empty());
    assert!(state.demos_data.is_empty());
    assert_eq!(actor.attributes.get(DEMOLISH), Some(Attribute::Demolish(wreck(1, 2))));
}

#[test]
fn update_with_link_of_another_kind_does_nothing() {
    let handler = CarHandler::new(10, 0);
    let mut actor = car(1);
    actor.attributes.set(PLAYER_LINK.to_string(), Attribute::Int(4));
    let mut state = no_state();
    handler.update(&mut actor, 3, number(0.0), number(0.0), &mut state);
    assert!(state.car_ids_to_player_ids.is_empty());
    assert!(state.players_time_series_car_data.is_empty());
}

#[test]
fn update_links_records_and_clears() {
    let handler = CarHandler::new(10, 0);
    let mut actor = car(1);
    let link = Attribute::ActiveActor(ActiveActor { active: true, actor: 4 });
    actor.attributes.set(PLAYER_LINK.to_string(), link);
    actor.attributes.set(STEER.to_string(), Attribute::Byte(64));
    actor.attributes.set(DEMOLISH.to_string(), Attribute::Demolish(wreck(1, 2)));
    let mut state = no_state();
    handler.update(&mut actor, 3, number(0.5), number(0.25), &mut state);

    assert_eq!(state.car_ids_to_player_ids, HashMap::from([(1, 4)]));
    let expected = TimeSeriesCarData::from(&actor, 0);
    assert_eq!(expected.steer, Some(64));
    assert_eq!(
        state.players_time_series_car_data,
        HashMap::from([(4, HashMap::from([(3usize, expected)]))])
    );
    assert_eq!(
        state.demos_data,
        vec![DemoData { frame_number: 3, attacker_actor_id: 1, victim_actor_id: 2 }]
    );
    assert_eq!(actor.attributes.get(DEMOLISH), None);
    assert_eq!(actor.attributes.get(PLAYER_LINK), Some(link));
    assert_eq!(actor.attributes.get(STEER), Some(Attribute::Byte(64)));
}

#[test]
fn second_update_on_same_dictionary_records_no_event() {
    let handler = CarHandler::new(10, 0);
    let mut actor = car(1);
    actor.attributes.set(
        PLAYER_LINK.to_string(),
        Attribute::ActiveActor(ActiveActor { active: true, actor: 4 }),
    );
    actor.attributes.set(DEMOLISH.to_string(), Attribute::Demolish(wreck(1, 2)));
    let mut state = no_state();
    handler.update(&mut actor, 3, number(0.0), number(0.0), &mut state);
    handler.update(&mut actor, 3, number(0.0), number(0.0), &mut state);
    handler.update(&mut actor, 4, number(0.0), number(0.0), &mut state);
    assert_eq!(
        state.demos_data,
        vec![DemoData { frame_number: 3, attacker_actor_id: 1, victim_actor_id: 2 }]
    );
    let series = state.players_time_series_car_data.get(&4).unwrap();
    assert_eq!(series.len(), 2);
}

#[test]
fn demolition_of_another_kind_stays() {
    let handler = CarHandler::new(10, 0);
    let mut actor = car(1);
    actor.attributes.set(
        PLAYER_LINK.to_string(),
        Attribute::ActiveActor(ActiveActor { active: true, actor: 4 }),
    );
    actor.attributes.set(DEMOLISH.to_string(), Attribute::Boolean(true));
    let mut state = no_state();
    handler.update(&mut actor, 0, number(0.0), number(0.0), &mut state);
    assert!(state.demos_data.is_empty());
    assert_eq!(actor.attributes.get(DEMOLISH), Some(Attribute::Boolean(true)));
    assert_eq!(state.car_ids_to_player_ids.get(&1), Some(&4));
}

#[test]
fn inactive_link_still_links() {
    let handler = CarHandler::new(10, 0);
    let mut actor = car(1);
    actor.attributes.set(
        PLAYER_LINK.to_string(),
        Attribute::ActiveActor(ActiveActor { active: false, actor: -1 }),
    );
    let mut state = no_state();
    handler.update(&mut actor, 0, number(0.0), number(0.0), &mut state);
    assert_eq!(state.car_ids_to_player_ids.get(&1), Some(&-1));
    assert!(state.players_time_series_car_data.get(&-1).unwrap().contains_key(&0));
}

#[test]
fn record_at_same_frame_is_replaced() {
    let handler = CarHandler::new(10, 0);
    let link = Attribute::ActiveActor(ActiveActor { active: true, actor: 4 });
    let mut first = car(1);
    first.attributes.set(PLAYER_LINK.to_string(), link);
    first.attributes.set(THROTTLE.to_string(), Attribute::Byte(1));
    let mut second = car(2);
    second.attributes.set(PLAYER_LINK.to_string(), link);
    second.attributes.set(THROTTLE.to_string(), Attribute::Byte(2));
    let mut state = no_state();
    handler.update(&mut first, 6, number(0.0), number(0.0), &mut state);
    handler.update(&mut second, 6, number(0.0), number(0.0), &mut state);
    handler.update(&mut first, 7, number(0.0), number(0.0), &mut state);
    let series = state.players_time_series_car_data.get(&4).unwrap();
    assert_eq!(series.len(), 2);
    assert_eq!(series.get(&6).unwrap().throttle, Some(2));
    assert_eq!(series.get(&7).unwrap().throttle, Some(1));
    assert_eq!(state.car_ids_to_player_ids, HashMap::from([(1, 4), (2, 4)]));
}

#[test]
fn later_update_changes_the_owner() {
    let handler = CarHandler::new(20, 0);
    let mut actor = car(1);
    let mut state = no_state();
    actor.attributes.set(
        PLAYER_LINK.to_string(),
        Attribute::ActiveActor(ActiveActor { active: true, actor: 4 }),
    );
    handler.update(&mut actor, 5, number(0.0), number(0.0), &mut state);
    assert_eq!(state.car_ids_to_player_ids.get(&1), Some(&4));
    actor.attributes.set(
        PLAYER_LINK.to_string(),
        Attribute::ActiveActor(ActiveActor { active: true, actor: 6 }),
    );
    handler.update(&mut actor, 10, number(0.0), number(0.0), &mut state);
    assert_eq!(state.car_ids_to_player_ids, HashMap::from([(1, 6)]));
    assert!(state.players_time_series_car_data.get(&4).unwrap().contains_key(&5));
    assert!(state.players_time_series_car_data.get(&6).unwrap().contains_key(&10));
}

#[test]
fn frame_number_beyond_frame_count_is_recorded() {
    let handler = CarHandler::new(2, 0);
    assert_eq!(handler.frame_count, 2);
    assert_eq!(handler.replay_version, 0);
    let mut actor = car(1);
    actor.attributes.set(
        PLAYER_LINK.to_string(),
        Attribute::ActiveActor(ActiveActor { active: true, actor: 4 }),
    );
    let mut state = no_state();
    handler.update(&mut actor, 9, number(0.0), number(0.0), &mut state);
    assert!(state.players_time_series_car_data.get(&4).unwrap().contains_key(&9));
}

#[test]
fn class_is_read_from_the_object_name() {
    assert_eq!(CAR_ARCHETYPE, "Archetypes.Car.Car_Default");
    assert_eq!(ActorClass::from_object_name("Archetypes.Car.Car_Default"), ActorClass::Car);
    assert_eq!(ActorClass::from_object_name("Archetypes.Ball.Ball_Default"), ActorClass::Other);
    assert_eq!(ActorClass::from_object_name("archetypes.car.car_default"), ActorClass::Other);
    assert_eq!(ActorClass::from_object_name("Archetypes.Car.Car_Default "), ActorClass::Other);
    assert_eq!(ActorClass::from_object_name(""), ActorClass::Other);
}

#[test]
fn handler_is_chosen_by_class() {
    match ActorHandler::for_class(ActorClass::Car, 12, 3) {
        ActorHandler::Car(handler) => {
            assert_eq!(handler.frame_count, 12);
            assert_eq!(handler.replay_version, 3);
        }
        ActorHandler::Ignore => panic!("a car has a handler"),
    }
    assert!(matches!(ActorHandler::for_class(ActorClass::Other, 12, 3), ActorHandler::Ignore));
}

#[test]
fn ignoring_handler_changes_nothing() {
    let mut actor = car(1);
    actor.attributes.set(
        PLAYER_LINK.to_string(),
        Attribute::ActiveActor(ActiveActor { active: true, actor: 4 }),
    );
    actor.attributes.set(DEMOLISH.to_string(), Attribute::Demolish(wreck(1, 2)));
    let mut state = no_state();
    ActorHandler::Ignore.update(&mut actor, 0, number(0.0), number(0.0), &mut state);
    assert!(state.car_ids_to_player_ids.is_empty());
    assert!(state.players_time_series_car_data.is_empty());
    assert!(state.demos_data.is_empty());
    assert!(actor.attributes.contains(DEMOLISH));
}

#[test]
fn car_handler_runs_through_the_dispatch() {
    let mut actor = car(1);
    actor.attributes.set(
        PLAYER_LINK.to_string(),
        Attribute::ActiveActor(ActiveActor { active: true, actor: 4 }),
    );
    actor.attributes.set(HANDBRAKE.to_string(), Attribute::Byte(1));
    actor.attributes.set(DEMOLISH.to_string(), Attribute::Demolish(wreck(8, 1)));
    let mut state = no_state();
    let handler = ActorHandler::for_class(actor.class, 5, 0);
    handler.update(&mut actor, 2, number(1.0), number(0.5), &mut state);
    assert_eq!(state.player_of(1), Some(4));
    assert_eq!(state.player_of(4), None);
    assert_eq!(state.record(4, 2).unwrap().handbrake, Some(1));
    assert_eq!(state.record(4, 1), None);
    assert_eq!(state.record(1, 2), None);
    assert_eq!(
        state.demos_data,
        vec![DemoData { frame_number: 2, attacker_actor_id: 8, victim_actor_id: 1 }]
    );
    assert!(!actor.attributes.contains(DEMOLISH));
}

#[test]
fn new_state_is_empty() {
    let state = AggregateState::new();
    assert!(state.car_ids_to_player_ids.is_empty());
    assert!(state.players_time_series_car_data.is_empty());
    assert!(state.demos_data.is_empty());
    assert_eq!(state.player_of(0), None);
    assert_eq!(state.record(0, 0), None);
}
