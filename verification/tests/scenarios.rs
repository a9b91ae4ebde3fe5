use carball::actor::ActorClass;
use carball::actor_handlers::car::{DemoData, TimeSeriesCarData};
use carball::attribute::{
    ActiveActor, Attribute, Demolish, Scalar, Vector3, DEMOLISH, PLAYER_LINK, THROTTLE,
};
use carball::frame_parser::{Diagnostic, Frame, FrameParser, NewActor, UpdatedAttribute};

const CAR: i32 = 7;
const OTHER_CAR: i32 = 9;
const PLAYER_P: i32 = 2;
const PLAYER_Q: i32 = 3;

fn scalar(value: f32) -> Scalar {
    Scalar { bits: value.to_bits() }
}

fn zero_vector() -> Vector3 {
    Vector3 { x: scalar(0.0), y: scalar(0.0), z: scalar(0.0) }
}

fn empty_frame() -> Frame {
    Frame {
        time: scalar(0.0),
        delta: scalar(0.0),
        new_actors: Vec::new(),
        deleted_actors: Vec::new(),
        updated_actors: Vec::new(),
    }
}

fn update(actor_id: i32, name: &str, value: Attribute) -> UpdatedAttribute {
    UpdatedAttribute { actor_id, name: name.to_string(), value }
}

fn link(player: i32) -> Attribute {
    Attribute::ActiveActor(ActiveActor { active: true, actor: player })
}

fn demolish(attacker: i32, victim: i32) -> Attribute {
    Attribute::Demolish(Demolish {
        attacker_flag: true,
        attacker,
        victim_flag: true,
        victim,
        attack_velocity: zero_vector(),
        victim_velocity: zero_vector(),
    })
}

fn only_throttle(value: u8) -> TimeSeriesCarData {
    TimeSeriesCarData {
        throttle: Some(value),
        steer: None,
        handbrake: None,
        is_sleeping: None,
        pos_x: None,
        pos_y: None,
        pos_z: None,
        vel_x: None,
        vel_y: None,
        vel_z: None,
        rot_pitch: None,
        rot_yaw: None,
        rot_roll: None,
        ang_vel_x: None,
        ang_vel_y: None,
        ang_vel_z: None,
    }
}

fn nothing_seen() -> TimeSeriesCarData {
    TimeSeriesCarData { throttle: None, ..only_throttle(0) }
}

/// Frames 0 to 3 of the car scenario: the car appears in frame 0 and gets
/// its link, its throttle and a demolition in frame 3.
fn car_scenario_frames() -> Vec<Frame> {
    let mut first = empty_frame();
    first.new_actors.push(NewActor { actor_id: CAR, class: ActorClass::Car });
    let mut fourth = empty_frame();
    fourth.updated_actors.push(update(CAR, PLAYER_LINK, link(PLAYER_P)));
    fourth.updated_actors.push(update(CAR, THROTTLE, Attribute::Byte(128)));
    fourth.updated_actors.push(update(CAR, DEMOLISH, demolish(CAR, OTHER_CAR)));
    vec![first, empty_frame(), empty_frame(), fourth]
}

#[test]
fn car_without_link_records_nothing() {
    let frames = car_scenario_frames();
    let mut parser = FrameParser::new(frames.len(), 0);
    parser.process_frame(&frames[0]);
    assert_eq!(parser.frames_done(), 1);
    assert!(parser.registry().contains(CAR));
    assert!(parser.state().car_ids_to_player_ids.is_empty());
    assert!(parser.state().players_time_series_car_data.is_empty());
    assert!(parser.state().demos_data.is_empty());
    parser.process_frame(&frames[1]);
    parser.process_frame(&frames[2]);
    assert!(parser.state().car_ids_to_player_ids.is_empty());
    assert!(parser.state().players_time_series_car_data.is_empty());
}

#[test]
fn car_with_link_is_mapped_and_recorded() {
    let frames = car_scenario_frames();
    let parser = FrameParser::parse(&frames, 0);
    let state = parser.state();
    assert_eq!(state.car_ids_to_player_ids.len(), 1);
    assert_eq!(state.car_ids_to_player_ids.get(&CAR), Some(&PLAYER_P));
    assert_eq!(state.players_time_series_car_data.len(), 1);
    let series = state.players_time_series_car_data.get(&PLAYER_P).unwrap();
    assert_eq!(series.len(), 1);
    assert_eq!(series.get(&3), Some(&only_throttle(128)));
}

#[test]
fn demolition_is_recorded_once() {
    let mut frames = car_scenario_frames();
    let parser = FrameParser::parse(&frames, 0);
    assert_eq!(
        parser.state().demos_data,
        vec![DemoData { frame_number: 3, attacker_actor_id: CAR, victim_actor_id: OTHER_CAR }]
    );
    let car = parser.registry().get(CAR).unwrap();
    assert!(!car.attributes.contains(DEMOLISH));
    assert!(car.attributes.contains(PLAYER_LINK));
    assert_eq!(car.attributes.get(THROTTLE), Some(Attribute::Byte(128)));

    frames.push(empty_frame());
    let parser = FrameParser::parse(&frames, 0);
    assert_eq!(
        parser.state().demos_data,
        vec![DemoData { frame_number: 3, attacker_actor_id: CAR, victim_actor_id: OTHER_CAR }]
    );
    let series = parser.state().players_time_series_car_data.get(&PLAYER_P).unwrap();
    assert_eq!(series.len(), 2);
    assert_eq!(series.get(&3), Some(&only_throttle(128)));
    assert_eq!(series.get(&4), Some(&only_throttle(128)));
}

#[test]
fn reused_identifier_starts_empty() {
    let mut frames = car_scenario_frames();
    let mut fifth = empty_frame();
    fifth.deleted_actors.push(CAR);
    frames.push(fifth);
    let mut sixth = empty_frame();
    sixth.new_actors.push(NewActor { actor_id: CAR, class: ActorClass::Car });
    sixth.updated_actors.push(update(CAR, PLAYER_LINK, link(PLAYER_Q)));
    frames.push(sixth);

    let mut parser = FrameParser::new(frames.len(), 0);
    for frame in frames.iter().take(5) {
        parser.process_frame(frame);
    }
    assert!(!parser.registry().contains(CAR));
    assert_eq!(parser.registry().len(), 0);
    assert_eq!(parser.state().car_ids_to_player_ids.get(&CAR), Some(&PLAYER_P));
    assert!(parser
        .state()
        .players_time_series_car_data
        .get(&PLAYER_P)
        .unwrap()
        .get(&4)
        .is_none());

    parser.process_frame(&frames[5]);
    let state = parser.state();
    assert_eq!(state.car_ids_to_player_ids.len(), 1);
    assert_eq!(state.car_ids_to_player_ids.get(&CAR), Some(&PLAYER_Q));
    let car = parser.registry().get(CAR).unwrap();
    assert_eq!(car.attributes.get(THROTTLE), None);
    assert_eq!(car.attributes.get(DEMOLISH), None);
    assert_eq!(car.attributes.get(PLAYER_LINK), Some(link(PLAYER_Q)));
    let series = state.players_time_series_car_data.get(&PLAYER_Q).unwrap();
    assert_eq!(series.len(), 1);
    assert_eq!(series.get(&5), Some(&nothing_seen()));
    assert_eq!(state.players_time_series_car_data.get(&PLAYER_P).unwrap().len(), 1);
    assert_eq!(state.demos_data.len(), 1);
}

#[test]
fn identifier_destroyed_and_created_in_one_frame_is_fresh() {
    let mut frames = car_scenario_frames();
    let mut fifth = empty_frame();
    fifth.deleted_actors.push(CAR);
    fifth.new_actors.push(NewActor { actor_id: CAR, class: ActorClass::Car });
    fifth.updated_actors.push(update(CAR, PLAYER_LINK, link(PLAYER_Q)));
    frames.push(fifth);
    let parser = FrameParser::parse(&frames, 0);
    let car = parser.registry().get(CAR).unwrap();
    assert_eq!(car.attributes.get(THROTTLE), None);
    assert_eq!(parser.state().car_ids_to_player_ids.get(&CAR), Some(&PLAYER_Q));
    assert_eq!(
        parser.state().players_time_series_car_data.get(&PLAYER_Q).unwrap().get(&4),
        Some(&nothing_seen())
    );
}

#[test]
fn creation_without_destruction_drops_the_stale_actor() {
    let mut frames = car_scenario_frames();
    let mut fifth = empty_frame();
    fifth.new_actors.push(NewActor { actor_id: CAR, class: ActorClass::Car });
    frames.push(fifth);
    let parser = FrameParser::parse(&frames, 0);
    assert_eq!(parser.registry().len(), 1);
    let car = parser.registry().get(CAR).unwrap();
    assert_eq!(car.attributes.get(THROTTLE), None);
    assert_eq!(car.attributes.get(PLAYER_LINK), None);
    assert_eq!(parser.state().players_time_series_car_data.get(&PLAYER_P).unwrap().len(), 1);
}

#[test]
fn attribute_persists_until_it_is_sent_again() {
    let mut frames = car_scenario_frames();
    frames.push(empty_frame());
    let mut sixth = empty_frame();
    sixth.updated_actors.push(update(CAR, THROTTLE, Attribute::Byte(255)));
    frames.push(sixth);
    frames.push(empty_frame());
    let parser = FrameParser::parse(&frames, 0);
    let series = parser.state().players_time_series_car_data.get(&PLAYER_P).unwrap();
    assert_eq!(series.get(&3).unwrap().throttle, Some(128));
    assert_eq!(series.get(&4).unwrap().throttle, Some(128));
    assert_eq!(series.get(&5).unwrap().throttle, Some(255));
    assert_eq!(series.get(&6).unwrap().throttle, Some(255));
    assert_eq!(series.len(), 4);
}

#[test]
fn records_stand_at_the_frames_with_a_linked_car() {
    let mut frames = vec![empty_frame()];
    frames[0].new_actors.push(NewActor { actor_id: CAR, class: ActorClass::Car });
    let mut second = empty_frame();
    second.updated_actors.push(update(CAR, PLAYER_LINK, link(PLAYER_P)));
    frames.push(second);
    frames.push(empty_frame());
    let mut fourth = empty_frame();
    fourth.deleted_actors.push(CAR);
    frames.push(fourth);
    frames.push(empty_frame());
    let mut sixth = empty_frame();
    sixth.new_actors.push(NewActor { actor_id: OTHER_CAR, class: ActorClass::Car });
    sixth.updated_actors.push(update(OTHER_CAR, PLAYER_LINK, link(PLAYER_P)));
    frames.push(sixth);

    let mut parser = FrameParser::new(frames.len(), 0);
    let mut seen: Vec<usize> = Vec::new();
    for frame in frames.iter() {
        parser.process_frame(frame);
        let mut keys: Vec<usize> = match parser.state().players_time_series_car_data.get(&PLAYER_P)
        {
            Some(series) => series.keys().copied().collect(),
            None => Vec::new(),
        };
        keys.sort();
        assert!(keys.starts_with(&seen));
        assert!(keys.len() <= seen.len() + 1);
        if keys.len() > seen.len() {
            assert_eq!(keys[keys.len() - 1], parser.frames_done() - 1);
        }
        seen = keys;
    }
    assert_eq!(seen, vec![1, 2, 5]);
}

#[test]
fn later_link_replaces_earlier_link() {
    let mut frames: Vec<Frame> = Vec::new();
    for _ in 0..12 {
        frames.push(empty_frame());
    }
    frames[0].new_actors.push(NewActor { actor_id: CAR, class: ActorClass::Car });
    frames[5].updated_actors.push(update(CAR, PLAYER_LINK, link(PLAYER_P)));
    frames[10].updated_actors.push(update(CAR, PLAYER_LINK, link(PLAYER_Q)));

    let mut parser = FrameParser::new(frames.len(), 0);
    for frame in frames.iter().take(10) {
        parser.process_frame(frame);
    }
    assert_eq!(parser.state().car_ids_to_player_ids.get(&CAR), Some(&PLAYER_P));
    for frame in frames.iter().skip(10) {
        parser.process_frame(frame);
    }
    let state = parser.state();
    assert_eq!(state.car_ids_to_player_ids.get(&CAR), Some(&PLAYER_Q));
    assert_eq!(state.car_ids_to_player_ids.len(), 1);
    let mut first: Vec<usize> =
        state.players_time_series_car_data.get(&PLAYER_P).unwrap().keys().copied().collect();
    first.sort();
    assert_eq!(first, vec![5, 6, 7, 8, 9]);
    let mut second: Vec<usize> =
        state.players_time_series_car_data.get(&PLAYER_Q).unwrap().keys().copied().collect();
    second.sort();
    assert_eq!(second, vec![10, 11]);
}

#[test]
fn update_for_unknown_actor_is_dropped_and_noted() {
    let mut frames = car_scenario_frames();
    frames[1].updated_actors.push(update(OTHER_CAR, THROTTLE, Attribute::Byte(1)));
    frames[3].updated_actors.insert(0, update(40, PLAYER_LINK, link(PLAYER_Q)));
    let parser = FrameParser::parse(&frames, 0);
    assert_eq!(
        parser.diagnostics(),
        &vec![
            Diagnostic { frame_number: 1, actor_id: OTHER_CAR, name: THROTTLE.to_string() },
            Diagnostic { frame_number: 3, actor_id: 40, name: PLAYER_LINK.to_string() },
        ]
    );
    assert_eq!(parser.registry().len(), 1);
    assert!(!parser.registry().contains(OTHER_CAR));
    assert_eq!(parser.state().car_ids_to_player_ids.get(&CAR), Some(&PLAYER_P));
    assert_eq!(parser.state().car_ids_to_player_ids.len(), 1);
    assert_eq!(parser.state().demos_data.len(), 1);
}

#[test]
fn update_for_actor_destroyed_in_the_same_frame_is_dropped() {
    let mut frames = car_scenario_frames();
    let mut fifth = empty_frame();
    fifth.deleted_actors.push(CAR);
    fifth.updated_actors.push(update(CAR, DEMOLISH, demolish(OTHER_CAR, CAR)));
    frames.push(fifth);
    let parser = FrameParser::parse(&frames, 0);
    assert_eq!(
        parser.diagnostics(),
        &vec![Diagnostic { frame_number: 4, actor_id: CAR, name: DEMOLISH.to_string() }]
    );
    assert_eq!(parser.state().demos_data.len(), 1);
    assert!(parser.state().players_time_series_car_data.get(&PLAYER_P).unwrap().get(&4).is_none());
}

#[test]
fn actor_of_unknown_class_has_no_handler() {
    let mut frames = vec![empty_frame(), empty_frame()];
    frames[0].new_actors.push(NewActor { actor_id: CAR, class: ActorClass::Other });
    frames[0].updated_actors.push(update(CAR, PLAYER_LINK, link(PLAYER_P)));
    frames[0].updated_actors.push(update(CAR, DEMOLISH, demolish(CAR, OTHER_CAR)));
    let parser = FrameParser::parse(&frames, 0);
    assert!(parser.state().car_ids_to_player_ids.is_empty());
    assert!(parser.state().players_time_series_car_data.is_empty());
    assert!(parser.state().demos_data.is_empty());
    assert!(parser.registry().get(CAR).unwrap().attributes.contains(DEMOLISH));
    assert!(parser.diagnostics().is_empty());
}

#[test]
fn handlers_run_oldest_actor_first() {
    let mut frame = empty_frame();
    frame.new_actors.push(NewActor { actor_id: OTHER_CAR, class: ActorClass::Car });
    frame.new_actors.push(NewActor { actor_id: CAR, class: ActorClass::Car });
    frame.updated_actors.push(update(CAR, PLAYER_LINK, link(PLAYER_P)));
    frame.updated_actors.push(update(CAR, THROTTLE, Attribute::Byte(10)));
    frame.updated_actors.push(update(CAR, DEMOLISH, demolish(CAR, 50)));
    frame.updated_actors.push(update(OTHER_CAR, PLAYER_LINK, link(PLAYER_P)));
    frame.updated_actors.push(update(OTHER_CAR, THROTTLE, Attribute::Byte(20)));
    frame.updated_actors.push(update(OTHER_CAR, DEMOLISH, demolish(OTHER_CAR, 60)));
    let parser = FrameParser::parse(&vec![frame], 0);
    let state = parser.state();
    assert_eq!(
        state.demos_data,
        vec![
            DemoData { frame_number: 0, attacker_actor_id: OTHER_CAR, victim_actor_id: 60 },
            DemoData { frame_number: 0, attacker_actor_id: CAR, victim_actor_id: 50 },
        ]
    );
    assert_eq!(state.car_ids_to_player_ids.get(&CAR), Some(&PLAYER_P));
    assert_eq!(state.car_ids_to_player_ids.get(&OTHER_CAR), Some(&PLAYER_P));
    assert_eq!(
        state.players_time_series_car_data.get(&PLAYER_P).unwrap().get(&0),
        Some(&only_throttle(10))
    );
}

#[test]
fn empty_recording_leaves_everything_empty() {
    let parser = FrameParser::parse(&Vec::new(), 5);
    assert_eq!(parser.frames_done(), 0);
    assert_eq!(parser.frame_count(), 0);
    assert_eq!(parser.replay_version(), 5);
    assert_eq!(parser.registry().len(), 0);
    assert!(parser.diagnostics().is_empty());
    let state = parser.into_state();
    assert!(state.car_ids_to_player_ids.is_empty());
    assert!(state.players_time_series_car_data.is_empty());
    assert!(state.demos_data.is_empty());
}

#[test]
fn frames_beyond_the_announced_count_are_worked_off() {
    let frames = car_scenario_frames();
    let mut parser = FrameParser::new(1, 0);
    parser.process_frames(&frames);
    assert_eq!(parser.frame_count(), 1);
    assert_eq!(parser.frames_done(), 4);
    assert_eq!(
        parser.state().players_time_series_car_data.get(&PLAYER_P).unwrap().get(&3),
        Some(&only_throttle(128))
    );
}
