//! The aggregate state that the handlers fill over one run.

use vstd::prelude::*;
use std::collections::HashMap;
use crate::actor_handlers::car::{DemoData, TimeSeriesCarData};
use crate::attribute::ActorId;

verus! {

/// Everything a run derives from the frame stream.
pub struct AggregateState {
    /// For each car, the player most recently seen in control of it.
    pub car_ids_to_player_ids: HashMap<ActorId, ActorId>,
    /// For each player, the snapshots of the cars it controlled, by frame.
    pub players_time_series_car_data: HashMap<ActorId, HashMap<usize, TimeSeriesCarData>>,
    /// The demolitions, in the order in which they were seen.
    pub demos_data: Vec<DemoData>,
}

/// Mathematical model of an [`AggregateState`].
pub struct AggregateView {
    pub owners: Map<ActorId, ActorId>,
    pub series: Map<ActorId, Map<usize, TimeSeriesCarData>>,
    pub demos: Seq<DemoData>,
}

/// `series` after `data` is recorded for `player` at `frame_number`. The
/// player's series is begun if it has none; a record already standing at
/// that frame is replaced; all other records stay.
pub open spec fn recorded(
    series: Map<ActorId, Map<usize, TimeSeriesCarData>>,
    player: ActorId,
    frame_number: usize,
    data: TimeSeriesCarData,
) -> Map<ActorId, Map<usize, TimeSeriesCarData>> {
    let earlier = if series.contains_key(player) {
        series[player]
    } else {
        Map::empty()
    };
    series.insert(player, earlier.insert(frame_number, data))
}

impl View for AggregateState {
    type V = AggregateView;

    open spec fn view(&self) -> AggregateView {
        AggregateView {
            owners: self.car_ids_to_player_ids@,
            series: Map::new(
                |player: ActorId| self.players_time_series_car_data@.contains_key(player),
                |player: ActorId| self.players_time_series_car_data@[player]@,
            ),
            demos: self.demos_data@,
        }
    }
}

impl AggregateState {
    /// The state before the first frame: no link, no series, no event.
    pub fn new() -> (state: AggregateState)
        ensures
            state@.owners == Map::<ActorId, ActorId>::empty(),
            state@.series == Map::<ActorId, Map<usize, TimeSeriesCarData>>::empty(),
            state@.demos == Seq::<DemoData>::empty(),
    {
        let state = AggregateState {
            car_ids_to_player_ids: HashMap::new(),
            players_time_series_car_data: HashMap::new(),
            demos_data: Vec::new(),
        };
        assert(state@.series =~= Map::<ActorId, Map<usize, TimeSeriesCarData>>::empty());
        state
    }

    /// The player most recently seen in control of `car`, if the car was
    /// ever linked.
    pub fn player_of(&self, car: ActorId) -> (player: Option<ActorId>)
        ensures
            player == (if self@.owners.contains_key(car) {
                Some(self@.owners[car])
            } else {
                None
            }),
    {
        broadcast use vstd::std_specs::hash::group_hash_axioms;

        match self.car_ids_to_player_ids.get(&car) {
            Some(player) => Some(*player),
            None => None,
        }
    }

    /// The record of `player` at frame `frame_number`, if there is one.
    pub fn record(&self, player: ActorId, frame_number: usize) -> (data: Option<TimeSeriesCarData>)
        ensures
            data == (if self@.series.contains_key(player) && self@.series[player].contains_key(
                frame_number,
            ) {
                Some(self@.series[player][frame_number])
            } else {
                None
            }),
    {
        broadcast use vstd::std_specs::hash::group_hash_axioms;

        match self.players_time_series_car_data.get(&player) {
            Some(series) => match series.get(&frame_number) {
                Some(data) => Some(*data),
                None => None,
            },
            None => None,
        }
    }
}

} // verus!
