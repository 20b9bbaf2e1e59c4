//! A decoded replay: the room at the start, the events, and the goals.
use vstd::prelude::*;

use crate::types::enums::OperationType;
use crate::types::events::{payload_operation, payload_type_byte, EventPayload, EventPayloadView};
use crate::types::room::{RoomState, RoomStateView};

verus! {

/// A goal: the frame it was scored on and the team that scored.
#[derive(Debug, Clone, Copy, PartialEq, Eq)]
pub struct GoalMarker {
    pub frame_no: u32,
    pub team_id: u8,
}

impl View for GoalMarker {
    type V = GoalMarker;

    open spec fn view(&self) -> GoalMarker {
        *self
    }
}

/// An event: the frame it happened on, who caused it, and what it was.
#[derive(Debug, Clone, PartialEq, Eq)]
pub struct ReplayEvent {
    pub frame_no: u32,
    pub by_id: u16,
    pub payload: EventPayload,
}

pub struct ReplayEventView {
    pub frame_no: u32,
    pub by_id: u16,
    pub payload: EventPayloadView,
}

impl View for ReplayEvent {
    type V = ReplayEventView;

    open spec fn view(&self) -> ReplayEventView {
        ReplayEventView { frame_no: self.frame_no, by_id: self.by_id, payload: self.payload@ }
    }
}

impl ReplayEvent {
    pub fn operation_type(&self) -> (r: Option<OperationType>)
        ensures
            r == payload_operation(self.payload@),
    {
        self.payload.operation_type()
    }

    pub fn event_type_u8(&self) -> (v: u8)
        ensures
            v == payload_type_byte(self.payload@),
    {
        self.payload.event_type_u8()
    }
}

/// A decoded replay.
#[derive(Debug, Clone, PartialEq, Eq)]
pub struct ReplayData {
    pub room_data: RoomState,
    pub events: Vec<ReplayEvent>,
    pub goal_markers: Vec<GoalMarker>,
    pub total_frames: u32,
    pub version: u32,
}

pub struct ReplayDataView {
    pub room_data: RoomStateView,
    pub events: Seq<ReplayEventView>,
    pub goal_markers: Seq<GoalMarker>,
    pub total_frames: u32,
    pub version: u32,
}

impl View for ReplayData {
    type V = ReplayDataView;

    open spec fn view(&self) -> ReplayDataView {
        ReplayDataView {
            room_data: self.room_data@,
            events: self.events@.map_values(|e: ReplayEvent| e@),
            goal_markers: self.goal_markers@,
            total_frames: self.total_frames,
            version: self.version,
        }
    }
}

} // verus!
