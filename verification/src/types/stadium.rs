//! The playing field: geometry, physics and spawn points.
//!
//! Floating-point quantities are kept as their IEEE-754 bit patterns (`u64` for an `f64`),
//! exactly as the replay stores them.
use vstd::prelude::*;

use crate::types::enums::{BackgroundType, CameraFollow};

verus! {

/// A point or vector; `x` and `y` are `f64` bit patterns.
#[derive(Debug, Clone, Copy, PartialEq, Eq)]
pub struct Point {
    pub x: u64,
    pub y: u64,
}

#[derive(Debug, Clone, Copy, PartialEq, Eq)]
pub struct Vertex {
    pub pos: Point,
    pub b_coef: u64,
    pub c_mask: i32,
    pub c_group: i32,
}

/// A wall between two vertices; `bias` and `curve` are `f64` bit patterns that default to
/// 0.0 and +infinity when the flags leave them out.
#[derive(Debug, Clone, Copy, PartialEq, Eq)]
pub struct Segment {
    pub flags: u8,
    pub v0: u8,
    pub v1: u8,
    pub bias: u64,
    pub curve: u64,
    pub color: i32,
    pub vis: bool,
    pub b_coef: u64,
    pub c_mask: i32,
    pub c_group: i32,
}

#[derive(Debug, Clone, Copy, PartialEq, Eq)]
pub struct Plane {
    pub normal: Point,
    pub dist: u64,
    pub b_coef: u64,
    pub c_mask: i32,
    pub c_group: i32,
}

#[derive(Debug, Clone, Copy, PartialEq, Eq)]
pub struct Goal {
    pub p0: Point,
    pub p1: Point,
    pub team_id: i8,
}

#[derive(Debug, Clone, Copy, PartialEq, Eq)]
pub struct Disc {
    pub pos: Point,
    pub speed: Point,
    pub gravity: Point,
    pub radius: u64,
    pub b_coef: u64,
    pub inv_mass: u64,
    pub damping: u64,
    pub color: u32,
    pub c_mask: i32,
    pub c_group: i32,
}

#[derive(Debug, Clone, Copy, PartialEq, Eq)]
pub struct Joint {
    pub d0: u8,
    pub d1: u8,
    pub min_length: u64,
    pub max_length: u64,
    pub strength: u64,
    pub color: i32,
}

#[derive(Debug, Clone, Copy, PartialEq, Eq)]
pub struct PlayerPhysics {
    pub b_coef: u64,
    pub inv_mass: u64,
    pub damping: u64,
    pub acceleration: u64,
    pub kicking_acceleration: u64,
    pub kicking_damping: u64,
    pub kick_strength: u64,
    pub gravity: Point,
    pub c_group: i32,
    pub radius: u64,
    pub kickback: u64,
}

impl View for Point {
    type V = Point;

    open spec fn view(&self) -> Point {
        *self
    }
}

impl View for Vertex {
    type V = Vertex;

    open spec fn view(&self) -> Vertex {
        *self
    }
}

impl View for Segment {
    type V = Segment;

    open spec fn view(&self) -> Segment {
        *self
    }
}

impl View for Plane {
    type V = Plane;

    open spec fn view(&self) -> Plane {
        *self
    }
}

impl View for Goal {
    type V = Goal;

    open spec fn view(&self) -> Goal {
        *self
    }
}

impl View for Disc {
    type V = Disc;

    open spec fn view(&self) -> Disc {
        *self
    }
}

impl View for Joint {
    type V = Joint;

    open spec fn view(&self) -> Joint {
        *self
    }
}

impl View for PlayerPhysics {
    type V = PlayerPhysics;

    open spec fn view(&self) -> PlayerPhysics {
        *self
    }
}

/// A team's colors: stripe angle, text color and up to three stripe colors.
#[derive(Debug, Clone, PartialEq, Eq)]
pub struct TeamColors {
    pub angle: u8,
    pub text: i32,
    pub inner: Vec<i32>,
}

pub struct TeamColorsView {
    pub angle: u8,
    pub text: i32,
    pub inner: Seq<i32>,
}

impl View for TeamColors {
    type V = TeamColorsView;

    open spec fn view(&self) -> TeamColorsView {
        TeamColorsView { angle: self.angle, text: self.text, inner: self.inner@ }
    }
}

/// A stadium: one of the built-in ones (only its id and name), or a custom one (id 255)
/// with everything that defines it.
#[derive(Debug, Clone, PartialEq, Eq)]
pub struct Stadium {
    pub default_stadium_id: u8,
    pub name: Option<String>,
    pub background_type: Option<BackgroundType>,
    pub background_width: Option<u64>,
    pub background_height: Option<u64>,
    pub background_kickoff_radius: Option<u64>,
    pub background_corner_radius: Option<u64>,
    pub background_goal_line: Option<u64>,
    pub background_color: Option<i32>,
    pub width: Option<u64>,
    pub height: Option<u64>,
    pub spawn_distance: Option<u64>,
    pub player_physics: Option<PlayerPhysics>,
    pub max_view_width: Option<u16>,
    pub camera_follow: Option<CameraFollow>,
    pub can_be_stored: Option<bool>,
    pub full_kickoff_reset: Option<bool>,
    pub vertices: Vec<Vertex>,
    pub segments: Vec<Segment>,
    pub planes: Vec<Plane>,
    pub goals: Vec<Goal>,
    pub discs: Vec<Disc>,
    pub joints: Vec<Joint>,
    pub red_spawn_points: Vec<Point>,
    pub blue_spawn_points: Vec<Point>,
}

pub struct StadiumView {
    pub default_stadium_id: u8,
    pub name: Option<Seq<char>>,
    pub background_type: Option<BackgroundType>,
    pub background_width: Option<u64>,
    pub background_height: Option<u64>,
    pub background_kickoff_radius: Option<u64>,
    pub background_corner_radius: Option<u64>,
    pub background_goal_line: Option<u64>,
    pub background_color: Option<i32>,
    pub width: Option<u64>,
    pub height: Option<u64>,
    pub spawn_distance: Option<u64>,
    pub player_physics: Option<PlayerPhysics>,
    pub max_view_width: Option<u16>,
    pub camera_follow: Option<CameraFollow>,
    pub can_be_stored: Option<bool>,
    pub full_kickoff_reset: Option<bool>,
    pub vertices: Seq<Vertex>,
    pub segments: Seq<Segment>,
    pub planes: Seq<Plane>,
    pub goals: Seq<Goal>,
    pub discs: Seq<Disc>,
    pub joints: Seq<Joint>,
    pub red_spawn_points: Seq<Point>,
    pub blue_spawn_points: Seq<Point>,
}

impl View for Stadium {
    type V = StadiumView;

    open spec fn view(&self) -> StadiumView {
        StadiumView {
            default_stadium_id: self.default_stadium_id,
            name: self.name.deep_view(),
            background_type: self.background_type,
            background_width: self.background_width,
            background_height: self.background_height,
            background_kickoff_radius: self.background_kickoff_radius,
            background_corner_radius: self.background_corner_radius,
            background_goal_line: self.background_goal_line,
            background_color: self.background_color,
            width: self.width,
            height: self.height,
            spawn_distance: self.spawn_distance,
            player_physics: self.player_physics,
            max_view_width: self.max_view_width,
            camera_follow: self.camera_follow,
            can_be_stored: self.can_be_stored,
            full_kickoff_reset: self.full_kickoff_reset,
            vertices: self.vertices@,
            segments: self.segments@,
            planes: self.planes@,
            goals: self.goals@,
            discs: self.discs@,
            joints: self.joints@,
            red_spawn_points: self.red_spawn_points@,
            blue_spawn_points: self.blue_spawn_points@,
        }
    }
}

impl Stadium {
    /// A custom stadium is one whose id is 255.
    pub fn is_custom(&self) -> (b: bool)
        ensures
            b == (self.default_stadium_id == 255),
    {
        self.default_stadium_id == 255
    }
}

} // verus!
