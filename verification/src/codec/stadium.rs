//! Stadiums: a built-in one by id, or a custom one with its whole definition.
use vstd::prelude::*;
use vstd::string::StringExecFns;

use crate::codec::primitives::{
    parse_disc, parse_goal, parse_joint, parse_plane, parse_player_physics, parse_point,
    parse_segment, parse_vertex, spec_disc, spec_goal, spec_joint, spec_plane,
    spec_player_physics, spec_point, spec_segment, spec_vertex,
};
use crate::codec::reader::{
    lemma_repeat_error_persists, read_as, spec_bool, spec_i32, spec_nullable_string, spec_repeat,
    spec_u16, spec_u64, spec_u8, ReplayReader, SpecRead,
};
use crate::error::{DecodeError, DecodeErrorView};
use crate::text::{index_context, indexed};
use crate::types::enums::{background_of_code, camera_of_code, BackgroundType, CameraFollow};
use crate::types::stadium::{
    Disc, Goal, Joint, Plane, Point, Segment, Stadium, StadiumView, Vertex,
};

verus! {

/// The names of the built-in stadiums, by id.
pub open spec fn default_stadium_name_spec(id: u8) -> Option<Seq<char>> {
    if id == 0 { Some("Classic"@) }
    else if id == 1 { Some("Easy"@) }
    else if id == 2 { Some("Small"@) }
    else if id == 3 { Some("Big"@) }
    else if id == 4 { Some("Rounded"@) }
    else if id == 5 { Some("Hockey"@) }
    else if id == 6 { Some("Big Hockey"@) }
    else if id == 7 { Some("Big Easy"@) }
    else if id == 8 { Some("Big Rounded"@) }
    else if id == 9 { Some("Huge"@) }
    else { None }
}

pub fn default_stadium_name(default_stadium_id: u8) -> (r: Option<&'static str>)
    ensures
        r.deep_view() == default_stadium_name_spec(default_stadium_id),
{
    let name = match default_stadium_id {
        0 => "Classic",
        1 => "Easy",
        2 => "Small",
        3 => "Big",
        4 => "Rounded",
        5 => "Hockey",
        6 => "Big Hockey",
        7 => "Big Easy",
        8 => "Big Rounded",
        9 => "Huge",
        _ => return None,
    };
    Some(name)
}

/// A built-in stadium: its id and name, nothing else.
pub open spec fn builtin_stadium(id: u8) -> StadiumView {
    StadiumView {
        default_stadium_id: id,
        name: default_stadium_name_spec(id),
        background_type: None,
        background_width: None,
        background_height: None,
        background_kickoff_radius: None,
        background_corner_radius: None,
        background_goal_line: None,
        background_color: None,
        width: None,
        height: None,
        spawn_distance: None,
        player_physics: None,
        max_view_width: None,
        camera_follow: None,
        can_be_stored: None,
        full_kickoff_reset: None,
        vertices: Seq::empty(),
        segments: Seq::empty(),
        planes: Seq::empty(),
        goals: Seq::empty(),
        discs: Seq::empty(),
        joints: Seq::empty(),
        red_spawn_points: Seq::empty(),
        blue_spawn_points: Seq::empty(),
    }
}

/// A stadium: its id, then, for id 255 only, the custom definition.
pub open spec fn spec_stadium(b: Seq<u8>, p: int) -> SpecRead<StadiumView> {
    match spec_u8(b, p, "stadium.defaultStadiumId"@) {
        Err(e) => Err(e),
        Ok((id, at)) => if id != 255 {
            Ok((builtin_stadium(id), at))
        } else {
            spec_custom_stadium(b, at)
        },
    }
}

/// The scalar part of a custom stadium: name, background, size, player physics, settings.
pub struct CustomHeader {
    pub name: Option<Seq<char>>,
    pub background: (i32, u64, u64, u64, u64, u64, i32),
    pub dimensions: (u64, u64, u64),
    pub physics: crate::types::stadium::PlayerPhysics,
    pub settings: (u16, u8, bool, bool),
}

pub open spec fn spec_custom_header(b: Seq<u8>, p: int) -> SpecRead<CustomHeader> {
    match spec_nullable_string(b, p, "stadium.name"@) {
        Err(e) => Err(e),
        Ok((name, at1)) => match spec_stadium_background(b, at1) {
            Err(e) => Err(e),
            Ok((background, at2)) => match spec_stadium_dimensions(b, at2) {
                Err(e) => Err(e),
                Ok((dimensions, at3)) => match spec_player_physics(b, at3, "stadium.playerPhysics"@) {
                    Err(e) => Err(e),
                    Ok((physics, at4)) => match spec_stadium_settings(b, at4) {
                        Err(e) => Err(e),
                        Ok((settings, at5)) => Ok((CustomHeader { name, background, dimensions, physics, settings }, at5)),
                    },
                },
            },
        },
    }
}

/// The lists of a custom stadium, in their order in the stream.
pub struct CustomLists {
    pub vertices: Seq<Vertex>,
    pub segments: Seq<Segment>,
    pub planes: Seq<Plane>,
    pub goals: Seq<Goal>,
    pub discs: Seq<Disc>,
    pub joints: Seq<Joint>,
    pub red: Seq<Point>,
    pub blue: Seq<Point>,
}

pub open spec fn spec_custom_lists(b: Seq<u8>, p: int) -> SpecRead<CustomLists> {
    match spec_vertex_list(b, p) {
        Err(e) => Err(e),
        Ok((vertices, at1)) => match spec_segment_list(b, at1) {
            Err(e) => Err(e),
            Ok((segments, at2)) => match spec_plane_list(b, at2) {
                Err(e) => Err(e),
                Ok((planes, at3)) => match spec_goal_list(b, at3) {
                    Err(e) => Err(e),
                    Ok((goals, at4)) => match spec_disc_list(b, at4) {
                        Err(e) => Err(e),
                        Ok((discs, at5)) => match spec_joint_list(b, at5) {
                            Err(e) => Err(e),
                            Ok((joints, at6)) => match spec_red_spawn_points(b, at6) {
                                Err(e) => Err(e),
                                Ok((red, at7)) => match spec_blue_spawn_points(b, at7) {
                                    Err(e) => Err(e),
                                    Ok((blue, at8)) => Ok((CustomLists { vertices, segments, planes, goals, discs, joints, red, blue }, at8)),
                                },
                            },
                        },
                    },
                },
            },
        },
    }
}

pub open spec fn custom_stadium_view(h: CustomHeader, l: CustomLists) -> StadiumView {
    StadiumView {
        default_stadium_id: 255,
        name: h.name,
        background_type: Some(background_of_code(h.background.0)),
        background_width: Some(h.background.1),
        background_height: Some(h.background.2),
        background_kickoff_radius: Some(h.background.3),
        background_corner_radius: Some(h.background.4),
        background_goal_line: Some(h.background.5),
        background_color: Some(h.background.6),
        width: Some(h.dimensions.0),
        height: Some(h.dimensions.1),
        spawn_distance: Some(h.dimensions.2),
        player_physics: Some(h.physics),
        max_view_width: Some(h.settings.0),
        camera_follow: Some(camera_of_code(h.settings.1)),
        can_be_stored: Some(h.settings.2),
        full_kickoff_reset: Some(h.settings.3),
        vertices: l.vertices,
        segments: l.segments,
        planes: l.planes,
        goals: l.goals,
        discs: l.discs,
        joints: l.joints,
        red_spawn_points: l.red,
        blue_spawn_points: l.blue,
    }
}

/// A custom stadium after its id: the header, then the lists.
pub open spec fn spec_custom_stadium(b: Seq<u8>, p: int) -> SpecRead<StadiumView> {
    match spec_custom_header(b, p) {
        Err(e) => Err(e),
        Ok((h, at1)) => match spec_custom_lists(b, at1) {
            Err(e) => Err(e),
            Ok((l, at2)) => Ok((custom_stadium_view(h, l), at2)),
        },
    }
}

pub fn parse_stadium(reader: &mut ReplayReader) -> (r: Result<Stadium, DecodeError>)
    ensures
        read_as(old(reader)@, final(reader)@, spec_stadium(old(reader)@.bytes, old(reader)@.cursor), r),
{
    let default_stadium_id = reader.read_u8("stadium.defaultStadiumId")?;
    if default_stadium_id != 255 {
        let name = match default_stadium_name(default_stadium_id) {
            Some(n) => Some(String::from_str(n)),
            None => None,
        };
        let stadium = Stadium {
            default_stadium_id,
            name,
            background_type: None,
            background_width: None,
            background_height: None,
            background_kickoff_radius: None,
            background_corner_radius: None,
            background_goal_line: None,
            background_color: None,
            width: None,
            height: None,
            spawn_distance: None,
            player_physics: None,
            max_view_width: None,
            camera_follow: None,
            can_be_stored: None,
            full_kickoff_reset: None,
            vertices: Vec::new(),
            segments: Vec::new(),
            planes: Vec::new(),
            goals: Vec::new(),
            discs: Vec::new(),
            joints: Vec::new(),
            red_spawn_points: Vec::new(),
            blue_spawn_points: Vec::new(),
        };
        assert(stadium@ == builtin_stadium(default_stadium_id));
        return Ok(stadium);
    }
    parse_custom_stadium(reader)
}

fn parse_custom_stadium(reader: &mut ReplayReader) -> (r: Result<Stadium, DecodeError>)
    ensures
        read_as(old(reader)@, final(reader)@, spec_custom_stadium(old(reader)@.bytes, old(reader)@.cursor), r),
{
    let name = reader.read_nullable_string("stadium.name")?;
    let background = parse_stadium_background(reader)?;
    let dimensions = parse_stadium_dimensions(reader)?;
    let physics = parse_player_physics(reader, "stadium.playerPhysics")?;
    let settings = parse_stadium_settings(reader)?;
    let ghost h = CustomHeader { name: name.deep_view(), background, dimensions, physics, settings };
    assert(spec_custom_header(old(reader)@.bytes, old(reader)@.cursor) == Ok::<(CustomHeader, int), (DecodeErrorView, int)>((h, reader@.cursor)));
    let vertices = parse_vertex_list(reader)?;
    let segments = parse_segment_list(reader)?;
    let planes = parse_plane_list(reader)?;
    let goals = parse_goal_list(reader)?;
    let discs = parse_disc_list(reader)?;
    let joints = parse_joint_list(reader)?;
    let red_spawn_points = parse_red_spawn_points(reader)?;
    let blue_spawn_points = parse_blue_spawn_points(reader)?;
    let stadium = Stadium {
        default_stadium_id: 255,
        name,
        background_type: Some(BackgroundType::from_i32(background.0)),
        background_width: Some(background.1),
        background_height: Some(background.2),
        background_kickoff_radius: Some(background.3),
        background_corner_radius: Some(background.4),
        background_goal_line: Some(background.5),
        background_color: Some(background.6),
        width: Some(dimensions.0),
        height: Some(dimensions.1),
        spawn_distance: Some(dimensions.2),
        player_physics: Some(physics),
        max_view_width: Some(settings.0),
        camera_follow: Some(CameraFollow::from_u8(settings.1)),
        can_be_stored: Some(settings.2),
        full_kickoff_reset: Some(settings.3),
        vertices,
        segments,
        planes,
        goals,
        discs,
        joints,
        red_spawn_points,
        blue_spawn_points,
    };
    Ok(stadium)
}

/// The background of a custom stadium: its type, five `f64` measures and its color.
pub open spec fn spec_stadium_background(b: Seq<u8>, p: int) -> SpecRead<(i32, u64, u64, u64, u64, u64, i32)> {
    match spec_i32(b, p, "stadium.bgType"@) {
        Err(e) => Err(e),
        Ok((bg_type, at1)) =>
        match spec_u64(b, at1, "stadium.bgWidth"@) {
            Err(e) => Err(e),
            Ok((bg_width, at2)) =>
            match spec_u64(b, at2, "stadium.bgHeight"@) {
                Err(e) => Err(e),
                Ok((bg_height, at3)) =>
                match spec_u64(b, at3, "stadium.bgKickOffRadius"@) {
                    Err(e) => Err(e),
                    Ok((bg_kickoff_radius, at4)) =>
                    match spec_u64(b, at4, "stadium.bgCornerRadius"@) {
                        Err(e) => Err(e),
                        Ok((bg_corner_radius, at5)) =>
                        match spec_u64(b, at5, "stadium.bgGoalLine"@) {
                            Err(e) => Err(e),
                            Ok((bg_goal_line, at6)) =>
                            match spec_i32(b, at6, "stadium.bgColor"@) {
                                Err(e) => Err(e),
                                Ok((bg_color, at7)) =>
                                Ok(((bg_type, bg_width, bg_height, bg_kickoff_radius, bg_corner_radius, bg_goal_line, bg_color), at7)),
                            },
                        },
                    },
                },
            },
        },
    }
}

fn parse_stadium_background(reader: &mut ReplayReader) -> (r: Result<(i32, u64, u64, u64, u64, u64, i32), DecodeError>)
    ensures
        read_as(old(reader)@, final(reader)@, spec_stadium_background(old(reader)@.bytes, old(reader)@.cursor), r),
{
    let bg_type = reader.read_i32("stadium.bgType")?;
    let bg_width = reader.read_f64_bits("stadium.bgWidth")?;
    let bg_height = reader.read_f64_bits("stadium.bgHeight")?;
    let bg_kickoff_radius = reader.read_f64_bits("stadium.bgKickOffRadius")?;
    let bg_corner_radius = reader.read_f64_bits("stadium.bgCornerRadius")?;
    let bg_goal_line = reader.read_f64_bits("stadium.bgGoalLine")?;
    let bg_color = reader.read_i32("stadium.bgColor")?;
    Ok((bg_type, bg_width, bg_height, bg_kickoff_radius, bg_corner_radius, bg_goal_line, bg_color))
}

/// The size of a custom stadium and the spawn distance.
pub open spec fn spec_stadium_dimensions(b: Seq<u8>, p: int) -> SpecRead<(u64, u64, u64)> {
    match spec_u64(b, p, "stadium.width"@) {
        Err(e) => Err(e),
        Ok((width, at1)) =>
        match spec_u64(b, at1, "stadium.height"@) {
            Err(e) => Err(e),
            Ok((height, at2)) =>
            match spec_u64(b, at2, "stadium.spawnDistance"@) {
                Err(e) => Err(e),
                Ok((spawn_distance, at3)) =>
                Ok(((width, height, spawn_distance), at3)),
            },
        },
    }
}

fn parse_stadium_dimensions(reader: &mut ReplayReader) -> (r: Result<(u64, u64, u64), DecodeError>)
    ensures
        read_as(old(reader)@, final(reader)@, spec_stadium_dimensions(old(reader)@.bytes, old(reader)@.cursor), r),
{
    let width = reader.read_f64_bits("stadium.width")?;
    let height = reader.read_f64_bits("stadium.height")?;
    let spawn_distance = reader.read_f64_bits("stadium.spawnDistance")?;
    Ok((width, height, spawn_distance))
}

/// The view and kick-off settings of a custom stadium.
pub open spec fn spec_stadium_settings(b: Seq<u8>, p: int) -> SpecRead<(u16, u8, bool, bool)> {
    match spec_u16(b, p, "stadium.maxViewWidth"@) {
        Err(e) => Err(e),
        Ok((max_view_width, at1)) =>
        match spec_u8(b, at1, "stadium.cameraFollow"@) {
            Err(e) => Err(e),
            Ok((camera_follow, at2)) =>
            match spec_bool(b, at2, "stadium.canBeStored"@) {
                Err(e) => Err(e),
                Ok((can_be_stored, at3)) =>
                match spec_bool(b, at3, "stadium.fullKickOffReset"@) {
                    Err(e) => Err(e),
                    Ok((full_kickoff_reset, at4)) =>
                    Ok(((max_view_width, camera_follow, can_be_stored, full_kickoff_reset), at4)),
                },
            },
        },
    }
}

fn parse_stadium_settings(reader: &mut ReplayReader) -> (r: Result<(u16, u8, bool, bool), DecodeError>)
    ensures
        read_as(old(reader)@, final(reader)@, spec_stadium_settings(old(reader)@.bytes, old(reader)@.cursor), r),
{
    let max_view_width = reader.read_u16("stadium.maxViewWidth")?;
    let camera_follow = reader.read_u8("stadium.cameraFollow")?;
    let can_be_stored = reader.read_bool("stadium.canBeStored")?;
    let full_kickoff_reset = reader.read_bool("stadium.fullKickOffReset")?;
    Ok((max_view_width, camera_follow, can_be_stored, full_kickoff_reset))
}

/// Reading item `i` of the vertices of a custom stadium at `at`.
pub open spec fn vertex_item(b: Seq<u8>) -> spec_fn(int, nat) -> SpecRead<Vertex> {
    |at: int, i: nat| spec_vertex(b, at, index_context("stadium.vertices"@, i))
}

/// The vertices of a custom stadium: a count, then that many items.
pub open spec fn spec_vertex_list(b: Seq<u8>, p: int) -> SpecRead<Seq<Vertex>> {
    match spec_u8(b, p, "stadium.vertices.length"@) {
        Err(e) => Err(e),
        Ok((n, at)) => spec_repeat(n as nat, vertex_item(b), at),
    }
}

#[verifier::loop_isolation(false)]
fn parse_vertex_list(reader: &mut ReplayReader) -> (r: Result<Vec<Vertex>, DecodeError>)
    ensures
        read_as(old(reader)@, final(reader)@, spec_vertex_list(old(reader)@.bytes, old(reader)@.cursor), r),
{
    let count = reader.read_u8("stadium.vertices.length")? as usize;
    let ghost b = reader@.bytes;
    let ghost start = reader@.cursor;
    let ghost item = vertex_item(b);
    let mut items: Vec<Vertex> = Vec::new();
    let mut index: usize = 0;
    while index < count
        invariant
            index <= count,
            reader@.bytes == b,
            reader@.cursor <= reader@.bytes.len(),
            start <= reader@.cursor,
            spec_repeat(index as nat, item, start) == Ok::<(Seq<Vertex>, int), (DecodeErrorView, int)>((items@, reader@.cursor)),
        decreases count - index,
    {
        let ctx = indexed("stadium.vertices", index);
        match parse_vertex(reader, ctx.as_str()) {
            Ok(v) => {
                let ghost before = items@;
                items.push(v);
                
            },
            Err(e) => {
                proof { lemma_repeat_error_persists(item, start, (index + 1) as nat, count as nat); }
                return Err(e);
            },
        }
        index = index + 1;
    }
    Ok(items)
}

/// Reading item `i` of the segments of a custom stadium at `at`.
pub open spec fn segment_item(b: Seq<u8>) -> spec_fn(int, nat) -> SpecRead<Segment> {
    |at: int, i: nat| spec_segment(b, at, index_context("stadium.segments"@, i))
}

/// The segments of a custom stadium: a count, then that many items.
pub open spec fn spec_segment_list(b: Seq<u8>, p: int) -> SpecRead<Seq<Segment>> {
    match spec_u8(b, p, "stadium.segments.length"@) {
        Err(e) => Err(e),
        Ok((n, at)) => spec_repeat(n as nat, segment_item(b), at),
    }
}

#[verifier::loop_isolation(false)]
fn parse_segment_list(reader: &mut ReplayReader) -> (r: Result<Vec<Segment>, DecodeError>)
    ensures
        read_as(old(reader)@, final(reader)@, spec_segment_list(old(reader)@.bytes, old(reader)@.cursor), r),
{
    let count = reader.read_u8("stadium.segments.length")? as usize;
    let ghost b = reader@.bytes;
    let ghost start = reader@.cursor;
    let ghost item = segment_item(b);
    let mut items: Vec<Segment> = Vec::new();
    let mut index: usize = 0;
    while index < count
        invariant
            index <= count,
            reader@.bytes == b,
            reader@.cursor <= reader@.bytes.len(),
            start <= reader@.cursor,
            spec_repeat(index as nat, item, start) == Ok::<(Seq<Segment>, int), (DecodeErrorView, int)>((items@, reader@.cursor)),
        decreases count - index,
    {
        let ctx = indexed("stadium.segments", index);
        match parse_segment(reader, ctx.as_str()) {
            Ok(v) => {
                let ghost before = items@;
                items.push(v);
                
            },
            Err(e) => {
                proof { lemma_repeat_error_persists(item, start, (index + 1) as nat, count as nat); }
                return Err(e);
            },
        }
        index = index + 1;
    }
    Ok(items)
}

/// Reading item `i` of the planes of a custom stadium at `at`.
pub open spec fn plane_item(b: Seq<u8>) -> spec_fn(int, nat) -> SpecRead<Plane> {
    |at: int, i: nat| spec_plane(b, at, index_context("stadium.planes"@, i))
}

/// The planes of a custom stadium: a count, then that many items.
pub open spec fn spec_plane_list(b: Seq<u8>, p: int) -> SpecRead<Seq<Plane>> {
    match spec_u8(b, p, "stadium.planes.length"@) {
        Err(e) => Err(e),
        Ok((n, at)) => spec_repeat(n as nat, plane_item(b), at),
    }
}

#[verifier::loop_isolation(false)]
fn parse_plane_list(reader: &mut ReplayReader) -> (r: Result<Vec<Plane>, DecodeError>)
    ensures
        read_as(old(reader)@, final(reader)@, spec_plane_list(old(reader)@.bytes, old(reader)@.cursor), r),
{
    let count = reader.read_u8("stadium.planes.length")? as usize;
    let ghost b = reader@.bytes;
    let ghost start = reader@.cursor;
    let ghost item = plane_item(b);
    let mut items: Vec<Plane> = Vec::new();
    let mut index: usize = 0;
    while index < count
        invariant
            index <= count,
            reader@.bytes == b,
            reader@.cursor <= reader@.bytes.len(),
            start <= reader@.cursor,
            spec_repeat(index as nat, item, start) == Ok::<(Seq<Plane>, int), (DecodeErrorView, int)>((items@, reader@.cursor)),
        decreases count - index,
    {
        let ctx = indexed("stadium.planes", index);
        match parse_plane(reader, ctx.as_str()) {
            Ok(v) => {
                let ghost before = items@;
                items.push(v);
                
            },
            Err(e) => {
                proof { lemma_repeat_error_persists(item, start, (index + 1) as nat, count as nat); }
                return Err(e);
            },
        }
        index = index + 1;
    }
    Ok(items)
}

/// Reading item `i` of the goals of a custom stadium at `at`.
pub open spec fn goal_item(b: Seq<u8>) -> spec_fn(int, nat) -> SpecRead<Goal> {
    |at: int, i: nat| spec_goal(b, at, index_context("stadium.goals"@, i))
}

/// The goals of a custom stadium: a count, then that many items.
pub open spec fn spec_goal_list(b: Seq<u8>, p: int) -> SpecRead<Seq<Goal>> {
    match spec_u8(b, p, "stadium.goals.length"@) {
        Err(e) => Err(e),
        Ok((n, at)) => spec_repeat(n as nat, goal_item(b), at),
    }
}

#[verifier::loop_isolation(false)]
fn parse_goal_list(reader: &mut ReplayReader) -> (r: Result<Vec<Goal>, DecodeError>)
    ensures
        read_as(old(reader)@, final(reader)@, spec_goal_list(old(reader)@.bytes, old(reader)@.cursor), r),
{
    let count = reader.read_u8("stadium.goals.length")? as usize;
    let ghost b = reader@.bytes;
    let ghost start = reader@.cursor;
    let ghost item = goal_item(b);
    let mut items: Vec<Goal> = Vec::new();
    let mut index: usize = 0;
    while index < count
        invariant
            index <= count,
            reader@.bytes == b,
            reader@.cursor <= reader@.bytes.len(),
            start <= reader@.cursor,
            spec_repeat(index as nat, item, start) == Ok::<(Seq<Goal>, int), (DecodeErrorView, int)>((items@, reader@.cursor)),
        decreases count - index,
    {
        let ctx = indexed("stadium.goals", index);
        match parse_goal(reader, ctx.as_str()) {
            Ok(v) => {
                let ghost before = items@;
                items.push(v);
                
            },
            Err(e) => {
                proof { lemma_repeat_error_persists(item, start, (index + 1) as nat, count as nat); }
                return Err(e);
            },
        }
        index = index + 1;
    }
    Ok(items)
}

/// Reading item `i` of the discs of a custom stadium at `at`.
pub open spec fn disc_item(b: Seq<u8>) -> spec_fn(int, nat) -> SpecRead<Disc> {
    |at: int, i: nat| spec_disc(b, at, index_context("stadium.discs"@, i))
}

/// The discs of a custom stadium: a count, then that many items.
pub open spec fn spec_disc_list(b: Seq<u8>, p: int) -> SpecRead<Seq<Disc>> {
    match spec_u8(b, p, "stadium.discs.length"@) {
        Err(e) => Err(e),
        Ok((n, at)) => spec_repeat(n as nat, disc_item(b), at),
    }
}

#[verifier::loop_isolation(false)]
fn parse_disc_list(reader: &mut ReplayReader) -> (r: Result<Vec<Disc>, DecodeError>)
    ensures
        read_as(old(reader)@, final(reader)@, spec_disc_list(old(reader)@.bytes, old(reader)@.cursor), r),
{
    let count = reader.read_u8("stadium.discs.length")? as usize;
    let ghost b = reader@.bytes;
    let ghost start = reader@.cursor;
    let ghost item = disc_item(b);
    let mut items: Vec<Disc> = Vec::new();
    let mut index: usize = 0;
    while index < count
        invariant
            index <= count,
            reader@.bytes == b,
            reader@.cursor <= reader@.bytes.len(),
            start <= reader@.cursor,
            spec_repeat(index as nat, item, start) == Ok::<(Seq<Disc>, int), (DecodeErrorView, int)>((items@, reader@.cursor)),
        decreases count - index,
    {
        let ctx = indexed("stadium.discs", index);
        match parse_disc(reader, ctx.as_str()) {
            Ok(v) => {
                let ghost before = items@;
                items.push(v);
                
            },
            Err(e) => {
                proof { lemma_repeat_error_persists(item, start, (index + 1) as nat, count as nat); }
                return Err(e);
            },
        }
        index = index + 1;
    }
    Ok(items)
}

/// Reading item `i` of the joints of a custom stadium at `at`.
pub open spec fn joint_item(b: Seq<u8>) -> spec_fn(int, nat) -> SpecRead<Joint> {
    |at: int, i: nat| spec_joint(b, at, index_context("stadium.joints"@, i))
}

/// The joints of a custom stadium: a count, then that many items.
pub open spec fn spec_joint_list(b: Seq<u8>, p: int) -> SpecRead<Seq<Joint>> {
    match spec_u8(b, p, "stadium.joints.length"@) {
        Err(e) => Err(e),
        Ok((n, at)) => spec_repeat(n as nat, joint_item(b), at),
    }
}

#[verifier::loop_isolation(false)]
fn parse_joint_list(reader: &mut ReplayReader) -> (r: Result<Vec<Joint>, DecodeError>)
    ensures
        read_as(old(reader)@, final(reader)@, spec_joint_list(old(reader)@.bytes, old(reader)@.cursor), r),
{
    let count = reader.read_u8("stadium.joints.length")? as usize;
    let ghost b = reader@.bytes;
    let ghost start = reader@.cursor;
    let ghost item = joint_item(b);
    let mut items: Vec<Joint> = Vec::new();
    let mut index: usize = 0;
    while index < count
        invariant
            index <= count,
            reader@.bytes == b,
            reader@.cursor <= reader@.bytes.len(),
            start <= reader@.cursor,
            spec_repeat(index as nat, item, start) == Ok::<(Seq<Joint>, int), (DecodeErrorView, int)>((items@, reader@.cursor)),
        decreases count - index,
    {
        let ctx = indexed("stadium.joints", index);
        match parse_joint(reader, ctx.as_str()) {
            Ok(v) => {
                let ghost before = items@;
                items.push(v);
                
            },
            Err(e) => {
                proof { lemma_repeat_error_persists(item, start, (index + 1) as nat, count as nat); }
                return Err(e);
            },
        }
        index = index + 1;
    }
    Ok(items)
}

/// Reading item `i` of the red spawn points of a custom stadium at `at`.
pub open spec fn red_spawn_item(b: Seq<u8>) -> spec_fn(int, nat) -> SpecRead<Point> {
    |at: int, i: nat| spec_point(b, at, index_context("stadium.redSpawnPoints"@, i))
}

/// The red spawn points of a custom stadium: a count, then that many items.
pub open spec fn spec_red_spawn_points(b: Seq<u8>, p: int) -> SpecRead<Seq<Point>> {
    match spec_u8(b, p, "stadium.redSpawnPoints.length"@) {
        Err(e) => Err(e),
        Ok((n, at)) => spec_repeat(n as nat, red_spawn_item(b), at),
    }
}

#[verifier::loop_isolation(false)]
fn parse_red_spawn_points(reader: &mut ReplayReader) -> (r: Result<Vec<Point>, DecodeError>)
    ensures
        read_as(old(reader)@, final(reader)@, spec_red_spawn_points(old(reader)@.bytes, old(reader)@.cursor), r),
{
    let count = reader.read_u8("stadium.redSpawnPoints.length")? as usize;
    let ghost b = reader@.bytes;
    let ghost start = reader@.cursor;
    let ghost item = red_spawn_item(b);
    let mut items: Vec<Point> = Vec::new();
    let mut index: usize = 0;
    while index < count
        invariant
            index <= count,
            reader@.bytes == b,
            reader@.cursor <= reader@.bytes.len(),
            start <= reader@.cursor,
            spec_repeat(index as nat, item, start) == Ok::<(Seq<Point>, int), (DecodeErrorView, int)>((items@, reader@.cursor)),
        decreases count - index,
    {
        let ctx = indexed("stadium.redSpawnPoints", index);
        match parse_point(reader, ctx.as_str()) {
            Ok(v) => {
                let ghost before = items@;
                items.push(v);
                
            },
            Err(e) => {
                proof { lemma_repeat_error_persists(item, start, (index + 1) as nat, count as nat); }
                return Err(e);
            },
        }
        index = index + 1;
    }
    Ok(items)
}

/// Reading item `i` of the blue spawn points of a custom stadium at `at`.
pub open spec fn blue_spawn_item(b: Seq<u8>) -> spec_fn(int, nat) -> SpecRead<Point> {
    |at: int, i: nat| spec_point(b, at, index_context("stadium.blueSpawnPoints"@, i))
}

/// The blue spawn points of a custom stadium: a count, then that many items.
pub open spec fn spec_blue_spawn_points(b: Seq<u8>, p: int) -> SpecRead<Seq<Point>> {
    match spec_u8(b, p, "stadium.blueSpawnPoints.length"@) {
        Err(e) => Err(e),
        Ok((n, at)) => spec_repeat(n as nat, blue_spawn_item(b), at),
    }
}

#[verifier::loop_isolation(false)]
fn parse_blue_spawn_points(reader: &mut ReplayReader) -> (r: Result<Vec<Point>, DecodeError>)
    ensures
        read_as(old(reader)@, final(reader)@, spec_blue_spawn_points(old(reader)@.bytes, old(reader)@.cursor), r),
{
    let count = reader.read_u8("stadium.blueSpawnPoints.length")? as usize;
    let ghost b = reader@.bytes;
    let ghost start = reader@.cursor;
    let ghost item = blue_spawn_item(b);
    let mut items: Vec<Point> = Vec::new();
    let mut index: usize = 0;
    while index < count
        invariant
            index <= count,
            reader@.bytes == b,
            reader@.cursor <= reader@.bytes.len(),
            start <= reader@.cursor,
            spec_repeat(index as nat, item, start) == Ok::<(Seq<Point>, int), (DecodeErrorView, int)>((items@, reader@.cursor)),
        decreases count - index,
    {
        let ctx = indexed("stadium.blueSpawnPoints", index);
        match parse_point(reader, ctx.as_str()) {
            Ok(v) => {
                let ghost before = items@;
                items.push(v);
                
            },
            Err(e) => {
                proof { lemma_repeat_error_persists(item, start, (index + 1) as nat, count as nat); }
                return Err(e);
            },
        }
        index = index + 1;
    }
    Ok(items)
}

} // verus!
