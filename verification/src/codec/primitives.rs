//! The small records of the format: points, stadium geometry, physics, team colors.
use vstd::prelude::*;

use crate::codec::reader::{
    lemma_repeat_error_persists, read_as, spec_i32, spec_i8, spec_repeat, spec_u32, spec_u64, spec_u8,
    ReplayReader, SpecRead,
};
use crate::error::{DecodeError, DecodeErrorView};
use crate::text::{index_context, indexed, join};
use crate::types::stadium::{
    Disc, Goal, Joint, Plane, PlayerPhysics, Point, Segment, TeamColors, TeamColorsView, Vertex,
};

verus! {

/// A point: two `f64` values.
pub open spec fn spec_point(b: Seq<u8>, p: int, context: Seq<char>) -> SpecRead<Point> {
    match spec_u64(b, p, context + ".x"@) {
        Err(e) => Err(e),
        Ok((x, at1)) =>
        match spec_u64(b, at1, context + ".y"@) {
            Err(e) => Err(e),
            Ok((y, at2)) =>
            Ok((Point { x, y }, at2)),
        },
    }
}

pub fn parse_point(reader: &mut ReplayReader, context: &str) -> (r: Result<Point, DecodeError>)
    ensures
        read_as(old(reader)@, final(reader)@, spec_point(old(reader)@.bytes, old(reader)@.cursor, context@), r),
{
    let x = reader.read_f64_bits(join(context, ".x").as_str())?;
    let y = reader.read_f64_bits(join(context, ".y").as_str())?;
    Ok(Point { x, y })
}

/// A vertex of a custom stadium.
pub open spec fn spec_vertex(b: Seq<u8>, p: int, context: Seq<char>) -> SpecRead<Vertex> {
    match spec_point(b, p, context + ".pos"@) {
        Err(e) => Err(e),
        Ok((pos, at1)) =>
        match spec_u64(b, at1, context + ".bCoef"@) {
            Err(e) => Err(e),
            Ok((b_coef, at2)) =>
            match spec_i32(b, at2, context + ".cMask"@) {
                Err(e) => Err(e),
                Ok((c_mask, at3)) =>
                match spec_i32(b, at3, context + ".cGroup"@) {
                    Err(e) => Err(e),
                    Ok((c_group, at4)) =>
                    Ok((Vertex { pos, b_coef, c_mask, c_group }, at4)),
                },
            },
        },
    }
}

pub fn parse_vertex(reader: &mut ReplayReader, context: &str) -> (r: Result<Vertex, DecodeError>)
    ensures
        read_as(old(reader)@, final(reader)@, spec_vertex(old(reader)@.bytes, old(reader)@.cursor, context@), r),
{
    let pos = parse_point(reader, join(context, ".pos").as_str())?;
    let b_coef = reader.read_f64_bits(join(context, ".bCoef").as_str())?;
    let c_mask = reader.read_i32(join(context, ".cMask").as_str())?;
    let c_group = reader.read_i32(join(context, ".cGroup").as_str())?;
    Ok(Vertex { pos, b_coef, c_mask, c_group })
}

/// A plane of a custom stadium.
pub open spec fn spec_plane(b: Seq<u8>, p: int, context: Seq<char>) -> SpecRead<Plane> {
    match spec_point(b, p, context + ".normal"@) {
        Err(e) => Err(e),
        Ok((normal, at1)) =>
        match spec_u64(b, at1, context + ".dist"@) {
            Err(e) => Err(e),
            Ok((dist, at2)) =>
            match spec_u64(b, at2, context + ".bCoef"@) {
                Err(e) => Err(e),
                Ok((b_coef, at3)) =>
                match spec_i32(b, at3, context + ".cMask"@) {
                    Err(e) => Err(e),
                    Ok((c_mask, at4)) =>
                    match spec_i32(b, at4, context + ".cGroup"@) {
                        Err(e) => Err(e),
                        Ok((c_group, at5)) =>
                        Ok((Plane { normal, dist, b_coef, c_mask, c_group }, at5)),
                    },
                },
            },
        },
    }
}

pub fn parse_plane(reader: &mut ReplayReader, context: &str) -> (r: Result<Plane, DecodeError>)
    ensures
        read_as(old(reader)@, final(reader)@, spec_plane(old(reader)@.bytes, old(reader)@.cursor, context@), r),
{
    let normal = parse_point(reader, join(context, ".normal").as_str())?;
    let dist = reader.read_f64_bits(join(context, ".dist").as_str())?;
    let b_coef = reader.read_f64_bits(join(context, ".bCoef").as_str())?;
    let c_mask = reader.read_i32(join(context, ".cMask").as_str())?;
    let c_group = reader.read_i32(join(context, ".cGroup").as_str())?;
    Ok(Plane { normal, dist, b_coef, c_mask, c_group })
}

/// A goal line of a custom stadium.
pub open spec fn spec_goal(b: Seq<u8>, p: int, context: Seq<char>) -> SpecRead<Goal> {
    match spec_point(b, p, context + ".p0"@) {
        Err(e) => Err(e),
        Ok((p0, at1)) =>
        match spec_point(b, at1, context + ".p1"@) {
            Err(e) => Err(e),
            Ok((p1, at2)) =>
            match spec_i8(b, at2, context + ".teamId"@) {
                Err(e) => Err(e),
                Ok((team_id, at3)) =>
                Ok((Goal { p0, p1, team_id }, at3)),
            },
        },
    }
}

pub fn parse_goal(reader: &mut ReplayReader, context: &str) -> (r: Result<Goal, DecodeError>)
    ensures
        read_as(old(reader)@, final(reader)@, spec_goal(old(reader)@.bytes, old(reader)@.cursor, context@), r),
{
    let p0 = parse_point(reader, join(context, ".p0").as_str())?;
    let p1 = parse_point(reader, join(context, ".p1").as_str())?;
    let team_id = reader.read_i8(join(context, ".teamId").as_str())?;
    Ok(Goal { p0, p1, team_id })
}

/// A disc: of a custom stadium, or of a game in progress.
pub open spec fn spec_disc(b: Seq<u8>, p: int, context: Seq<char>) -> SpecRead<Disc> {
    match spec_point(b, p, context + ".pos"@) {
        Err(e) => Err(e),
        Ok((pos, at1)) =>
        match spec_point(b, at1, context + ".speed"@) {
            Err(e) => Err(e),
            Ok((speed, at2)) =>
            match spec_point(b, at2, context + ".gravity"@) {
                Err(e) => Err(e),
                Ok((gravity, at3)) =>
                match spec_u64(b, at3, context + ".radius"@) {
                    Err(e) => Err(e),
                    Ok((radius, at4)) =>
                    match spec_u64(b, at4, context + ".bCoef"@) {
                        Err(e) => Err(e),
                        Ok((b_coef, at5)) =>
                        match spec_u64(b, at5, context + ".invMass"@) {
                            Err(e) => Err(e),
                            Ok((inv_mass, at6)) =>
                            match spec_u64(b, at6, context + ".damping"@) {
                                Err(e) => Err(e),
                                Ok((damping, at7)) =>
                                match spec_u32(b, at7, context + ".color"@) {
                                    Err(e) => Err(e),
                                    Ok((color, at8)) =>
                                    match spec_i32(b, at8, context + ".cMask"@) {
                                        Err(e) => Err(e),
                                        Ok((c_mask, at9)) =>
                                        match spec_i32(b, at9, context + ".cGroup"@) {
                                            Err(e) => Err(e),
                                            Ok((c_group, at10)) =>
                                            Ok((Disc { pos, speed, gravity, radius, b_coef, inv_mass, damping, color, c_mask, c_group }, at10)),
                                        },
                                    },
                                },
                            },
                        },
                    },
                },
            },
        },
    }
}

pub fn parse_disc(reader: &mut ReplayReader, context: &str) -> (r: Result<Disc, DecodeError>)
    ensures
        read_as(old(reader)@, final(reader)@, spec_disc(old(reader)@.bytes, old(reader)@.cursor, context@), r),
{
    let pos = parse_point(reader, join(context, ".pos").as_str())?;
    let speed = parse_point(reader, join(context, ".speed").as_str())?;
    let gravity = parse_point(reader, join(context, ".gravity").as_str())?;
    let radius = reader.read_f64_bits(join(context, ".radius").as_str())?;
    let b_coef = reader.read_f64_bits(join(context, ".bCoef").as_str())?;
    let inv_mass = reader.read_f64_bits(join(context, ".invMass").as_str())?;
    let damping = reader.read_f64_bits(join(context, ".damping").as_str())?;
    let color = reader.read_u32(join(context, ".color").as_str())?;
    let c_mask = reader.read_i32(join(context, ".cMask").as_str())?;
    let c_group = reader.read_i32(join(context, ".cGroup").as_str())?;
    Ok(Disc { pos, speed, gravity, radius, b_coef, inv_mass, damping, color, c_mask, c_group })
}

/// A joint between two discs.
pub open spec fn spec_joint(b: Seq<u8>, p: int, context: Seq<char>) -> SpecRead<Joint> {
    match spec_u8(b, p, context + ".d0"@) {
        Err(e) => Err(e),
        Ok((d0, at1)) =>
        match spec_u8(b, at1, context + ".d1"@) {
            Err(e) => Err(e),
            Ok((d1, at2)) =>
            match spec_u64(b, at2, context + ".minLength"@) {
                Err(e) => Err(e),
                Ok((min_length, at3)) =>
                match spec_u64(b, at3, context + ".maxLength"@) {
                    Err(e) => Err(e),
                    Ok((max_length, at4)) =>
                    match spec_u64(b, at4, context + ".strength"@) {
                        Err(e) => Err(e),
                        Ok((strength, at5)) =>
                        match spec_i32(b, at5, context + ".color"@) {
                            Err(e) => Err(e),
                            Ok((color, at6)) =>
                            Ok((Joint { d0, d1, min_length, max_length, strength, color }, at6)),
                        },
                    },
                },
            },
        },
    }
}

pub fn parse_joint(reader: &mut ReplayReader, context: &str) -> (r: Result<Joint, DecodeError>)
    ensures
        read_as(old(reader)@, final(reader)@, spec_joint(old(reader)@.bytes, old(reader)@.cursor, context@), r),
{
    let d0 = reader.read_u8(join(context, ".d0").as_str())?;
    let d1 = reader.read_u8(join(context, ".d1").as_str())?;
    let min_length = reader.read_f64_bits(join(context, ".minLength").as_str())?;
    let max_length = reader.read_f64_bits(join(context, ".maxLength").as_str())?;
    let strength = reader.read_f64_bits(join(context, ".strength").as_str())?;
    let color = reader.read_i32(join(context, ".color").as_str())?;
    Ok(Joint { d0, d1, min_length, max_length, strength, color })
}

/// The physics of the players of a custom stadium.
pub open spec fn spec_player_physics(b: Seq<u8>, p: int, context: Seq<char>) -> SpecRead<PlayerPhysics> {
    match spec_u64(b, p, context + ".bCoef"@) {
        Err(e) => Err(e),
        Ok((b_coef, at1)) =>
        match spec_u64(b, at1, context + ".invMass"@) {
            Err(e) => Err(e),
            Ok((inv_mass, at2)) =>
            match spec_u64(b, at2, context + ".damping"@) {
                Err(e) => Err(e),
                Ok((damping, at3)) =>
                match spec_u64(b, at3, context + ".acceleration"@) {
                    Err(e) => Err(e),
                    Ok((acceleration, at4)) =>
                    match spec_u64(b, at4, context + ".kickingAcceleration"@) {
                        Err(e) => Err(e),
                        Ok((kicking_acceleration, at5)) =>
                        match spec_u64(b, at5, context + ".kickingDamping"@) {
                            Err(e) => Err(e),
                            Ok((kicking_damping, at6)) =>
                            match spec_u64(b, at6, context + ".kickStrength"@) {
                                Err(e) => Err(e),
                                Ok((kick_strength, at7)) =>
                                match spec_point(b, at7, context + ".gravity"@) {
                                    Err(e) => Err(e),
                                    Ok((gravity, at8)) =>
                                    match spec_i32(b, at8, context + ".cGroup"@) {
                                        Err(e) => Err(e),
                                        Ok((c_group, at9)) =>
                                        match spec_u64(b, at9, context + ".radius"@) {
                                            Err(e) => Err(e),
                                            Ok((radius, at10)) =>
                                            match spec_u64(b, at10, context + ".kickback"@) {
                                                Err(e) => Err(e),
                                                Ok((kickback, at11)) =>
                                                Ok((PlayerPhysics { b_coef, inv_mass, damping, acceleration, kicking_acceleration, kicking_damping, kick_strength, gravity, c_group, radius, kickback }, at11)),
                                            },
                                        },
                                    },
                                },
                            },
                        },
                    },
                },
            },
        },
    }
}

pub fn parse_player_physics(reader: &mut ReplayReader, context: &str) -> (r: Result<PlayerPhysics, DecodeError>)
    ensures
        read_as(old(reader)@, final(reader)@, spec_player_physics(old(reader)@.bytes, old(reader)@.cursor, context@), r),
{
    let b_coef = reader.read_f64_bits(join(context, ".bCoef").as_str())?;
    let inv_mass = reader.read_f64_bits(join(context, ".invMass").as_str())?;
    let damping = reader.read_f64_bits(join(context, ".damping").as_str())?;
    let acceleration = reader.read_f64_bits(join(context, ".acceleration").as_str())?;
    let kicking_acceleration = reader.read_f64_bits(join(context, ".kickingAcceleration").as_str())?;
    let kicking_damping = reader.read_f64_bits(join(context, ".kickingDamping").as_str())?;
    let kick_strength = reader.read_f64_bits(join(context, ".kickStrength").as_str())?;
    let gravity = parse_point(reader, join(context, ".gravity").as_str())?;
    let c_group = reader.read_i32(join(context, ".cGroup").as_str())?;
    let radius = reader.read_f64_bits(join(context, ".radius").as_str())?;
    let kickback = reader.read_f64_bits(join(context, ".kickback").as_str())?;
    Ok(PlayerPhysics { b_coef, inv_mass, damping, acceleration, kicking_acceleration, kicking_damping, kick_strength, gravity, c_group, radius, kickback })
}

/// The bit pattern of `f64::INFINITY`, a segment's curve when the flags leave it out.
pub const INFINITY_BITS: u64 = 0x7ff0_0000_0000_0000u64;

/// A segment: flags, two vertex indices, then bias (flag 1), curve (flag 2) and color
/// (flag 4) when their flags are set, then the collision fields. Flag 8 makes it visible.
pub open spec fn spec_segment(b: Seq<u8>, p: int, context: Seq<char>) -> SpecRead<Segment> {
    match spec_u8(b, p, context + ".flags"@) {
        Err(e) => Err(e),
        Ok((flags, at1)) => match spec_u8(b, at1, context + ".v0"@) {
            Err(e) => Err(e),
            Ok((v0, at2)) => match spec_u8(b, at2, context + ".v1"@) {
                Err(e) => Err(e),
                Ok((v1, at3)) => match segment_optional(b, at3, context, flags) {
                    Err(e) => Err(e),
                    Ok(((bias, curve, color), at4)) => match spec_u64(b, at4, context + ".bCoef"@) {
                        Err(e) => Err(e),
                        Ok((b_coef, at5)) => match spec_i32(b, at5, context + ".cMask"@) {
                            Err(e) => Err(e),
                            Ok((c_mask, at6)) => match spec_i32(b, at6, context + ".cGroup"@) {
                                Err(e) => Err(e),
                                Ok((c_group, at7)) => Ok((
                                    Segment {
                                        flags,
                                        v0,
                                        v1,
                                        bias,
                                        curve,
                                        color,
                                        vis: flags & 8 != 0,
                                        b_coef,
                                        c_mask,
                                        c_group,
                                    },
                                    at7,
                                )),
                            },
                        },
                    },
                },
            },
        },
    }
}

/// The bias, curve and color of a segment, each present when its flag is set.
pub open spec fn segment_optional(b: Seq<u8>, p: int, context: Seq<char>, flags: u8) -> SpecRead<(u64, u64, i32)> {
    match (if flags & 1 != 0 { spec_u64(b, p, context + ".bias"@) } else { Ok((0u64, p)) }) {
        Err(e) => Err(e),
        Ok((bias, at1)) => match (if flags & 2 != 0 { spec_u64(b, at1, context + ".curve"@) } else { Ok((INFINITY_BITS, at1)) }) {
            Err(e) => Err(e),
            Ok((curve, at2)) => match (if flags & 4 != 0 { spec_i32(b, at2, context + ".color"@) } else { Ok((0i32, at2)) }) {
                Err(e) => Err(e),
                Ok((color, at3)) => Ok(((bias, curve, color), at3)),
            },
        },
    }
}

pub fn parse_segment(reader: &mut ReplayReader, context: &str) -> (r: Result<Segment, DecodeError>)
    ensures
        read_as(old(reader)@, final(reader)@, spec_segment(old(reader)@.bytes, old(reader)@.cursor, context@), r),
{
    let flags = reader.read_u8(join(context, ".flags").as_str())?;
    let v0 = reader.read_u8(join(context, ".v0").as_str())?;
    let v1 = reader.read_u8(join(context, ".v1").as_str())?;
    let bias = if (flags & 1) != 0 {
        reader.read_f64_bits(join(context, ".bias").as_str())?
    } else {
        0
    };
    let curve = if (flags & 2) != 0 {
        reader.read_f64_bits(join(context, ".curve").as_str())?
    } else {
        INFINITY_BITS
    };
    let color = if (flags & 4) != 0 {
        reader.read_i32(join(context, ".color").as_str())?
    } else {
        0
    };
    let vis = (flags & 8) != 0;
    let b_coef = reader.read_f64_bits(join(context, ".bCoef").as_str())?;
    let c_mask = reader.read_i32(join(context, ".cMask").as_str())?;
    let c_group = reader.read_i32(join(context, ".cGroup").as_str())?;
    Ok(Segment { flags, v0, v1, bias, curve, color, vis, b_coef, c_mask, c_group })
}

/// Reading stripe color `i` at `at`.
pub open spec fn inner_color_item(b: Seq<u8>, context: Seq<char>) -> spec_fn(int, nat) -> SpecRead<i32> {
    |at: int, i: nat| spec_i32(b, at, index_context(context + ".inner"@, i))
}

/// `count` stripe colors, each an `i32`.
pub open spec fn spec_inner_colors(b: Seq<u8>, p: int, context: Seq<char>, count: nat) -> SpecRead<Seq<i32>> {
    spec_repeat(count, inner_color_item(b, context), p)
}

/// Team colors: stripe angle, text color, the number of stripes (at most 3) and the stripe
/// colors.
pub open spec fn spec_team_colors(b: Seq<u8>, p: int, context: Seq<char>) -> SpecRead<TeamColorsView> {
    match spec_u8(b, p, context + ".angle"@) {
        Err(e) => Err(e),
        Ok((angle, at1)) => match spec_i32(b, at1, context + ".text"@) {
            Err(e) => Err(e),
            Ok((text, at2)) => match spec_u8(b, at2, context + ".innerCount"@) {
                Err(e) => Err(e),
                Ok((count, at3)) => if count > 3 {
                    Err((DecodeErrorView::InvalidVarInt { context: context + ".innerCount"@ }, at3))
                } else {
                    match spec_inner_colors(b, at3, context, count as nat) {
                        Err(e) => Err(e),
                        Ok((inner, at4)) => Ok((TeamColorsView { angle, text, inner }, at4)),
                    }
                },
            },
        },
    }
}

#[verifier::loop_isolation(false)]
pub fn parse_team_colors(reader: &mut ReplayReader, context: &str) -> (r: Result<TeamColors, DecodeError>)
    ensures
        read_as(old(reader)@, final(reader)@, spec_team_colors(old(reader)@.bytes, old(reader)@.cursor, context@), r),
{
    let angle = reader.read_u8(join(context, ".angle").as_str())?;
    let text = reader.read_i32(join(context, ".text").as_str())?;
    let color_count = reader.read_u8(join(context, ".innerCount").as_str())? as usize;
    if color_count > 3 {
        return Err(DecodeError::InvalidVarInt { context: join(context, ".innerCount") });
    }
    let ghost b = reader@.bytes;
    let ghost start = reader@.cursor;
    let ghost item = inner_color_item(b, context@);
    let base = join(context, ".inner");
    let mut inner: Vec<i32> = Vec::new();
    let mut index: usize = 0;
    while index < color_count
        invariant
            index <= color_count,
            reader@.bytes == b,
            reader@.cursor <= reader@.bytes.len(),
            start <= reader@.cursor,
            item == inner_color_item(b, context@),
            base@ == context@ + ".inner"@,
            spec_repeat(index as nat, item, start) == Ok::<(Seq<i32>, int), (DecodeErrorView, int)>((inner@, reader@.cursor)),
        decreases color_count - index,
    {
        let ctx = indexed(base.as_str(), index);
        match reader.read_i32(ctx.as_str()) {
            Ok(v) => {
                inner.push(v);
            },
            Err(e) => {
                proof { lemma_repeat_error_persists(item, start, (index + 1) as nat, color_count as nat); }
                return Err(e);
            },
        }
        index = index + 1;
    }
    Ok(TeamColors { angle, text, inner })
}

} // verus!
