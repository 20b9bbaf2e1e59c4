//! The room state at the start of a recording: settings, stadium, game, players, colors.
use vstd::prelude::*;

use crate::codec::primitives::{parse_disc, parse_team_colors, spec_disc, spec_team_colors};
use crate::codec::reader::{
    lemma_repeat_error_persists, read_as, read_as_list, spec_bool, spec_i16, spec_i32,
    spec_nullable_string, spec_repeat, spec_u64, spec_u8, spec_var_u32, ReplayReader, SpecRead,
};
use crate::codec::stadium::{parse_stadium, spec_stadium};
use crate::error::{DecodeError, DecodeErrorView};
use crate::text::{index_context, indexed, join};
use crate::types::enums::{game_play_state_of_code, GamePlayState};
use crate::types::room::{GameState, GameStateView, Player, PlayerView, RoomState, RoomStateView};
use crate::types::stadium::Disc;

verus! {

/// Player `index` of the room, its fields named `roomState.players[index].<field>`.
pub fn parse_player(reader: &mut ReplayReader, index: usize) -> (r: Result<Player, DecodeError>)
    ensures
        read_as(
            old(reader)@,
            final(reader)@,
            spec_player(old(reader)@.bytes, old(reader)@.cursor, index_context("roomState.players"@, index as nat)),
            r,
        ),
{
    let base = indexed("roomState.players", index);
    parse_player_record(reader, base.as_str())
}

/// A game in progress: its discs, then counters, phase and scores.
pub open spec fn spec_game_state(b: Seq<u8>, p: int) -> SpecRead<GameStateView> {
    match spec_game_discs(b, p) {
        Err(e) => Err(e),
        Ok((discs, at1)) => match spec_game_scalars(b, at1) {
            Err(e) => Err(e),
            Ok((s, at2)) => Ok((
                GameStateView {
                    discs,
                    goal_tick_counter: s.0,
                    state: game_play_state_of_code(s.1),
                    red_score: s.2,
                    blue_score: s.3,
                    time_elapsed: s.4,
                    pause_game_tick_counter: s.5,
                    goal_conceding_team: s.6,
                },
                at2,
            )),
        },
    }
}

fn parse_game_state(reader: &mut ReplayReader) -> (r: Result<GameState, DecodeError>)
    ensures
        read_as(old(reader)@, final(reader)@, spec_game_state(old(reader)@.bytes, old(reader)@.cursor), r),
{
    let discs = parse_game_discs(reader)?;
    let s = parse_game_scalars(reader)?;
    Ok(GameState {
        discs,
        goal_tick_counter: s.0,
        state: GamePlayState::from_i32(s.1),
        red_score: s.2,
        blue_score: s.3,
        time_elapsed: s.4,
        pause_game_tick_counter: s.5,
        goal_conceding_team: s.6,
    })
}

/// The game in progress, after the flag that says whether there is one.
pub open spec fn spec_optional_game(b: Seq<u8>, p: int) -> SpecRead<Option<GameStateView>> {
    match spec_bool(b, p, "roomState.gameActive"@) {
        Err(e) => Err(e),
        Ok((active, at)) => if active {
            match spec_game_state(b, at) {
                Err(e) => Err(e),
                Ok((g, at2)) => Ok((Some(g), at2)),
            }
        } else {
            Ok((None, at))
        },
    }
}

/// The room state: name, settings, stadium, optional game, players, both teams' colors.
pub open spec fn spec_room_state(b: Seq<u8>, p: int) -> SpecRead<RoomStateView> {
    match spec_nullable_string(b, p, "roomState.name"@) {
        Err(e) => Err(e),
        Ok((name, at1)) => match spec_room_settings(b, at1) {
            Err(e) => Err(e),
            Ok((s, at2)) => match spec_stadium(b, at2) {
                Err(e) => Err(e),
                Ok((stadium, at3)) => match spec_optional_game(b, at3) {
                    Err(e) => Err(e),
                    Ok((game_state, at4)) => match spec_players(b, at4) {
                        Err(e) => Err(e),
                        Ok((players, at5)) => match spec_team_colors(b, at5, "roomState.redTeamColors"@) {
                            Err(e) => Err(e),
                            Ok((red, at6)) => match spec_team_colors(b, at6, "roomState.blueTeamColors"@) {
                                Err(e) => Err(e),
                                Ok((blue, at7)) => Ok((
                                    RoomStateView {
                                        name,
                                        teams_locked: s.0,
                                        score_limit: s.1,
                                        time_limit: s.2,
                                        kick_rate_max: s.3,
                                        kick_rate_rate: s.4,
                                        kick_rate_min: s.5,
                                        stadium,
                                        game_state,
                                        players,
                                        red_team_colors: red,
                                        blue_team_colors: blue,
                                    },
                                    at7,
                                )),
                            },
                        },
                    },
                },
            },
        },
    }
}

pub fn parse_room_state(reader: &mut ReplayReader) -> (r: Result<RoomState, DecodeError>)
    ensures
        read_as(old(reader)@, final(reader)@, spec_room_state(old(reader)@.bytes, old(reader)@.cursor), r),
{
    let name = reader.read_nullable_string("roomState.name")?;
    let s = parse_room_settings(reader)?;
    let stadium = parse_stadium(reader)?;
    let game_active = reader.read_bool("roomState.gameActive")?;
    let game_state = if game_active {
        Some(parse_game_state(reader)?)
    } else {
        None
    };
    let players = parse_players(reader)?;
    let red_team_colors = parse_team_colors(reader, "roomState.redTeamColors")?;
    let blue_team_colors = parse_team_colors(reader, "roomState.blueTeamColors")?;
    Ok(RoomState {
        name,
        teams_locked: s.0,
        score_limit: s.1,
        time_limit: s.2,
        kick_rate_max: s.3,
        kick_rate_rate: s.4,
        kick_rate_min: s.5,
        stadium,
        game_state,
        players,
        red_team_colors,
        blue_team_colors,
    })
}

/// A player of the room, its fields named after `context`.
pub open spec fn spec_player(b: Seq<u8>, p: int, context: Seq<char>) -> SpecRead<PlayerView> {
    match spec_bool(b, p, context + ".isAdmin"@) {
        Err(e) => Err(e),
        Ok((is_admin, at1)) =>
        match spec_i32(b, at1, context + ".avatarNumber"@) {
            Err(e) => Err(e),
            Ok((avatar_number, at2)) =>
            match spec_nullable_string(b, at2, context + ".avatar"@) {
                Err(e) => Err(e),
                Ok((avatar, at3)) =>
                match spec_nullable_string(b, at3, context + ".headlessAvatar"@) {
                    Err(e) => Err(e),
                    Ok((headless_avatar, at4)) =>
                    match spec_bool(b, at4, context + ".sync"@) {
                        Err(e) => Err(e),
                        Ok((sync, at5)) =>
                        match spec_nullable_string(b, at5, context + ".flag"@) {
                            Err(e) => Err(e),
                            Ok((flag, at6)) =>
                            match spec_i32(b, at6, context + ".metadata"@) {
                                Err(e) => Err(e),
                                Ok((metadata, at7)) =>
                                match spec_nullable_string(b, at7, context + ".name"@) {
                                    Err(e) => Err(e),
                                    Ok((name, at8)) =>
                                    match spec_i32(b, at8, context + ".input"@) {
                                        Err(e) => Err(e),
                                        Ok((input, at9)) =>
                                        match spec_var_u32(b, at9, context + ".id"@) {
                                            Err(e) => Err(e),
                                            Ok((id, at10)) =>
                                            match spec_bool(b, at10, context + ".isKicking"@) {
                                                Err(e) => Err(e),
                                                Ok((is_kicking, at11)) =>
                                                match spec_i16(b, at11, context + ".kickRateMaxTickCounter"@) {
                                                    Err(e) => Err(e),
                                                    Ok((kick_rate_max_tick_counter, at12)) =>
                                                    match spec_u8(b, at12, context + ".kickRateMinTickCounter"@) {
                                                        Err(e) => Err(e),
                                                        Ok((kick_rate_min_tick_counter, at13)) =>
                                                        match spec_u8(b, at13, context + ".teamId"@) {
                                                            Err(e) => Err(e),
                                                            Ok((team_id, at14)) =>
                                                            match spec_i16(b, at14, context + ".discIndex"@) {
                                                                Err(e) => Err(e),
                                                                Ok((disc_index, at15)) =>
                                                                Ok((PlayerView { is_admin, avatar_number, avatar, headless_avatar, sync, flag, metadata, name, input, id, is_kicking, kick_rate_max_tick_counter, kick_rate_min_tick_counter, team_id, disc_index }, at15)),
                                                            },
                                                        },
                                                    },
                                                },
                                            },
                                        },
                                    },
                                },
                            },
                        },
                    },
                },
            },
        },
    }
}

pub fn parse_player_record(reader: &mut ReplayReader, context: &str) -> (r: Result<Player, DecodeError>)
    ensures
        read_as(old(reader)@, final(reader)@, spec_player(old(reader)@.bytes, old(reader)@.cursor, context@), r),
{
    let is_admin = reader.read_bool(join(context, ".isAdmin").as_str())?;
    let avatar_number = reader.read_i32(join(context, ".avatarNumber").as_str())?;
    let avatar = reader.read_nullable_string(join(context, ".avatar").as_str())?;
    let headless_avatar = reader.read_nullable_string(join(context, ".headlessAvatar").as_str())?;
    let sync = reader.read_bool(join(context, ".sync").as_str())?;
    let flag = reader.read_nullable_string(join(context, ".flag").as_str())?;
    let metadata = reader.read_i32(join(context, ".metadata").as_str())?;
    let name = reader.read_nullable_string(join(context, ".name").as_str())?;
    let input = reader.read_i32(join(context, ".input").as_str())?;
    let id = reader.read_var_u32(join(context, ".id").as_str())?;
    let is_kicking = reader.read_bool(join(context, ".isKicking").as_str())?;
    let kick_rate_max_tick_counter = reader.read_i16(join(context, ".kickRateMaxTickCounter").as_str())?;
    let kick_rate_min_tick_counter = reader.read_u8(join(context, ".kickRateMinTickCounter").as_str())?;
    let team_id = reader.read_u8(join(context, ".teamId").as_str())?;
    let disc_index = reader.read_i16(join(context, ".discIndex").as_str())?;
    Ok(Player { is_admin, avatar_number, avatar, headless_avatar, sync, flag, metadata, name, input, id, is_kicking, kick_rate_max_tick_counter, kick_rate_min_tick_counter, team_id, disc_index })
}

/// Reading item `i` of the discs of a game in progress at `at`.
pub open spec fn game_disc_item(b: Seq<u8>) -> spec_fn(int, nat) -> SpecRead<Disc> {
    |at: int, i: nat| spec_disc(b, at, index_context("gameState.discs"@, i))
}

/// The discs of a game in progress: a count, then that many items.
pub open spec fn spec_game_discs(b: Seq<u8>, p: int) -> SpecRead<Seq<Disc>> {
    match spec_u8(b, p, "gameState.discs.length"@) {
        Err(e) => Err(e),
        Ok((n, at)) => spec_repeat(n as nat, game_disc_item(b), at),
    }
}

#[verifier::loop_isolation(false)]
fn parse_game_discs(reader: &mut ReplayReader) -> (r: Result<Vec<Disc>, DecodeError>)
    ensures
        read_as(old(reader)@, final(reader)@, spec_game_discs(old(reader)@.bytes, old(reader)@.cursor), r),
{
    let count = reader.read_u8("gameState.discs.length")? as usize;
    let ghost b = reader@.bytes;
    let ghost start = reader@.cursor;
    let ghost item = game_disc_item(b);
    let mut items: Vec<Disc> = Vec::new();
    let mut index: usize = 0;
    while index < count
        invariant
            index <= count,
            reader@.bytes == b,
            reader@.cursor <= reader@.bytes.len(),
            start <= reader@.cursor,
            spec_repeat(index as nat, item, start) == Ok::<(Seq<Disc>, int), (DecodeErrorView, int)>((items@, reader@.cursor)),
        decreases count - index,
    {
        let ctx = indexed("gameState.discs", index);
        match parse_disc(reader, ctx.as_str()) {
            Ok(v) => {
                let ghost before = items@;
                items.push(v);
                
            },
            Err(e) => {
                proof { lemma_repeat_error_persists(item, start, (index + 1) as nat, count as nat); }
                return Err(e);
            },
        }
        index = index + 1;
    }
    Ok(items)
}

/// The counters, scores and phase of a game in progress.
pub open spec fn spec_game_scalars(b: Seq<u8>, p: int) -> SpecRead<(i32, i32, i32, i32, u64, i32, u8)> {
    match spec_i32(b, p, "gameState.goalTickCounter"@) {
        Err(e) => Err(e),
        Ok((goal_tick_counter, at1)) =>
        match spec_i32(b, at1, "gameState.state"@) {
            Err(e) => Err(e),
            Ok((state, at2)) =>
            match spec_i32(b, at2, "gameState.redScore"@) {
                Err(e) => Err(e),
                Ok((red_score, at3)) =>
                match spec_i32(b, at3, "gameState.blueScore"@) {
                    Err(e) => Err(e),
                    Ok((blue_score, at4)) =>
                    match spec_u64(b, at4, "gameState.timeElapsed"@) {
                        Err(e) => Err(e),
                        Ok((time_elapsed, at5)) =>
                        match spec_i32(b, at5, "gameState.pauseGameTickCounter"@) {
                            Err(e) => Err(e),
                            Ok((pause_game_tick_counter, at6)) =>
                            match spec_u8(b, at6, "gameState.goalConcedingTeam"@) {
                                Err(e) => Err(e),
                                Ok((goal_conceding_team, at7)) =>
                                Ok(((goal_tick_counter, state, red_score, blue_score, time_elapsed, pause_game_tick_counter, goal_conceding_team), at7)),
                            },
                        },
                    },
                },
            },
        },
    }
}

fn parse_game_scalars(reader: &mut ReplayReader) -> (r: Result<(i32, i32, i32, i32, u64, i32, u8), DecodeError>)
    ensures
        read_as(old(reader)@, final(reader)@, spec_game_scalars(old(reader)@.bytes, old(reader)@.cursor), r),
{
    let goal_tick_counter = reader.read_i32("gameState.goalTickCounter")?;
    let state = reader.read_i32("gameState.state")?;
    let red_score = reader.read_i32("gameState.redScore")?;
    let blue_score = reader.read_i32("gameState.blueScore")?;
    let time_elapsed = reader.read_f64_bits("gameState.timeElapsed")?;
    let pause_game_tick_counter = reader.read_i32("gameState.pauseGameTickCounter")?;
    let goal_conceding_team = reader.read_u8("gameState.goalConcedingTeam")?;
    Ok((goal_tick_counter, state, red_score, blue_score, time_elapsed, pause_game_tick_counter, goal_conceding_team))
}

/// The room settings that follow its name.
pub open spec fn spec_room_settings(b: Seq<u8>, p: int) -> SpecRead<(bool, i32, i32, i16, u8, u8)> {
    match spec_bool(b, p, "roomState.teamsLocked"@) {
        Err(e) => Err(e),
        Ok((teams_locked, at1)) =>
        match spec_i32(b, at1, "roomState.scoreLimit"@) {
            Err(e) => Err(e),
            Ok((score_limit, at2)) =>
            match spec_i32(b, at2, "roomState.timeLimit"@) {
                Err(e) => Err(e),
                Ok((time_limit, at3)) =>
                match spec_i16(b, at3, "roomState.kickRateMax"@) {
                    Err(e) => Err(e),
                    Ok((kick_rate_max, at4)) =>
                    match spec_u8(b, at4, "roomState.kickRateRate"@) {
                        Err(e) => Err(e),
                        Ok((kick_rate_rate, at5)) =>
                        match spec_u8(b, at5, "roomState.kickRateMin"@) {
                            Err(e) => Err(e),
                            Ok((kick_rate_min, at6)) =>
                            Ok(((teams_locked, score_limit, time_limit, kick_rate_max, kick_rate_rate, kick_rate_min), at6)),
                        },
                    },
                },
            },
        },
    }
}

fn parse_room_settings(reader: &mut ReplayReader) -> (r: Result<(bool, i32, i32, i16, u8, u8), DecodeError>)
    ensures
        read_as(old(reader)@, final(reader)@, spec_room_settings(old(reader)@.bytes, old(reader)@.cursor), r),
{
    let teams_locked = reader.read_bool("roomState.teamsLocked")?;
    let score_limit = reader.read_i32("roomState.scoreLimit")?;
    let time_limit = reader.read_i32("roomState.timeLimit")?;
    let kick_rate_max = reader.read_i16("roomState.kickRateMax")?;
    let kick_rate_rate = reader.read_u8("roomState.kickRateRate")?;
    let kick_rate_min = reader.read_u8("roomState.kickRateMin")?;
    Ok((teams_locked, score_limit, time_limit, kick_rate_max, kick_rate_rate, kick_rate_min))
}

/// Reading item `i` of the players of the room at `at`.
pub open spec fn player_item(b: Seq<u8>) -> spec_fn(int, nat) -> SpecRead<PlayerView> {
    |at: int, i: nat| spec_player(b, at, index_context("roomState.players"@, i))
}

/// The players of the room: a count, then that many items.
pub open spec fn spec_players(b: Seq<u8>, p: int) -> SpecRead<Seq<PlayerView>> {
    match spec_u8(b, p, "roomState.players.length"@) {
        Err(e) => Err(e),
        Ok((n, at)) => spec_repeat(n as nat, player_item(b), at),
    }
}

#[verifier::loop_isolation(false)]
fn parse_players(reader: &mut ReplayReader) -> (r: Result<Vec<Player>, DecodeError>)
    ensures
        read_as_list(old(reader)@, final(reader)@, spec_players(old(reader)@.bytes, old(reader)@.cursor), r),
{
    let count = reader.read_u8("roomState.players.length")? as usize;
    let ghost b = reader@.bytes;
    let ghost start = reader@.cursor;
    let ghost item = player_item(b);
    let mut items: Vec<Player> = Vec::new();
    let mut index: usize = 0;
    assert(items@.map_values(|x: Player| x@) =~= Seq::<PlayerView>::empty());
    while index < count
        invariant
            index <= count,
            reader@.bytes == b,
            reader@.cursor <= reader@.bytes.len(),
            start <= reader@.cursor,
            spec_repeat(index as nat, item, start) == Ok::<(Seq<PlayerView>, int), (DecodeErrorView, int)>((items@.map_values(|x: Player| x@), reader@.cursor)),
        decreases count - index,
    {
        match parse_player(reader, index) {
            Ok(v) => {
                let ghost before = items@;
                items.push(v);
                assert(items@.map_values(|x: Player| x@) =~= before.map_values(|x: Player| x@).push(v@));
            },
            Err(e) => {
                proof { lemma_repeat_error_persists(item, start, (index + 1) as nat, count as nat); }
                return Err(e);
            },
        }
        index = index + 1;
    }
    Ok(items)
}


} // verus!
