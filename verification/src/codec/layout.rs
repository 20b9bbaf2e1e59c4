//! Where the fields of each fixed record of the format come from in the bytes: the offset of
//! each fixed-width field, and, after a text or list, the field that follows it.
use vstd::prelude::*;

use crate::codec::events::{
    spec_custom_event, spec_join_room, spec_kick_ban_player, spec_pause_resume_game, spec_send_announcement,
    spec_send_chat, spec_send_chat_indicator, spec_send_input, spec_set_avatar, spec_set_game_play_limit,
    spec_set_headless_avatar, spec_set_kick_rate_limit, spec_set_player_admin, spec_set_player_identity,
    spec_set_player_sync, spec_set_player_team, spec_set_team_colors, spec_set_teams_lock, spec_set_disc_properties,
    disc_data1_item, disc_data2_item, flag_bit,
};
use crate::codec::primitives::{
    spec_disc, spec_goal, spec_joint, spec_plane, spec_player_physics, spec_point, spec_segment, spec_team_colors, spec_vertex,
};
use crate::codec::reader::{
    be16, be32, be64, lemma_repeat_items, read_somewhere, spec_json_text, spec_nullable_string, spec_repeat, spec_string, spec_var_u32,
};
use crate::error::DecodeErrorView;
use crate::codec::room::{
    spec_game_discs, spec_game_scalars, spec_game_state, spec_optional_game, spec_player, spec_players, spec_room_settings,
    spec_room_state,
};
use crate::codec::stadium::{
    default_stadium_name_spec, spec_custom_header, spec_blue_spawn_points, spec_disc_list, spec_goal_list, spec_joint_list, spec_plane_list,
    spec_red_spawn_points, spec_segment_list, spec_stadium, spec_stadium_background, spec_stadium_dimensions,
    spec_stadium_settings, spec_vertex_list,
};
use crate::types::enums::{background_of_code, camera_of_code, game_play_state_of_code};

verus! {

/// Where each field of [`spec_point`] comes from in the bytes at `p`: `x` the 64-bit float bits at offset 0; `y` the 64-bit float bits at offset 8.
pub proof fn lemma_point_layout(b: Seq<u8>, p: int, context: Seq<char>)
    requires
        spec_point(b, p, context) is Ok,
    ensures
        ({
            let (v, end) = spec_point(b, p, context)->Ok_0;
            &&& v.x == (be64(b, p) as u64)
            &&& v.y == (be64(b, p + 8) as u64)
            &&& end == p + 16
        }),
{
}

/// Where each field of [`spec_vertex`] comes from in the bytes at `p`: `pos` the point (two 64-bit float bits) at offset 0; `b_coef` the 64-bit float bits at offset 16; `c_mask` the signed 32-bit at offset 24; `c_group` the signed 32-bit at offset 28.
pub proof fn lemma_vertex_layout(b: Seq<u8>, p: int, context: Seq<char>)
    requires
        spec_vertex(b, p, context) is Ok,
    ensures
        ({
            let (v, end) = spec_vertex(b, p, context)->Ok_0;
            &&& v.pos.x == (be64(b, p) as u64)
            &&& v.pos.y == (be64(b, p + 8) as u64)
            &&& v.b_coef == (be64(b, p + 16) as u64)
            &&& v.c_mask == (be32(b, p + 24) as u32 as i32)
            &&& v.c_group == (be32(b, p + 28) as u32 as i32)
            &&& end == p + 32
        }),
{
}

/// Where each field of [`spec_plane`] comes from in the bytes at `p`: `normal` the point (two 64-bit float bits) at offset 0; `dist` the 64-bit float bits at offset 16; `b_coef` the 64-bit float bits at offset 24; `c_mask` the signed 32-bit at offset 32; `c_group` the signed 32-bit at offset 36.
pub proof fn lemma_plane_layout(b: Seq<u8>, p: int, context: Seq<char>)
    requires
        spec_plane(b, p, context) is Ok,
    ensures
        ({
            let (v, end) = spec_plane(b, p, context)->Ok_0;
            &&& v.normal.x == (be64(b, p) as u64)
            &&& v.normal.y == (be64(b, p + 8) as u64)
            &&& v.dist == (be64(b, p + 16) as u64)
            &&& v.b_coef == (be64(b, p + 24) as u64)
            &&& v.c_mask == (be32(b, p + 32) as u32 as i32)
            &&& v.c_group == (be32(b, p + 36) as u32 as i32)
            &&& end == p + 40
        }),
{
}

/// Where each field of [`spec_goal`] comes from in the bytes at `p`: `p0` the point (two 64-bit float bits) at offset 0; `p1` the point (two 64-bit float bits) at offset 16; `team_id` the signed byte at offset 32.
pub proof fn lemma_goal_layout(b: Seq<u8>, p: int, context: Seq<char>)
    requires
        spec_goal(b, p, context) is Ok,
    ensures
        ({
            let (v, end) = spec_goal(b, p, context)->Ok_0;
            &&& v.p0.x == (be64(b, p) as u64)
            &&& v.p0.y == (be64(b, p + 8) as u64)
            &&& v.p1.x == (be64(b, p + 16) as u64)
            &&& v.p1.y == (be64(b, p + 24) as u64)
            &&& v.team_id == (b[p + 32] as i8)
            &&& end == p + 33
        }),
{
}

/// Where each field of [`spec_disc`] comes from in the bytes at `p`: `pos` the point (two 64-bit float bits) at offset 0; `speed` the point (two 64-bit float bits) at offset 16; `gravity` the point (two 64-bit float bits) at offset 32; `radius` the 64-bit float bits at offset 48; `b_coef` the 64-bit float bits at offset 56; `inv_mass` the 64-bit float bits at offset 64; `damping` the 64-bit float bits at offset 72; `color` the 32-bit at offset 80; `c_mask` the signed 32-bit at offset 84; `c_group` the signed 32-bit at offset 88.
pub proof fn lemma_disc_layout(b: Seq<u8>, p: int, context: Seq<char>)
    requires
        spec_disc(b, p, context) is Ok,
    ensures
        ({
            let (v, end) = spec_disc(b, p, context)->Ok_0;
            &&& v.pos.x == (be64(b, p) as u64)
            &&& v.pos.y == (be64(b, p + 8) as u64)
            &&& v.speed.x == (be64(b, p + 16) as u64)
            &&& v.speed.y == (be64(b, p + 24) as u64)
            &&& v.gravity.x == (be64(b, p + 32) as u64)
            &&& v.gravity.y == (be64(b, p + 40) as u64)
            &&& v.radius == (be64(b, p + 48) as u64)
            &&& v.b_coef == (be64(b, p + 56) as u64)
            &&& v.inv_mass == (be64(b, p + 64) as u64)
            &&& v.damping == (be64(b, p + 72) as u64)
            &&& v.color == (be32(b, p + 80) as u32)
            &&& v.c_mask == (be32(b, p + 84) as u32 as i32)
            &&& v.c_group == (be32(b, p + 88) as u32 as i32)
            &&& end == p + 92
        }),
{
}

/// Where each field of [`spec_joint`] comes from in the bytes at `p`: `d0` the byte at offset 0; `d1` the byte at offset 1; `min_length` the 64-bit float bits at offset 2; `max_length` the 64-bit float bits at offset 10; `strength` the 64-bit float bits at offset 18; `color` the signed 32-bit at offset 26.
pub proof fn lemma_joint_layout(b: Seq<u8>, p: int, context: Seq<char>)
    requires
        spec_joint(b, p, context) is Ok,
    ensures
        ({
            let (v, end) = spec_joint(b, p, context)->Ok_0;
            &&& v.d0 == b[p]
            &&& v.d1 == b[p + 1]
            &&& v.min_length == (be64(b, p + 2) as u64)
            &&& v.max_length == (be64(b, p + 10) as u64)
            &&& v.strength == (be64(b, p + 18) as u64)
            &&& v.color == (be32(b, p + 26) as u32 as i32)
            &&& end == p + 30
        }),
{
}

/// Where each field of [`spec_player_physics`] comes from in the bytes at `p`: `b_coef` the 64-bit float bits at offset 0; `inv_mass` the 64-bit float bits at offset 8; `damping` the 64-bit float bits at offset 16; `acceleration` the 64-bit float bits at offset 24; `kicking_acceleration` the 64-bit float bits at offset 32; `kicking_damping` the 64-bit float bits at offset 40; `kick_strength` the 64-bit float bits at offset 48; `gravity` the point (two 64-bit float bits) at offset 56; `c_group` the signed 32-bit at offset 72; `radius` the 64-bit float bits at offset 76; `kickback` the 64-bit float bits at offset 84.
pub proof fn lemma_player_physics_layout(b: Seq<u8>, p: int, context: Seq<char>)
    requires
        spec_player_physics(b, p, context) is Ok,
    ensures
        ({
            let (v, end) = spec_player_physics(b, p, context)->Ok_0;
            &&& v.b_coef == (be64(b, p) as u64)
            &&& v.inv_mass == (be64(b, p + 8) as u64)
            &&& v.damping == (be64(b, p + 16) as u64)
            &&& v.acceleration == (be64(b, p + 24) as u64)
            &&& v.kicking_acceleration == (be64(b, p + 32) as u64)
            &&& v.kicking_damping == (be64(b, p + 40) as u64)
            &&& v.kick_strength == (be64(b, p + 48) as u64)
            &&& v.gravity.x == (be64(b, p + 56) as u64)
            &&& v.gravity.y == (be64(b, p + 64) as u64)
            &&& v.c_group == (be32(b, p + 72) as u32 as i32)
            &&& v.radius == (be64(b, p + 76) as u64)
            &&& v.kickback == (be64(b, p + 84) as u64)
            &&& end == p + 92
        }),
{
}

/// Where each field of [`spec_player`] comes from in the bytes at `p`: `is_admin` the byte (non-zero is true) at offset 0; `avatar_number` the signed 32-bit at offset 1; `avatar` the nullable text at offset 5; `headless_avatar` the nullable text right after the previous one; `sync` the byte (non-zero is true) at 0 bytes after the previous text; `flag` the nullable text 1 bytes after the previous one; `metadata` the signed 32-bit at 0 bytes after the previous text; `name` the nullable text 4 bytes after the previous one; `input` the signed 32-bit at 0 bytes after the previous text; `id` the variable-length integer 4 bytes after the previous one; `is_kicking` the byte (non-zero is true) at 0 bytes after the previous text; `kick_rate_max_tick_counter` the signed 16-bit at 1 bytes after the previous text; `kick_rate_min_tick_counter` the byte at 3 bytes after the previous text; `team_id` the byte at 4 bytes after the previous text; `disc_index` the signed 16-bit at 5 bytes after the previous text.
pub proof fn lemma_player_layout(b: Seq<u8>, p: int, context: Seq<char>)
    requires
        spec_player(b, p, context) is Ok,
    ensures
        ({
            let (v, end) = spec_player(b, p, context)->Ok_0;
            let (f1, a1) = spec_nullable_string(b, p + 5, context + ".avatar"@)->Ok_0;
            let (f2, a2) = spec_nullable_string(b, a1, context + ".headlessAvatar"@)->Ok_0;
            let (f3, a3) = spec_nullable_string(b, a2 + 1, context + ".flag"@)->Ok_0;
            let (f4, a4) = spec_nullable_string(b, a3 + 4, context + ".name"@)->Ok_0;
            let (f5, a5) = spec_var_u32(b, a4 + 4, context + ".id"@)->Ok_0;
            &&& v.is_admin == (b[p] != 0)
            &&& v.avatar_number == (be32(b, p + 1) as u32 as i32)
            &&& v.avatar == f1
            &&& v.headless_avatar == f2
            &&& v.sync == (b[a2] != 0)
            &&& v.flag == f3
            &&& v.metadata == (be32(b, a3) as u32 as i32)
            &&& v.name == f4
            &&& v.input == (be32(b, a4) as u32 as i32)
            &&& v.id == f5
            &&& v.is_kicking == (b[a5] != 0)
            &&& v.kick_rate_max_tick_counter == (be16(b, a5 + 1) as u16 as i16)
            &&& v.kick_rate_min_tick_counter == b[a5 + 3]
            &&& v.team_id == b[a5 + 4]
            &&& v.disc_index == (be16(b, a5 + 5) as u16 as i16)
            &&& end == a5 + 7
        }),
{
}

/// Where each field of [`spec_game_scalars`] comes from in the bytes at `p`: `goal_tick_counter` the signed 32-bit at offset 0; `state` the signed 32-bit at offset 4; `red_score` the signed 32-bit at offset 8; `blue_score` the signed 32-bit at offset 12; `time_elapsed` the 64-bit float bits at offset 16; `pause_game_tick_counter` the signed 32-bit at offset 24; `goal_conceding_team` the byte at offset 28.
pub proof fn lemma_game_scalars_layout(b: Seq<u8>, p: int)
    requires
        spec_game_scalars(b, p) is Ok,
    ensures
        ({
            let (v, end) = spec_game_scalars(b, p)->Ok_0;
            &&& v.0 == (be32(b, p) as u32 as i32)
            &&& v.1 == (be32(b, p + 4) as u32 as i32)
            &&& v.2 == (be32(b, p + 8) as u32 as i32)
            &&& v.3 == (be32(b, p + 12) as u32 as i32)
            &&& v.4 == (be64(b, p + 16) as u64)
            &&& v.5 == (be32(b, p + 24) as u32 as i32)
            &&& v.6 == b[p + 28]
            &&& end == p + 29
        }),
{
}

/// Where each field of [`spec_room_settings`] comes from in the bytes at `p`: `teams_locked` the byte (non-zero is true) at offset 0; `score_limit` the signed 32-bit at offset 1; `time_limit` the signed 32-bit at offset 5; `kick_rate_max` the signed 16-bit at offset 9; `kick_rate_rate` the byte at offset 11; `kick_rate_min` the byte at offset 12.
pub proof fn lemma_room_settings_layout(b: Seq<u8>, p: int)
    requires
        spec_room_settings(b, p) is Ok,
    ensures
        ({
            let (v, end) = spec_room_settings(b, p)->Ok_0;
            &&& v.0 == (b[p] != 0)
            &&& v.1 == (be32(b, p + 1) as u32 as i32)
            &&& v.2 == (be32(b, p + 5) as u32 as i32)
            &&& v.3 == (be16(b, p + 9) as u16 as i16)
            &&& v.4 == b[p + 11]
            &&& v.5 == b[p + 12]
            &&& end == p + 13
        }),
{
}

/// Where each field of [`spec_stadium_background`] comes from in the bytes at `p`: `bg_type` the signed 32-bit at offset 0; `bg_width` the 64-bit float bits at offset 4; `bg_height` the 64-bit float bits at offset 12; `bg_kickoff_radius` the 64-bit float bits at offset 20; `bg_corner_radius` the 64-bit float bits at offset 28; `bg_goal_line` the 64-bit float bits at offset 36; `bg_color` the signed 32-bit at offset 44.
pub proof fn lemma_stadium_background_layout(b: Seq<u8>, p: int)
    requires
        spec_stadium_background(b, p) is Ok,
    ensures
        ({
            let (v, end) = spec_stadium_background(b, p)->Ok_0;
            &&& v.0 == (be32(b, p) as u32 as i32)
            &&& v.1 == (be64(b, p + 4) as u64)
            &&& v.2 == (be64(b, p + 12) as u64)
            &&& v.3 == (be64(b, p + 20) as u64)
            &&& v.4 == (be64(b, p + 28) as u64)
            &&& v.5 == (be64(b, p + 36) as u64)
            &&& v.6 == (be32(b, p + 44) as u32 as i32)
            &&& end == p + 48
        }),
{
}

/// Where each field of [`spec_stadium_dimensions`] comes from in the bytes at `p`: `width` the 64-bit float bits at offset 0; `height` the 64-bit float bits at offset 8; `spawn_distance` the 64-bit float bits at offset 16.
pub proof fn lemma_stadium_dimensions_layout(b: Seq<u8>, p: int)
    requires
        spec_stadium_dimensions(b, p) is Ok,
    ensures
        ({
            let (v, end) = spec_stadium_dimensions(b, p)->Ok_0;
            &&& v.0 == (be64(b, p) as u64)
            &&& v.1 == (be64(b, p + 8) as u64)
            &&& v.2 == (be64(b, p + 16) as u64)
            &&& end == p + 24
        }),
{
}

/// Where each field of [`spec_stadium_settings`] comes from in the bytes at `p`: `max_view_width` the 16-bit at offset 0; `camera_follow` the byte at offset 2; `can_be_stored` the byte (non-zero is true) at offset 3; `full_kickoff_reset` the byte (non-zero is true) at offset 4.
pub proof fn lemma_stadium_settings_layout(b: Seq<u8>, p: int)
    requires
        spec_stadium_settings(b, p) is Ok,
    ensures
        ({
            let (v, end) = spec_stadium_settings(b, p)->Ok_0;
            &&& v.0 == (be16(b, p) as u16)
            &&& v.1 == b[p + 2]
            &&& v.2 == (b[p + 3] != 0)
            &&& v.3 == (b[p + 4] != 0)
            &&& end == p + 5
        }),
{
}

/// Where each field of [`spec_send_announcement`] comes from in the bytes at `p`: `msg` the text at offset 0; `color` the signed 32-bit at 0 bytes after the previous text; `style` the byte at 4 bytes after the previous text; `sound` the byte at 5 bytes after the previous text.
pub proof fn lemma_send_announcement_layout(b: Seq<u8>, p: int)
    requires
        spec_send_announcement(b, p) is Ok,
    ensures
        ({
            let (v, end) = spec_send_announcement(b, p)->Ok_0;
            let (f1, a1) = spec_string(b, p, "events.sendAnnouncement.msg"@)->Ok_0;
            &&& v.msg == f1
            &&& v.color == (be32(b, a1) as u32 as i32)
            &&& v.style == b[a1 + 4]
            &&& v.sound == b[a1 + 5]
            &&& end == a1 + 6
        }),
{
}

/// Where each field of [`spec_send_chat_indicator`] comes from in the bytes at `p`: `value` the byte at offset 0.
pub proof fn lemma_send_chat_indicator_layout(b: Seq<u8>, p: int)
    requires
        spec_send_chat_indicator(b, p) is Ok,
    ensures
        ({
            let (v, end) = spec_send_chat_indicator(b, p)->Ok_0;
            &&& v.value == b[p]
            &&& end == p + 1
        }),
{
}

/// Where each field of [`spec_send_input`] comes from in the bytes at `p`: `input` the 32-bit at offset 0.
pub proof fn lemma_send_input_layout(b: Seq<u8>, p: int)
    requires
        spec_send_input(b, p) is Ok,
    ensures
        ({
            let (v, end) = spec_send_input(b, p)->Ok_0;
            &&& v.input == (be32(b, p) as u32)
            &&& end == p + 4
        }),
{
}

/// Where each field of [`spec_send_chat`] comes from in the bytes at `p`: `text` the text at offset 0.
pub proof fn lemma_send_chat_layout(b: Seq<u8>, p: int)
    requires
        spec_send_chat(b, p) is Ok,
    ensures
        ({
            let (v, end) = spec_send_chat(b, p)->Ok_0;
            let (f1, a1) = spec_string(b, p, "events.sendChat.text"@)->Ok_0;
            &&& v.text == f1
            &&& end == a1
        }),
{
}

/// Where each field of [`spec_join_room`] comes from in the bytes at `p`: `player_id` the signed 32-bit at offset 0; `name` the nullable text at offset 4; `flag` the nullable text right after the previous one; `avatar` the nullable text right after the previous one.
pub proof fn lemma_join_room_layout(b: Seq<u8>, p: int)
    requires
        spec_join_room(b, p) is Ok,
    ensures
        ({
            let (v, end) = spec_join_room(b, p)->Ok_0;
            let (f1, a1) = spec_nullable_string(b, p + 4, "events.joinRoom.name"@)->Ok_0;
            let (f2, a2) = spec_nullable_string(b, a1, "events.joinRoom.flag"@)->Ok_0;
            let (f3, a3) = spec_nullable_string(b, a2, "events.joinRoom.avatar"@)->Ok_0;
            &&& v.player_id == (be32(b, p) as u32 as i32)
            &&& v.name == f1
            &&& v.flag == f2
            &&& v.avatar == f3
            &&& end == a3
        }),
{
}

/// Where each field of [`spec_kick_ban_player`] comes from in the bytes at `p`: `player_id` the signed 32-bit at offset 0; `reason` the nullable text at offset 4; `ban` the byte (non-zero is true) at 0 bytes after the previous text.
pub proof fn lemma_kick_ban_player_layout(b: Seq<u8>, p: int)
    requires
        spec_kick_ban_player(b, p) is Ok,
    ensures
        ({
            let (v, end) = spec_kick_ban_player(b, p)->Ok_0;
            let (f1, a1) = spec_nullable_string(b, p + 4, "events.kickBanPlayer.reason"@)->Ok_0;
            &&& v.player_id == (be32(b, p) as u32 as i32)
            &&& v.reason == f1
            &&& v.ban == (b[a1] != 0)
            &&& end == a1 + 1
        }),
{
}

/// Where each field of [`spec_pause_resume_game`] comes from in the bytes at `p`: `paused` the byte (non-zero is true) at offset 0.
pub proof fn lemma_pause_resume_game_layout(b: Seq<u8>, p: int)
    requires
        spec_pause_resume_game(b, p) is Ok,
    ensures
        ({
            let (v, end) = spec_pause_resume_game(b, p)->Ok_0;
            &&& v.paused == (b[p] != 0)
            &&& end == p + 1
        }),
{
}

/// Where each field of [`spec_set_game_play_limit`] comes from in the bytes at `p`: `limit_type` the signed 32-bit at offset 0; `new_value` the signed 32-bit at offset 4.
pub proof fn lemma_set_game_play_limit_layout(b: Seq<u8>, p: int)
    requires
        spec_set_game_play_limit(b, p) is Ok,
    ensures
        ({
            let (v, end) = spec_set_game_play_limit(b, p)->Ok_0;
            &&& v.limit_type == (be32(b, p) as u32 as i32)
            &&& v.new_value == (be32(b, p + 4) as u32 as i32)
            &&& end == p + 8
        }),
{
}

/// Where each field of [`spec_set_player_team`] comes from in the bytes at `p`: `player_id` the signed 32-bit at offset 0; `team_id` the signed byte at offset 4.
pub proof fn lemma_set_player_team_layout(b: Seq<u8>, p: int)
    requires
        spec_set_player_team(b, p) is Ok,
    ensures
        ({
            let (v, end) = spec_set_player_team(b, p)->Ok_0;
            &&& v.player_id == (be32(b, p) as u32 as i32)
            &&& v.team_id == (b[p + 4] as i8)
            &&& end == p + 5
        }),
{
}

/// Where each field of [`spec_set_teams_lock`] comes from in the bytes at `p`: `new_value` the byte (non-zero is true) at offset 0.
pub proof fn lemma_set_teams_lock_layout(b: Seq<u8>, p: int)
    requires
        spec_set_teams_lock(b, p) is Ok,
    ensures
        ({
            let (v, end) = spec_set_teams_lock(b, p)->Ok_0;
            &&& v.new_value == (b[p] != 0)
            &&& end == p + 1
        }),
{
}

/// Where each field of [`spec_set_player_admin`] comes from in the bytes at `p`: `player_id` the signed 32-bit at offset 0; `value` the byte (non-zero is true) at offset 4.
pub proof fn lemma_set_player_admin_layout(b: Seq<u8>, p: int)
    requires
        spec_set_player_admin(b, p) is Ok,
    ensures
        ({
            let (v, end) = spec_set_player_admin(b, p)->Ok_0;
            &&& v.player_id == (be32(b, p) as u32 as i32)
            &&& v.value == (b[p + 4] != 0)
            &&& end == p + 5
        }),
{
}

/// Where each field of [`spec_set_player_sync`] comes from in the bytes at `p`: `value` the byte (non-zero is true) at offset 0.
pub proof fn lemma_set_player_sync_layout(b: Seq<u8>, p: int)
    requires
        spec_set_player_sync(b, p) is Ok,
    ensures
        ({
            let (v, end) = spec_set_player_sync(b, p)->Ok_0;
            &&& v.value == (b[p] != 0)
            &&& end == p + 1
        }),
{
}

/// Where each field of [`spec_set_avatar`] comes from in the bytes at `p`: `value` the nullable text at offset 0.
pub proof fn lemma_set_avatar_layout(b: Seq<u8>, p: int)
    requires
        spec_set_avatar(b, p) is Ok,
    ensures
        ({
            let (v, end) = spec_set_avatar(b, p)->Ok_0;
            let (f1, a1) = spec_nullable_string(b, p, "events.setAvatar.value"@)->Ok_0;
            &&& v.value == f1
            &&& end == a1
        }),
{
}

/// Where each field of [`spec_set_team_colors`] comes from in the bytes at `p`: `team_id` the signed byte at offset 0; `colors` the team colors at offset 1.
pub proof fn lemma_set_team_colors_layout(b: Seq<u8>, p: int)
    requires
        spec_set_team_colors(b, p) is Ok,
    ensures
        ({
            let (v, end) = spec_set_team_colors(b, p)->Ok_0;
            let (f1, a1) = spec_team_colors(b, p + 1, "events.setTeamColors.colors"@)->Ok_0;
            &&& v.team_id == (b[p] as i8)
            &&& v.colors == f1
            &&& end == a1
        }),
{
}

/// Where each field of [`spec_set_kick_rate_limit`] comes from in the bytes at `p`: `min` the signed 32-bit at offset 0; `rate` the signed 32-bit at offset 4; `burst` the signed 32-bit at offset 8.
pub proof fn lemma_set_kick_rate_limit_layout(b: Seq<u8>, p: int)
    requires
        spec_set_kick_rate_limit(b, p) is Ok,
    ensures
        ({
            let (v, end) = spec_set_kick_rate_limit(b, p)->Ok_0;
            &&& v.min == (be32(b, p) as u32 as i32)
            &&& v.rate == (be32(b, p + 4) as u32 as i32)
            &&& v.burst == (be32(b, p + 8) as u32 as i32)
            &&& end == p + 12
        }),
{
}

/// Where each field of [`spec_set_headless_avatar`] comes from in the bytes at `p`: `value` the nullable text at offset 0; `player_id` the signed 32-bit at 0 bytes after the previous text.
pub proof fn lemma_set_headless_avatar_layout(b: Seq<u8>, p: int)
    requires
        spec_set_headless_avatar(b, p) is Ok,
    ensures
        ({
            let (v, end) = spec_set_headless_avatar(b, p)->Ok_0;
            let (f1, a1) = spec_nullable_string(b, p, "events.setHeadlessAvatar.value"@)->Ok_0;
            &&& v.value == f1
            &&& v.player_id == (be32(b, a1) as u32 as i32)
            &&& end == a1 + 4
        }),
{
}

/// Where each field of [`spec_custom_event`] comes from in the bytes at `p`: `event_type` the 32-bit at offset 0; `data` the JSON text at offset 4.
pub proof fn lemma_custom_event_layout(b: Seq<u8>, p: int)
    requires
        spec_custom_event(b, p) is Ok,
    ensures
        ({
            let (v, end) = spec_custom_event(b, p)->Ok_0;
            let (f1, a1) = spec_json_text(b, p + 4, "events.customEvent.data"@)->Ok_0;
            &&& v.event_type == (be32(b, p) as u32)
            &&& v.data == f1
            &&& end == a1
        }),
{
}

/// Where each field of [`spec_set_player_identity`] comes from in the bytes at `p`: `id` the signed 32-bit at offset 0; `data` the JSON text at offset 4.
pub proof fn lemma_set_player_identity_layout(b: Seq<u8>, p: int)
    requires
        spec_set_player_identity(b, p) is Ok,
    ensures
        ({
            let (v, end) = spec_set_player_identity(b, p)->Ok_0;
            let (f1, a1) = spec_json_text(b, p + 4, "events.setPlayerIdentity.data"@)->Ok_0;
            &&& v.id == (be32(b, p) as u32 as i32)
            &&& v.data == f1
            &&& end == a1
        }),
{
}

/// A game in progress at `p`: its discs, then the goal tick counter (signed 32-bit), the
/// phase code (signed 32-bit), the red score, the blue score (signed 32-bit each), the time
/// elapsed (64-bit float bits), the pause tick counter (signed 32-bit) and the team that
/// conceded the last goal (a byte), each at its fixed offset after the discs.
pub proof fn lemma_game_state_layout(b: Seq<u8>, p: int)
    requires
        spec_game_state(b, p) is Ok,
    ensures
        ({
            let (g, end) = spec_game_state(b, p)->Ok_0;
            let (discs, q) = spec_game_discs(b, p)->Ok_0;
            &&& g.discs == discs
            &&& g.goal_tick_counter == (be32(b, q) as u32 as i32)
            &&& g.state == game_play_state_of_code(be32(b, q + 4) as u32 as i32)
            &&& g.red_score == (be32(b, q + 8) as u32 as i32)
            &&& g.blue_score == (be32(b, q + 12) as u32 as i32)
            &&& g.time_elapsed == (be64(b, q + 16) as u64)
            &&& g.pause_game_tick_counter == (be32(b, q + 24) as u32 as i32)
            &&& g.goal_conceding_team == b[q + 28]
            &&& end == q + 29
        }),
{
}

/// The room state at `p`: its nullable name; then whether the teams are locked (a byte), the
/// score limit and the time limit (signed 32-bit each), the kick rate maximum (signed
/// 16-bit), rate and minimum (a byte each); then the stadium, the game in progress, the
/// players, and the red and then the blue team colors.
pub proof fn lemma_room_state_layout(b: Seq<u8>, p: int)
    requires
        spec_room_state(b, p) is Ok,
    ensures
        ({
            let (room, end) = spec_room_state(b, p)->Ok_0;
            let (name, a1) = spec_nullable_string(b, p, "roomState.name"@)->Ok_0;
            let (stadium, a2) = spec_stadium(b, a1 + 13)->Ok_0;
            let (game, a3) = spec_optional_game(b, a2)->Ok_0;
            let (players, a4) = spec_players(b, a3)->Ok_0;
            let (red, a5) = spec_team_colors(b, a4, "roomState.redTeamColors"@)->Ok_0;
            let (blue, a6) = spec_team_colors(b, a5, "roomState.blueTeamColors"@)->Ok_0;
            &&& room.name == name
            &&& room.teams_locked == (b[a1] != 0)
            &&& room.score_limit == (be32(b, a1 + 1) as u32 as i32)
            &&& room.time_limit == (be32(b, a1 + 5) as u32 as i32)
            &&& room.kick_rate_max == (be16(b, a1 + 9) as u16 as i16)
            &&& room.kick_rate_rate == b[a1 + 11]
            &&& room.kick_rate_min == b[a1 + 12]
            &&& room.stadium == stadium
            &&& room.game_state == game
            &&& room.players == players
            &&& room.red_team_colors == red
            &&& room.blue_team_colors == blue
            &&& end == a6
        }),
{
}

/// Team colors at `p`: the stripe angle (a byte), the text color (signed 32-bit) and the
/// number of stripes (a byte), which is that of the stripe colors.
pub proof fn lemma_team_colors_layout(b: Seq<u8>, p: int, context: Seq<char>)
    requires
        spec_team_colors(b, p, context) is Ok,
    ensures
        ({
            let (c, end) = spec_team_colors(b, p, context)->Ok_0;
            &&& c.angle == b[p]
            &&& c.text == (be32(b, p + 1) as u32 as i32)
            &&& c.inner.len() == b[p + 5]
        }),
{
    crate::codec::reader::lemma_repeat_length(crate::codec::primitives::inner_color_item(b, context), p + 6, b[p + 5] as nat);
}

/// A stadium at `p`: an id byte other than 255 is the built-in stadium with that id and its
/// name, and nothing more; 255 is a custom stadium, whose nullable name follows the id;
/// then the background code (signed 32-bit), its width, height, kick-off radius, corner
/// radius and goal line (64-bit float bits each) and color (signed 32-bit); then width,
/// height and spawn distance (64-bit float bits each); then the player physics; then the
/// maximum view width (16-bit), the camera code (a byte), and whether it can be stored and
/// whether kick-offs reset fully (a byte each); then the vertices, segments, planes, goals,
/// discs, joints, red and blue spawn points.
#[verifier::rlimit(60)]
pub proof fn lemma_stadium_layout(b: Seq<u8>, p: int)
    requires
        spec_stadium(b, p) is Ok,
    ensures
        ({
            let (s, end) = spec_stadium(b, p)->Ok_0;
            &&& s.default_stadium_id == b[p]
            &&& b[p] != 255 ==> {
                &&& s.name == default_stadium_name_spec(b[p])
                &&& s.background_type is None && s.width is None && s.player_physics is None
                &&& s.vertices.len() == 0 && s.discs.len() == 0
                &&& end == p + 1
            }
            &&& b[p] == 255 ==> {
                let (name, q) = spec_nullable_string(b, p + 1, "stadium.name"@)->Ok_0;
                let (physics, r) = spec_player_physics(b, q + 72, "stadium.playerPhysics"@)->Ok_0;
                let (vertices, l1) = spec_vertex_list(b, r + 5)->Ok_0;
                let (segments, l2) = spec_segment_list(b, l1)->Ok_0;
                let (planes, l3) = spec_plane_list(b, l2)->Ok_0;
                let (goals, l4) = spec_goal_list(b, l3)->Ok_0;
                let (discs, l5) = spec_disc_list(b, l4)->Ok_0;
                let (joints, l6) = spec_joint_list(b, l5)->Ok_0;
                let (red, l7) = spec_red_spawn_points(b, l6)->Ok_0;
                let (blue, l8) = spec_blue_spawn_points(b, l7)->Ok_0;
                &&& s.name == name
                &&& s.background_type == Some(background_of_code(be32(b, q) as u32 as i32))
                &&& s.background_width == Some(be64(b, q + 4) as u64)
                &&& s.background_height == Some(be64(b, q + 12) as u64)
                &&& s.background_kickoff_radius == Some(be64(b, q + 20) as u64)
                &&& s.background_corner_radius == Some(be64(b, q + 28) as u64)
                &&& s.background_goal_line == Some(be64(b, q + 36) as u64)
                &&& s.background_color == Some(be32(b, q + 44) as u32 as i32)
                &&& s.width == Some(be64(b, q + 48) as u64)
                &&& s.height == Some(be64(b, q + 56) as u64)
                &&& s.spawn_distance == Some(be64(b, q + 64) as u64)
                &&& s.player_physics == Some(physics)
                &&& s.max_view_width == Some(be16(b, r) as u16)
                &&& s.camera_follow == Some(camera_of_code(b[r + 2]))
                &&& s.can_be_stored == Some(b[r + 3] != 0)
                &&& s.full_kickoff_reset == Some(b[r + 4] != 0)
                &&& s.vertices == vertices && s.segments == segments && s.planes == planes && s.goals == goals
                &&& s.discs == discs && s.joints == joints && s.red_spawn_points == red && s.blue_spawn_points == blue
                &&& end == l8
            }
        }),
{
    if b[p] == 255 {
        let (h, at1) = spec_custom_header(b, p + 1)->Ok_0;
        let (name, q) = spec_nullable_string(b, p + 1, "stadium.name"@)->Ok_0;
        lemma_stadium_background_layout(b, q);
        lemma_stadium_dimensions_layout(b, q + 48);
        let (physics, r) = spec_player_physics(b, q + 72, "stadium.playerPhysics"@)->Ok_0;
        lemma_stadium_settings_layout(b, r);
        assert(h.name == name && h.physics == physics && at1 == r + 5);
        assert(h.background.0 == be32(b, q) as u32 as i32 && h.settings.1 == b[r + 2]);
    }
}

/// Where each field of [`spec_segment`] comes from in the bytes at `p`: `flags` the byte at
/// offset 0, `v0` and `v1` the bytes at offsets 1 and 2. Then, each only when its flag bit is
/// set, the bias (bit 0, 64-bit float bits), the curve (bit 1, 64-bit float bits) and the color
/// (bit 2, signed 32-bit) follow one after the other; a missing bias is 0, a missing curve the
/// bits of positive infinity and a missing color 0. `vis` is bit 3 of the flags. Last come
/// `b_coef` (64-bit float bits), `c_mask` and `c_group` (signed 32-bit each).
pub proof fn lemma_segment_layout(b: Seq<u8>, p: int, context: Seq<char>)
    requires
        spec_segment(b, p, context) is Ok,
    ensures
        ({
            let (v, end) = spec_segment(b, p, context)->Ok_0;
            let flags = b[p];
            let o1 = if flags & 1 != 0 { p + 11 } else { p + 3 };
            let o2 = if flags & 2 != 0 { o1 + 8 } else { o1 };
            let o3 = if flags & 4 != 0 { o2 + 4 } else { o2 };
            &&& v.flags == flags
            &&& v.v0 == b[p + 1]
            &&& v.v1 == b[p + 2]
            &&& v.bias == (if flags & 1 != 0 { be64(b, p + 3) as u64 } else { 0u64 })
            &&& v.curve == (if flags & 2 != 0 { be64(b, o1) as u64 } else { 0x7ff0_0000_0000_0000u64 })
            &&& v.color == (if flags & 4 != 0 { be32(b, o2) as u32 as i32 } else { 0i32 })
            &&& v.vis == (flags & 8 != 0)
            &&& v.b_coef == (be64(b, o3) as u64)
            &&& v.c_mask == (be32(b, o3 + 8) as u32 as i32)
            &&& v.c_group == (be32(b, o3 + 12) as u32 as i32)
            &&& end == o3 + 16
        }),
{
}

proof fn lemma_flag_bit_mask(flags: u16, i: u16)
    by (bit_vector)
    requires
        i < 16,
    ensures
        ((flags >> i) & 1u16 == 1u16) == (flags & (1u16 << i) != 0u16),
{
}

/// Where the fields of [`spec_set_disc_properties`] come from in the bytes at `p`: `id` the
/// signed 32-bit at offset 0, `is_player` the byte (non-zero is true) at offset 4, `flags` the
/// unsigned 16-bit at offset 5. Of the ten `data1` values, value `i` is present exactly when
/// bit `i` of the flags is set; of the three `data2` values, value `i` exactly when bit
/// `10 + i` is set.
pub proof fn lemma_set_disc_properties_layout(b: Seq<u8>, p: int)
    requires
        spec_set_disc_properties(b, p) is Ok,
    ensures
        ({
            let (v, end) = spec_set_disc_properties(b, p)->Ok_0;
            &&& v.id == (be32(b, p) as u32 as i32)
            &&& v.is_player == (b[p + 4] != 0)
            &&& v.flags == (be16(b, p + 5) as u16)
            &&& v.data1.len() == 10
            &&& v.data2.len() == 3
            &&& forall|i: int| 0 <= i < 10 ==> (#[trigger] v.data1[i] is Some <==> v.flags & (1u16 << (i as u16)) != 0u16)
            &&& forall|i: int| 0 <= i < 3 ==> (#[trigger] v.data2[i] is Some <==> v.flags & (1u16 << ((10 + i) as u16)) != 0u16)
        }),
{
    let (v, end) = spec_set_disc_properties(b, p)->Ok_0;
    let flags = v.flags;
    let at3 = p + 7;
    let item1 = disc_data1_item(b, flags);
    let item2 = disc_data2_item(b, flags);
    lemma_repeat_items(item1, at3, 10);
    let at4 = spec_repeat(10, item1, at3)->Ok_0.1;
    lemma_repeat_items(item2, at4, 3);
    assert forall|i: int| 0 <= i < 10 implies (#[trigger] v.data1[i] is Some <==> flags & (1u16 << (i as u16)) != 0u16) by {
        assert(read_somewhere(item1, i as nat, v.data1[i]));
        let q = choose|q: int| #[trigger] item1(q, i as nat) == Ok::<(Option<u32>, int), (DecodeErrorView, int)>((v.data1[i], item1(q, i as nat)->Ok_0.1));
        lemma_flag_bit_mask(flags, i as u16);
        assert(flag_bit(flags, i as nat) == ((flags >> (i as u16)) & 1u16 == 1u16));
    }
    assert forall|i: int| 0 <= i < 3 implies (#[trigger] v.data2[i] is Some <==> flags & (1u16 << ((10 + i) as u16)) != 0u16) by {
        assert(read_somewhere(item2, i as nat, v.data2[i]));
        let q = choose|q: int| #[trigger] item2(q, i as nat) == Ok::<(Option<i32>, int), (DecodeErrorView, int)>((v.data2[i], item2(q, i as nat)->Ok_0.1));
        lemma_flag_bit_mask(flags, (10 + i) as u16);
        assert(flag_bit(flags, (10 + i) as nat) == ((flags >> ((10 + i) as u16)) & 1u16 == 1u16));
    }
}

} // verus!
