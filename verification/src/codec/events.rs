//! Event payloads, by event type.
use vstd::prelude::*;

use crate::codec::inflate::{inflate_outcome, inflate_raw, OutputLimit};
use crate::codec::primitives::{parse_team_colors, spec_team_colors};
use crate::codec::reader::{
    lemma_repeat_error_persists, read_as, spec_bool, spec_bytes, spec_i32, spec_i8,
    spec_json_text, spec_nullable_string, spec_repeat, spec_string, spec_u16, spec_u32, spec_u8,
    spec_var_u32, trailing_error, ReplayReader, SpecRead,
};
use crate::codec::stadium::{parse_stadium, spec_stadium};
use crate::error::{is_read_error, DecodeError, DecodeErrorView};
use crate::text::{index_context, indexed};
use crate::types::events::{
    payload_type_byte,
    AutoTeamsEvent, StartGameEvent, StopGameEvent,
    BinaryCustomEvent, BinaryCustomEventView, CheckConsistencyEvent, CheckConsistencyEventView, CustomEvent, CustomEventView, EventPayload, EventPayloadView, JoinRoomEvent, JoinRoomEventView, KickBanPlayerEvent, KickBanPlayerEventView, PauseResumeGameEvent, PingEvent, PingEventView, ReorderPlayersEvent, ReorderPlayersEventView, SendAnnouncementEvent, SendAnnouncementEventView, SendChatEvent, SendChatEventView, SendChatIndicatorEvent, SendInputEvent, SetAvatarEvent, SetAvatarEventView, SetDiscPropertiesEvent, SetDiscPropertiesEventView, SetGamePlayLimitEvent, SetHeadlessAvatarEvent, SetHeadlessAvatarEventView, SetKickRateLimitEvent, SetPlayerAdminEvent, SetPlayerIdentityEvent, SetPlayerIdentityEventView, SetPlayerSyncEvent, SetPlayerTeamEvent, SetStadiumEvent, SetStadiumEventView, SetTeamColorsEvent, SetTeamColorsEventView, SetTeamsLockEvent,
};
use crate::types::stadium::StadiumView;

verus! {

/// An announcement: text, color, style and sound.
pub open spec fn spec_send_announcement(b: Seq<u8>, p: int) -> SpecRead<SendAnnouncementEventView> {
    match spec_string(b, p, "events.sendAnnouncement.msg"@) {
        Err(e) => Err(e),
        Ok((msg, at1)) =>
        match spec_i32(b, at1, "events.sendAnnouncement.color"@) {
            Err(e) => Err(e),
            Ok((color, at2)) =>
            match spec_u8(b, at2, "events.sendAnnouncement.style"@) {
                Err(e) => Err(e),
                Ok((style, at3)) =>
                match spec_u8(b, at3, "events.sendAnnouncement.sound"@) {
                    Err(e) => Err(e),
                    Ok((sound, at4)) =>
                    Ok((SendAnnouncementEventView { msg, color, style, sound }, at4)),
                },
            },
        },
    }
}

fn parse_send_announcement(reader: &mut ReplayReader) -> (r: Result<SendAnnouncementEvent, DecodeError>)
    ensures
        read_as(old(reader)@, final(reader)@, spec_send_announcement(old(reader)@.bytes, old(reader)@.cursor), r),
{
    let msg = reader.read_string("events.sendAnnouncement.msg")?;
    let color = reader.read_i32("events.sendAnnouncement.color")?;
    let style = reader.read_u8("events.sendAnnouncement.style")?;
    let sound = reader.read_u8("events.sendAnnouncement.sound")?;
    Ok(SendAnnouncementEvent { msg, color, style, sound })
}

/// The chat indicator of a player.
pub open spec fn spec_send_chat_indicator(b: Seq<u8>, p: int) -> SpecRead<SendChatIndicatorEvent> {
    match spec_u8(b, p, "events.sendChatIndicator.value"@) {
        Err(e) => Err(e),
        Ok((value, at1)) =>
        Ok((SendChatIndicatorEvent { value }, at1)),
    }
}

fn parse_send_chat_indicator(reader: &mut ReplayReader) -> (r: Result<SendChatIndicatorEvent, DecodeError>)
    ensures
        read_as(old(reader)@, final(reader)@, spec_send_chat_indicator(old(reader)@.bytes, old(reader)@.cursor), r),
{
    let value = reader.read_u8("events.sendChatIndicator.value")?;
    Ok(SendChatIndicatorEvent { value })
}

/// The input keys of a player.
pub open spec fn spec_send_input(b: Seq<u8>, p: int) -> SpecRead<SendInputEvent> {
    match spec_u32(b, p, "events.sendInput.input"@) {
        Err(e) => Err(e),
        Ok((input, at1)) =>
        Ok((SendInputEvent { input }, at1)),
    }
}

fn parse_send_input(reader: &mut ReplayReader) -> (r: Result<SendInputEvent, DecodeError>)
    ensures
        read_as(old(reader)@, final(reader)@, spec_send_input(old(reader)@.bytes, old(reader)@.cursor), r),
{
    let input = reader.read_u32("events.sendInput.input")?;
    Ok(SendInputEvent { input })
}

/// A chat message.
pub open spec fn spec_send_chat(b: Seq<u8>, p: int) -> SpecRead<SendChatEventView> {
    match spec_string(b, p, "events.sendChat.text"@) {
        Err(e) => Err(e),
        Ok((text, at1)) =>
        Ok((SendChatEventView { text }, at1)),
    }
}

fn parse_send_chat(reader: &mut ReplayReader) -> (r: Result<SendChatEvent, DecodeError>)
    ensures
        read_as(old(reader)@, final(reader)@, spec_send_chat(old(reader)@.bytes, old(reader)@.cursor), r),
{
    let text = reader.read_string("events.sendChat.text")?;
    Ok(SendChatEvent { text })
}

/// A player joining.
pub open spec fn spec_join_room(b: Seq<u8>, p: int) -> SpecRead<JoinRoomEventView> {
    match spec_i32(b, p, "events.joinRoom.playerId"@) {
        Err(e) => Err(e),
        Ok((player_id, at1)) =>
        match spec_nullable_string(b, at1, "events.joinRoom.name"@) {
            Err(e) => Err(e),
            Ok((name, at2)) =>
            match spec_nullable_string(b, at2, "events.joinRoom.flag"@) {
                Err(e) => Err(e),
                Ok((flag, at3)) =>
                match spec_nullable_string(b, at3, "events.joinRoom.avatar"@) {
                    Err(e) => Err(e),
                    Ok((avatar, at4)) =>
                    Ok((JoinRoomEventView { player_id, name, flag, avatar }, at4)),
                },
            },
        },
    }
}

fn parse_join_room(reader: &mut ReplayReader) -> (r: Result<JoinRoomEvent, DecodeError>)
    ensures
        read_as(old(reader)@, final(reader)@, spec_join_room(old(reader)@.bytes, old(reader)@.cursor), r),
{
    let player_id = reader.read_i32("events.joinRoom.playerId")?;
    let name = reader.read_nullable_string("events.joinRoom.name")?;
    let flag = reader.read_nullable_string("events.joinRoom.flag")?;
    let avatar = reader.read_nullable_string("events.joinRoom.avatar")?;
    Ok(JoinRoomEvent { player_id, name, flag, avatar })
}

/// A player kicked or banned.
pub open spec fn spec_kick_ban_player(b: Seq<u8>, p: int) -> SpecRead<KickBanPlayerEventView> {
    match spec_i32(b, p, "events.kickBanPlayer.playerId"@) {
        Err(e) => Err(e),
        Ok((player_id, at1)) =>
        match spec_nullable_string(b, at1, "events.kickBanPlayer.reason"@) {
            Err(e) => Err(e),
            Ok((reason, at2)) =>
            match spec_bool(b, at2, "events.kickBanPlayer.ban"@) {
                Err(e) => Err(e),
                Ok((ban, at3)) =>
                Ok((KickBanPlayerEventView { player_id, reason, ban }, at3)),
            },
        },
    }
}

fn parse_kick_ban_player(reader: &mut ReplayReader) -> (r: Result<KickBanPlayerEvent, DecodeError>)
    ensures
        read_as(old(reader)@, final(reader)@, spec_kick_ban_player(old(reader)@.bytes, old(reader)@.cursor), r),
{
    let player_id = reader.read_i32("events.kickBanPlayer.playerId")?;
    let reason = reader.read_nullable_string("events.kickBanPlayer.reason")?;
    let ban = reader.read_bool("events.kickBanPlayer.ban")?;
    Ok(KickBanPlayerEvent { player_id, reason, ban })
}

/// The game paused or resumed.
pub open spec fn spec_pause_resume_game(b: Seq<u8>, p: int) -> SpecRead<PauseResumeGameEvent> {
    match spec_bool(b, p, "events.pauseResumeGame.paused"@) {
        Err(e) => Err(e),
        Ok((paused, at1)) =>
        Ok((PauseResumeGameEvent { paused }, at1)),
    }
}

fn parse_pause_resume_game(reader: &mut ReplayReader) -> (r: Result<PauseResumeGameEvent, DecodeError>)
    ensures
        read_as(old(reader)@, final(reader)@, spec_pause_resume_game(old(reader)@.bytes, old(reader)@.cursor), r),
{
    let paused = reader.read_bool("events.pauseResumeGame.paused")?;
    Ok(PauseResumeGameEvent { paused })
}

/// A score or time limit changing.
pub open spec fn spec_set_game_play_limit(b: Seq<u8>, p: int) -> SpecRead<SetGamePlayLimitEvent> {
    match spec_i32(b, p, "events.setGamePlayLimit.type"@) {
        Err(e) => Err(e),
        Ok((limit_type, at1)) =>
        match spec_i32(b, at1, "events.setGamePlayLimit.newValue"@) {
            Err(e) => Err(e),
            Ok((new_value, at2)) =>
            Ok((SetGamePlayLimitEvent { limit_type, new_value }, at2)),
        },
    }
}

fn parse_set_game_play_limit(reader: &mut ReplayReader) -> (r: Result<SetGamePlayLimitEvent, DecodeError>)
    ensures
        read_as(old(reader)@, final(reader)@, spec_set_game_play_limit(old(reader)@.bytes, old(reader)@.cursor), r),
{
    let limit_type = reader.read_i32("events.setGamePlayLimit.type")?;
    let new_value = reader.read_i32("events.setGamePlayLimit.newValue")?;
    Ok(SetGamePlayLimitEvent { limit_type, new_value })
}

/// A player moved to a team.
pub open spec fn spec_set_player_team(b: Seq<u8>, p: int) -> SpecRead<SetPlayerTeamEvent> {
    match spec_i32(b, p, "events.setPlayerTeam.playerId"@) {
        Err(e) => Err(e),
        Ok((player_id, at1)) =>
        match spec_i8(b, at1, "events.setPlayerTeam.teamId"@) {
            Err(e) => Err(e),
            Ok((team_id, at2)) =>
            Ok((SetPlayerTeamEvent { player_id, team_id }, at2)),
        },
    }
}

fn parse_set_player_team(reader: &mut ReplayReader) -> (r: Result<SetPlayerTeamEvent, DecodeError>)
    ensures
        read_as(old(reader)@, final(reader)@, spec_set_player_team(old(reader)@.bytes, old(reader)@.cursor), r),
{
    let player_id = reader.read_i32("events.setPlayerTeam.playerId")?;
    let team_id = reader.read_i8("events.setPlayerTeam.teamId")?;
    Ok(SetPlayerTeamEvent { player_id, team_id })
}

/// The teams locked or unlocked.
pub open spec fn spec_set_teams_lock(b: Seq<u8>, p: int) -> SpecRead<SetTeamsLockEvent> {
    match spec_bool(b, p, "events.setTeamsLock.value"@) {
        Err(e) => Err(e),
        Ok((new_value, at1)) =>
        Ok((SetTeamsLockEvent { new_value }, at1)),
    }
}

fn parse_set_teams_lock(reader: &mut ReplayReader) -> (r: Result<SetTeamsLockEvent, DecodeError>)
    ensures
        read_as(old(reader)@, final(reader)@, spec_set_teams_lock(old(reader)@.bytes, old(reader)@.cursor), r),
{
    let new_value = reader.read_bool("events.setTeamsLock.value")?;
    Ok(SetTeamsLockEvent { new_value })
}

/// A player made admin or not.
pub open spec fn spec_set_player_admin(b: Seq<u8>, p: int) -> SpecRead<SetPlayerAdminEvent> {
    match spec_i32(b, p, "events.setPlayerAdmin.playerId"@) {
        Err(e) => Err(e),
        Ok((player_id, at1)) =>
        match spec_bool(b, at1, "events.setPlayerAdmin.value"@) {
            Err(e) => Err(e),
            Ok((value, at2)) =>
            Ok((SetPlayerAdminEvent { player_id, value }, at2)),
        },
    }
}

fn parse_set_player_admin(reader: &mut ReplayReader) -> (r: Result<SetPlayerAdminEvent, DecodeError>)
    ensures
        read_as(old(reader)@, final(reader)@, spec_set_player_admin(old(reader)@.bytes, old(reader)@.cursor), r),
{
    let player_id = reader.read_i32("events.setPlayerAdmin.playerId")?;
    let value = reader.read_bool("events.setPlayerAdmin.value")?;
    Ok(SetPlayerAdminEvent { player_id, value })
}

/// The sync state of a player.
pub open spec fn spec_set_player_sync(b: Seq<u8>, p: int) -> SpecRead<SetPlayerSyncEvent> {
    match spec_bool(b, p, "events.setPlayerSync.value"@) {
        Err(e) => Err(e),
        Ok((value, at1)) =>
        Ok((SetPlayerSyncEvent { value }, at1)),
    }
}

fn parse_set_player_sync(reader: &mut ReplayReader) -> (r: Result<SetPlayerSyncEvent, DecodeError>)
    ensures
        read_as(old(reader)@, final(reader)@, spec_set_player_sync(old(reader)@.bytes, old(reader)@.cursor), r),
{
    let value = reader.read_bool("events.setPlayerSync.value")?;
    Ok(SetPlayerSyncEvent { value })
}

/// A player setting an avatar.
pub open spec fn spec_set_avatar(b: Seq<u8>, p: int) -> SpecRead<SetAvatarEventView> {
    match spec_nullable_string(b, p, "events.setAvatar.value"@) {
        Err(e) => Err(e),
        Ok((value, at1)) =>
        Ok((SetAvatarEventView { value }, at1)),
    }
}

fn parse_set_avatar(reader: &mut ReplayReader) -> (r: Result<SetAvatarEvent, DecodeError>)
    ensures
        read_as(old(reader)@, final(reader)@, spec_set_avatar(old(reader)@.bytes, old(reader)@.cursor), r),
{
    let value = reader.read_nullable_string("events.setAvatar.value")?;
    Ok(SetAvatarEvent { value })
}

/// The colors of a team changing.
pub open spec fn spec_set_team_colors(b: Seq<u8>, p: int) -> SpecRead<SetTeamColorsEventView> {
    match spec_i8(b, p, "events.setTeamColors.teamId"@) {
        Err(e) => Err(e),
        Ok((team_id, at1)) =>
        match spec_team_colors(b, at1, "events.setTeamColors.colors"@) {
            Err(e) => Err(e),
            Ok((colors, at2)) =>
            Ok((SetTeamColorsEventView { team_id, colors }, at2)),
        },
    }
}

fn parse_set_team_colors(reader: &mut ReplayReader) -> (r: Result<SetTeamColorsEvent, DecodeError>)
    ensures
        read_as(old(reader)@, final(reader)@, spec_set_team_colors(old(reader)@.bytes, old(reader)@.cursor), r),
{
    let team_id = reader.read_i8("events.setTeamColors.teamId")?;
    let colors = parse_team_colors(reader, "events.setTeamColors.colors")?;
    Ok(SetTeamColorsEvent { team_id, colors })
}

/// The kick rate limit changing.
pub open spec fn spec_set_kick_rate_limit(b: Seq<u8>, p: int) -> SpecRead<SetKickRateLimitEvent> {
    match spec_i32(b, p, "events.setKickRateLimit.min"@) {
        Err(e) => Err(e),
        Ok((min, at1)) =>
        match spec_i32(b, at1, "events.setKickRateLimit.rate"@) {
            Err(e) => Err(e),
            Ok((rate, at2)) =>
            match spec_i32(b, at2, "events.setKickRateLimit.burst"@) {
                Err(e) => Err(e),
                Ok((burst, at3)) =>
                Ok((SetKickRateLimitEvent { min, rate, burst }, at3)),
            },
        },
    }
}

fn parse_set_kick_rate_limit(reader: &mut ReplayReader) -> (r: Result<SetKickRateLimitEvent, DecodeError>)
    ensures
        read_as(old(reader)@, final(reader)@, spec_set_kick_rate_limit(old(reader)@.bytes, old(reader)@.cursor), r),
{
    let min = reader.read_i32("events.setKickRateLimit.min")?;
    let rate = reader.read_i32("events.setKickRateLimit.rate")?;
    let burst = reader.read_i32("events.setKickRateLimit.burst")?;
    Ok(SetKickRateLimitEvent { min, rate, burst })
}

/// The headless host setting a player\'s avatar.
pub open spec fn spec_set_headless_avatar(b: Seq<u8>, p: int) -> SpecRead<SetHeadlessAvatarEventView> {
    match spec_nullable_string(b, p, "events.setHeadlessAvatar.value"@) {
        Err(e) => Err(e),
        Ok((value, at1)) =>
        match spec_i32(b, at1, "events.setHeadlessAvatar.playerId"@) {
            Err(e) => Err(e),
            Ok((player_id, at2)) =>
            Ok((SetHeadlessAvatarEventView { value, player_id }, at2)),
        },
    }
}

fn parse_set_headless_avatar(reader: &mut ReplayReader) -> (r: Result<SetHeadlessAvatarEvent, DecodeError>)
    ensures
        read_as(old(reader)@, final(reader)@, spec_set_headless_avatar(old(reader)@.bytes, old(reader)@.cursor), r),
{
    let value = reader.read_nullable_string("events.setHeadlessAvatar.value")?;
    let player_id = reader.read_i32("events.setHeadlessAvatar.playerId")?;
    Ok(SetHeadlessAvatarEvent { value, player_id })
}

/// A custom event with a JSON document.
pub open spec fn spec_custom_event(b: Seq<u8>, p: int) -> SpecRead<CustomEventView> {
    match spec_u32(b, p, "events.customEvent.type"@) {
        Err(e) => Err(e),
        Ok((event_type, at1)) =>
        match spec_json_text(b, at1, "events.customEvent.data"@) {
            Err(e) => Err(e),
            Ok((data, at2)) =>
            Ok((CustomEventView { event_type, data }, at2)),
        },
    }
}

fn parse_custom_event(reader: &mut ReplayReader) -> (r: Result<CustomEvent, DecodeError>)
    ensures
        read_as(old(reader)@, final(reader)@, spec_custom_event(old(reader)@.bytes, old(reader)@.cursor), r),
{
    let event_type = reader.read_u32("events.customEvent.type")?;
    let data = reader.read_json_text("events.customEvent.data")?;
    Ok(CustomEvent { event_type, data })
}

/// A player identity with a JSON document.
pub open spec fn spec_set_player_identity(b: Seq<u8>, p: int) -> SpecRead<SetPlayerIdentityEventView> {
    match spec_i32(b, p, "events.setPlayerIdentity.id"@) {
        Err(e) => Err(e),
        Ok((id, at1)) =>
        match spec_json_text(b, at1, "events.setPlayerIdentity.data"@) {
            Err(e) => Err(e),
            Ok((data, at2)) =>
            Ok((SetPlayerIdentityEventView { id, data }, at2)),
        },
    }
}

fn parse_set_player_identity(reader: &mut ReplayReader) -> (r: Result<SetPlayerIdentityEvent, DecodeError>)
    ensures
        read_as(old(reader)@, final(reader)@, spec_set_player_identity(old(reader)@.bytes, old(reader)@.cursor), r),
{
    let id = reader.read_i32("events.setPlayerIdentity.id")?;
    let data = reader.read_json_text("events.setPlayerIdentity.data")?;
    Ok(SetPlayerIdentityEvent { id, data })
}

/// Reading item `i` of the pings of a ping event at `at`.
pub open spec fn ping_item(b: Seq<u8>) -> spec_fn(int, nat) -> SpecRead<u32> {
    |at: int, i: nat| spec_var_u32(b, at, index_context("events.ping.pings"@, i))
}

/// The pings of a ping event: a count, then that many items.
pub open spec fn spec_pings(b: Seq<u8>, p: int) -> SpecRead<Seq<u32>> {
    match spec_var_u32(b, p, "events.ping.length"@) {
        Err(e) => Err(e),
        Ok((n, at)) => spec_repeat(n as nat, ping_item(b), at),
    }
}

#[verifier::loop_isolation(false)]
fn parse_pings(reader: &mut ReplayReader) -> (r: Result<Vec<u32>, DecodeError>)
    ensures
        read_as(old(reader)@, final(reader)@, spec_pings(old(reader)@.bytes, old(reader)@.cursor), r),
{
    let count_value = reader.read_var_u32("events.ping.length")?;
    let count = count_value as usize;
    assert(count as nat == count_value as nat);
    let ghost b = reader@.bytes;
    let ghost start = reader@.cursor;
    let ghost item = ping_item(b);
    let mut items: Vec<u32> = Vec::new();
    let mut index: usize = 0;
    
    while index < count
        invariant
            index <= count,
            reader@.bytes == b,
            reader@.cursor <= reader@.bytes.len(),
            start <= reader@.cursor,
            spec_repeat(index as nat, item, start) == Ok::<(Seq<u32>, int), (DecodeErrorView, int)>((items@, reader@.cursor)),
        decreases count - index,
    {
        let ctx = indexed("events.ping.pings", index);
        match reader.read_var_u32(ctx.as_str()) {
            Ok(v) => {
                let ghost before = items@;
                items.push(v);
                
            },
            Err(e) => {
                proof { lemma_repeat_error_persists(item, start, (index + 1) as nat, count as nat); }
                return Err(e);
            },
        }
        index = index + 1;
    }
    Ok(items)
}

/// Reading item `i` of the players of a reorder event at `at`.
pub open spec fn reorder_id_item(b: Seq<u8>) -> spec_fn(int, nat) -> SpecRead<i32> {
    |at: int, i: nat| spec_i32(b, at, index_context("events.reorderPlayers.playerIds"@, i))
}

/// The players of a reorder event: a count, then that many items.
pub open spec fn spec_reorder_ids(b: Seq<u8>, p: int) -> SpecRead<Seq<i32>> {
    match spec_u8(b, p, "events.reorderPlayers.length"@) {
        Err(e) => Err(e),
        Ok((n, at)) => spec_repeat(n as nat, reorder_id_item(b), at),
    }
}

#[verifier::loop_isolation(false)]
fn parse_reorder_ids(reader: &mut ReplayReader) -> (r: Result<Vec<i32>, DecodeError>)
    ensures
        read_as(old(reader)@, final(reader)@, spec_reorder_ids(old(reader)@.bytes, old(reader)@.cursor), r),
{
    let count = reader.read_u8("events.reorderPlayers.length")? as usize;
    let ghost b = reader@.bytes;
    let ghost start = reader@.cursor;
    let ghost item = reorder_id_item(b);
    let mut items: Vec<i32> = Vec::new();
    let mut index: usize = 0;
    
    while index < count
        invariant
            index <= count,
            reader@.bytes == b,
            reader@.cursor <= reader@.bytes.len(),
            start <= reader@.cursor,
            spec_repeat(index as nat, item, start) == Ok::<(Seq<i32>, int), (DecodeErrorView, int)>((items@, reader@.cursor)),
        decreases count - index,
    {
        let ctx = indexed("events.reorderPlayers.playerIds", index);
        match reader.read_i32(ctx.as_str()) {
            Ok(v) => {
                let ghost before = items@;
                items.push(v);
                
            },
            Err(e) => {
                proof { lemma_repeat_error_persists(item, start, (index + 1) as nat, count as nat); }
                return Err(e);
            },
        }
        index = index + 1;
    }
    Ok(items)
}


/// A consistency check: a length, then that many bytes.
pub open spec fn spec_check_consistency(b: Seq<u8>, p: int) -> SpecRead<CheckConsistencyEventView> {
    match spec_var_u32(b, p, "events.checkConsistency.length"@) {
        Err(e) => Err(e),
        Ok((n, at)) => match spec_bytes(b, at, n as int, "events.checkConsistency.data"@) {
            Err(e) => Err(e),
            Ok((data, at2)) => Ok((CheckConsistencyEventView { data }, at2)),
        },
    }
}

fn parse_check_consistency(reader: &mut ReplayReader) -> (r: Result<CheckConsistencyEvent, DecodeError>)
    ensures
        read_as(old(reader)@, final(reader)@, spec_check_consistency(old(reader)@.bytes, old(reader)@.cursor), r),
{
    let data_len = reader.read_var_u32("events.checkConsistency.length")? as usize;
    let data = reader.read_bytes_vec(data_len, "events.checkConsistency.data")?;
    Ok(CheckConsistencyEvent { data })
}

/// A ping event: a count, then that many variable-length values.
pub open spec fn spec_ping(b: Seq<u8>, p: int) -> SpecRead<PingEventView> {
    match spec_pings(b, p) {
        Err(e) => Err(e),
        Ok((pings, at)) => Ok((PingEventView { pings }, at)),
    }
}

fn parse_ping(reader: &mut ReplayReader) -> (r: Result<PingEvent, DecodeError>)
    ensures
        read_as(old(reader)@, final(reader)@, spec_ping(old(reader)@.bytes, old(reader)@.cursor), r),
{
    let pings = parse_pings(reader)?;
    Ok(PingEvent { pings })
}

/// A reorder event: whether to move to the top, then a count and that many player ids.
pub open spec fn spec_reorder_players(b: Seq<u8>, p: int) -> SpecRead<ReorderPlayersEventView> {
    match spec_bool(b, p, "events.reorderPlayers.moveToTop"@) {
        Err(e) => Err(e),
        Ok((move_to_top, at1)) => match spec_reorder_ids(b, at1) {
            Err(e) => Err(e),
            Ok((player_id_list, at2)) => Ok((ReorderPlayersEventView { move_to_top, player_id_list }, at2)),
        },
    }
}

fn parse_reorder_players(reader: &mut ReplayReader) -> (r: Result<ReorderPlayersEvent, DecodeError>)
    ensures
        read_as(old(reader)@, final(reader)@, spec_reorder_players(old(reader)@.bytes, old(reader)@.cursor), r),
{
    let move_to_top = reader.read_bool("events.reorderPlayers.moveToTop")?;
    let player_id_list = parse_reorder_ids(reader)?;
    Ok(ReorderPlayersEvent { move_to_top, player_id_list })
}

/// Bit `i` of `flags` is set.
pub open spec fn flag_bit(flags: u16, i: nat) -> bool {
    (flags >> (i as u16)) & 1u16 == 1u16
}

/// Reading `data1[i]` of a disc-properties event: an `f32` when flag bit `i` is set.
pub open spec fn disc_data1_item(b: Seq<u8>, flags: u16) -> spec_fn(int, nat) -> SpecRead<Option<u32>> {
    |at: int, i: nat|
        if flag_bit(flags, i) {
            match spec_u32(b, at, index_context("events.setDiscProperties.data1"@, i)) {
                Err(e) => Err(e),
                Ok((x, next)) => Ok((Some(x), next)),
            }
        } else {
            Ok((None, at))
        }
}

/// Reading `data2[i]` of a disc-properties event: an `i32` when flag bit `10 + i` is set.
pub open spec fn disc_data2_item(b: Seq<u8>, flags: u16) -> spec_fn(int, nat) -> SpecRead<Option<i32>> {
    |at: int, i: nat|
        if flag_bit(flags, 10 + i) {
            match spec_i32(b, at, index_context("events.setDiscProperties.data2"@, i)) {
                Err(e) => Err(e),
                Ok((x, next)) => Ok((Some(x), next)),
            }
        } else {
            Ok((None, at))
        }
}

/// Disc properties: id, whether it is a player's disc, 16 flag bits, then ten optional
/// `f32` values (flag bits 0 to 9) and three optional `i32` values (flag bits 10 to 12).
pub open spec fn spec_set_disc_properties(b: Seq<u8>, p: int) -> SpecRead<SetDiscPropertiesEventView> {
    match spec_i32(b, p, "events.setDiscProperties.id"@) {
        Err(e) => Err(e),
        Ok((id, at1)) => match spec_bool(b, at1, "events.setDiscProperties.isPlayer"@) {
            Err(e) => Err(e),
            Ok((is_player, at2)) => match spec_u16(b, at2, "events.setDiscProperties.flags"@) {
                Err(e) => Err(e),
                Ok((flags, at3)) => match spec_repeat(10, disc_data1_item(b, flags), at3) {
                    Err(e) => Err(e),
                    Ok((data1, at4)) => match spec_repeat(3, disc_data2_item(b, flags), at4) {
                        Err(e) => Err(e),
                        Ok((data2, at5)) => Ok((SetDiscPropertiesEventView { id, is_player, flags, data1, data2 }, at5)),
                    },
                },
            },
        },
    }
}

#[verifier::loop_isolation(false)]
fn parse_set_disc_properties(reader: &mut ReplayReader) -> (r: Result<SetDiscPropertiesEvent, DecodeError>)
    ensures
        read_as(old(reader)@, final(reader)@, spec_set_disc_properties(old(reader)@.bytes, old(reader)@.cursor), r),
{
    let id = reader.read_i32("events.setDiscProperties.id")?;
    let is_player = reader.read_bool("events.setDiscProperties.isPlayer")?;
    let flags = reader.read_u16("events.setDiscProperties.flags")?;
    let ghost b = reader@.bytes;
    let ghost start1 = reader@.cursor;
    let ghost item1 = disc_data1_item(b, flags);
    let mut data1: [Option<u32>; 10] = [None; 10];
    let mut index: usize = 0;
    assert(data1@.subrange(0, 0) =~= Seq::<Option<u32>>::empty());
    while index < 10
        invariant
            index <= 10,
            reader@.bytes == b,
            reader@.cursor <= reader@.bytes.len(),
            start1 <= reader@.cursor,
            spec_repeat(index as nat, item1, start1) == Ok::<(Seq<Option<u32>>, int), (DecodeErrorView, int)>((
                data1@.subrange(0, index as int),
                reader@.cursor,
            )),
            forall|j: int| index <= j < 10 ==> data1@[j] == None::<u32>,
        decreases 10 - index,
    {
        let ghost prefix = data1@.subrange(0, index as int);
        let bit_set = (flags >> (index as u16)) & 1 == 1;
        assert(bit_set == flag_bit(flags, index as nat));
        if bit_set {
            let ctx = indexed("events.setDiscProperties.data1", index);
            match reader.read_f32_bits(ctx.as_str()) {
                Ok(v) => {
                    data1[index] = Some(v);
                    assert(data1@.subrange(0, index as int) =~= prefix);
                },
                Err(e) => {
                    proof { lemma_repeat_error_persists(item1, start1, (index + 1) as nat, 10); }
                    return Err(e);
                },
            }
        }
        assert(data1@.subrange(0, index + 1) =~= data1@.subrange(0, index as int).push(data1@[index as int]));
        index = index + 1;
    }
    assert(data1@.subrange(0, 10) =~= data1@);
    let ghost start2 = reader@.cursor;
    let ghost item2 = disc_data2_item(b, flags);
    let mut data2: [Option<i32>; 3] = [None; 3];
    let mut index: usize = 0;
    assert(data2@.subrange(0, 0) =~= Seq::<Option<i32>>::empty());
    while index < 3
        invariant
            index <= 3,
            reader@.bytes == b,
            reader@.cursor <= reader@.bytes.len(),
            start2 <= reader@.cursor,
            spec_repeat(index as nat, item2, start2) == Ok::<(Seq<Option<i32>>, int), (DecodeErrorView, int)>((
                data2@.subrange(0, index as int),
                reader@.cursor,
            )),
            forall|j: int| index <= j < 3 ==> data2@[j] == None::<i32>,
        decreases 3 - index,
    {
        let ghost prefix = data2@.subrange(0, index as int);
        let bit_set = (flags >> ((10 + index) as u16)) & 1 == 1;
        assert(bit_set == flag_bit(flags, (10 + index) as nat));
        if bit_set {
            let ctx = indexed("events.setDiscProperties.data2", index);
            match reader.read_i32(ctx.as_str()) {
                Ok(v) => {
                    data2[index] = Some(v);
                    assert(data2@.subrange(0, index as int) =~= prefix);
                },
                Err(e) => {
                    proof { lemma_repeat_error_persists(item2, start2, (index + 1) as nat, 3); }
                    return Err(e);
                },
            }
        }
        assert(data2@.subrange(0, index + 1) =~= data2@.subrange(0, index as int).push(data2@[index as int]));
        index = index + 1;
    }
    assert(data2@.subrange(0, 3) =~= data2@);
    Ok(SetDiscPropertiesEvent { id, is_player, flags, data1, data2 })
}

/// A stadium decompressed from a set-stadium event: it must take up every byte.
pub open spec fn spec_set_stadium_contents(inflated: Seq<u8>) -> Result<SetStadiumEventView, DecodeErrorView> {
    match spec_stadium(inflated, 0) {
        Err(e) => Err(e.0),
        Ok((stadium, end)) => if end == inflated.len() {
            Ok(SetStadiumEventView { stadium })
        } else {
            Err(trailing_error("events.setStadium.inner"@, inflated.len() - end))
        },
    }
}

/// The event read from the decompressed bytes of a set-stadium event.
pub fn parse_set_stadium_contents(inflated: &[u8]) -> (r: Result<SetStadiumEvent, DecodeError>)
    ensures
        match spec_set_stadium_contents(inflated@) {
            Ok(v) => r matches Ok(x) && x@ == v,
            Err(e) => r matches Err(x) && x@ == e && is_read_error(e),
        },
{
    let mut stadium_reader = ReplayReader::new(inflated);
    let stadium = parse_stadium(&mut stadium_reader)?;
    stadium_reader.ensure_eof("events.setStadium.inner")?;
    Ok(SetStadiumEvent { stadium })
}

/// A set-stadium event: a 16-bit length, that many bytes of raw deflate data, and in them a
/// stadium that takes up every byte; `v` is whether the decompression outgrew the output limit.
pub open spec fn spec_set_stadium(b: Seq<u8>, p: int, v: OutputLimit) -> SpecRead<SetStadiumEventView> {
    match spec_u16(b, p, "events.setStadium.packedLength"@) {
        Err(e) => Err(e),
        Ok((n, at1)) => match spec_bytes(b, at1, n as int, "events.setStadium.packed"@) {
            Err(e) => Err(e),
            Ok((packed, at2)) => match inflate_outcome(packed, v, "events.setStadium.inflate"@) {
                Err(e) => Err((e, at2)),
                Ok(inflated) => match spec_set_stadium_contents(inflated) {
                    Err(e) => Err((e, at2)),
                    Ok(ev) => Ok((ev, at2)),
                },
            },
        },
    }
}

#[verifier::rlimit(40)]
fn parse_set_stadium(reader: &mut ReplayReader) -> (r: Result<SetStadiumEvent, DecodeError>)
    ensures
        exists|v: OutputLimit| read_as(old(reader)@, final(reader)@, #[trigger] spec_set_stadium(old(reader)@.bytes, old(reader)@.cursor, v), r),
{
    let packed_len = reader.read_u16("events.setStadium.packedLength")? as usize;
    let packed = reader.read_bytes(packed_len, "events.setStadium.packed")?;
    let inflated = inflate_raw(packed, "events.setStadium.inflate");
    let ghost v = choose|v: OutputLimit| crate::codec::inflate::bytes_result_is(inflated, inflate_outcome(packed@, v, "events.setStadium.inflate"@));
    let inflated = inflated?;
    let r = parse_set_stadium_contents(inflated.as_slice());
    assert(read_as(old(reader)@, final(reader)@, spec_set_stadium(old(reader)@.bytes, old(reader)@.cursor, v), r));
    r
}

/// A binary custom event decompressed: a 32-bit type, then the rest as data.
pub open spec fn spec_binary_custom_contents(inflated: Seq<u8>) -> Result<BinaryCustomEventView, DecodeErrorView> {
    match spec_u32(inflated, 0, "events.binaryCustomEvent.type"@) {
        Err(e) => Err(e.0),
        Ok((event_type, at)) => Ok(BinaryCustomEventView { event_type, data: inflated.subrange(at, inflated.len() as int) }),
    }
}

/// The event read from the decompressed bytes of a binary custom event.
pub fn parse_binary_custom_contents(inflated: &[u8]) -> (r: Result<BinaryCustomEvent, DecodeError>)
    ensures
        match spec_binary_custom_contents(inflated@) {
            Ok(v) => r matches Ok(x) && x@ == v,
            Err(e) => r matches Err(x) && x@ == e && is_read_error(e),
        },
{
    let mut inner = ReplayReader::new(inflated);
    let event_type = inner.read_u32("events.binaryCustomEvent.type")?;
    let data = inner.read_remaining_vec();
    Ok(BinaryCustomEvent { event_type, data })
}

/// A binary custom event: a 32-bit length, that many bytes of raw deflate data, and in them
/// the event; `v` is whether the decompression outgrew the output limit.
pub open spec fn spec_binary_custom(b: Seq<u8>, p: int, v: OutputLimit) -> SpecRead<BinaryCustomEventView> {
    match spec_u32(b, p, "events.binaryCustomEvent.packedLength"@) {
        Err(e) => Err(e),
        Ok((n, at1)) => match spec_bytes(b, at1, n as int, "events.binaryCustomEvent.packed"@) {
            Err(e) => Err(e),
            Ok((packed, at2)) => match inflate_outcome(packed, v, "events.binaryCustomEvent.inflate"@) {
                Err(e) => Err((e, at2)),
                Ok(inflated) => match spec_binary_custom_contents(inflated) {
                    Err(e) => Err((e, at2)),
                    Ok(ev) => Ok((ev, at2)),
                },
            },
        },
    }
}

#[verifier::rlimit(40)]
fn parse_binary_custom(reader: &mut ReplayReader) -> (r: Result<BinaryCustomEvent, DecodeError>)
    ensures
        exists|v: OutputLimit| read_as(old(reader)@, final(reader)@, #[trigger] spec_binary_custom(old(reader)@.bytes, old(reader)@.cursor, v), r),
{
    let packed_len = reader.read_u32("events.binaryCustomEvent.packedLength")? as usize;
    let packed = reader.read_bytes(packed_len, "events.binaryCustomEvent.packed")?;
    let inflated = inflate_raw(packed, "events.binaryCustomEvent.inflate");
    let ghost v = choose|v: OutputLimit| crate::codec::inflate::bytes_result_is(inflated, inflate_outcome(packed@, v, "events.binaryCustomEvent.inflate"@));
    let inflated = inflated?;
    let r = parse_binary_custom_contents(inflated.as_slice());
    assert(read_as(old(reader)@, final(reader)@, spec_binary_custom(old(reader)@.bytes, old(reader)@.cursor, v), r));
    r
}

/// The payload of an event whose reading involves no decompression, by event type; an
/// unknown type keeps the rest of the stream when `allow_unknown` is set, and is an error
/// otherwise.
pub open spec fn spec_plain_payload(b: Seq<u8>, p: int, event_type: u8, allow_unknown: bool) -> SpecRead<EventPayloadView> {
    if event_type == 0 {
        lift(spec_send_announcement(b, p), |e| EventPayloadView::SendAnnouncement(e))
    }
    else if event_type == 1 {
        lift(spec_send_chat_indicator(b, p), |e| EventPayloadView::SendChatIndicator(e))
    }
    else if event_type == 2 {
        lift(spec_check_consistency(b, p), |e| EventPayloadView::CheckConsistency(e))
    }
    else if event_type == 3 {
        lift(spec_send_input(b, p), |e| EventPayloadView::SendInput(e))
    }
    else if event_type == 4 {
        lift(spec_send_chat(b, p), |e| EventPayloadView::SendChat(e))
    }
    else if event_type == 5 {
        lift(spec_join_room(b, p), |e| EventPayloadView::JoinRoom(e))
    }
    else if event_type == 6 {
        lift(spec_kick_ban_player(b, p), |e| EventPayloadView::KickBanPlayer(e))
    }
    else if event_type == 7 {
        Ok((EventPayloadView::StartGame(StartGameEvent {}), p))
    }
    else if event_type == 8 {
        Ok((EventPayloadView::StopGame(StopGameEvent {}), p))
    }
    else if event_type == 9 {
        lift(spec_pause_resume_game(b, p), |e| EventPayloadView::PauseResumeGame(e))
    }
    else if event_type == 10 {
        lift(spec_set_game_play_limit(b, p), |e| EventPayloadView::SetGamePlayLimit(e))
    }
    else if event_type == 12 {
        lift(spec_set_player_team(b, p), |e| EventPayloadView::SetPlayerTeam(e))
    }
    else if event_type == 13 {
        lift(spec_set_teams_lock(b, p), |e| EventPayloadView::SetTeamsLock(e))
    }
    else if event_type == 14 {
        lift(spec_set_player_admin(b, p), |e| EventPayloadView::SetPlayerAdmin(e))
    }
    else if event_type == 15 {
        Ok((EventPayloadView::AutoTeams(AutoTeamsEvent {}), p))
    }
    else if event_type == 16 {
        lift(spec_set_player_sync(b, p), |e| EventPayloadView::SetPlayerSync(e))
    }
    else if event_type == 17 {
        lift(spec_ping(b, p), |e| EventPayloadView::Ping(e))
    }
    else if event_type == 18 {
        lift(spec_set_avatar(b, p), |e| EventPayloadView::SetAvatar(e))
    }
    else if event_type == 19 {
        lift(spec_set_team_colors(b, p), |e| EventPayloadView::SetTeamColors(e))
    }
    else if event_type == 20 {
        lift(spec_reorder_players(b, p), |e| EventPayloadView::ReorderPlayers(e))
    }
    else if event_type == 21 {
        lift(spec_set_kick_rate_limit(b, p), |e| EventPayloadView::SetKickRateLimit(e))
    }
    else if event_type == 22 {
        lift(spec_set_headless_avatar(b, p), |e| EventPayloadView::SetHeadlessAvatar(e))
    }
    else if event_type == 23 {
        lift(spec_set_disc_properties(b, p), |e| EventPayloadView::SetDiscProperties(e))
    }
    else if event_type == 24 {
        lift(spec_custom_event(b, p), |e| EventPayloadView::CustomEvent(e))
    }
    else if event_type == 26 {
        lift(spec_set_player_identity(b, p), |e| EventPayloadView::SetPlayerIdentity(e))
    }
    else if allow_unknown {
        Ok((EventPayloadView::Unknown { event_type, raw_payload: b.subrange(p, b.len() as int) }, b.len() as int))
    } else {
        Err((DecodeErrorView::UnsupportedEventType(event_type), p))
    }
}

/// The payload of an event of type `event_type`; `v` is how a decompression in it failed,
/// where one did.
pub open spec fn spec_event_payload(b: Seq<u8>, p: int, event_type: u8, allow_unknown: bool, v: OutputLimit) -> SpecRead<EventPayloadView> {
    if event_type == 11 {
        lift(spec_set_stadium(b, p, v), |e| EventPayloadView::SetStadium(e))
    } else if event_type == 25 {
        lift(spec_binary_custom(b, p, v), |e| EventPayloadView::BinaryCustomEvent(e))
    } else {
        spec_plain_payload(b, p, event_type, allow_unknown)
    }
}

/// [`spec_event_payload`] behind a closed definition, for the list of events, whose proofs
/// need no more of a payload than [`lemma_event_payload_unfold`] and the lemmas below give.
pub closed spec fn event_payload(b: Seq<u8>, p: int, event_type: u8, allow_unknown: bool, v: OutputLimit) -> SpecRead<EventPayloadView> {
    spec_event_payload(b, p, event_type, allow_unknown, v)
}

pub proof fn lemma_event_payload_unfold(b: Seq<u8>, p: int, event_type: u8, allow_unknown: bool, v: OutputLimit)
    ensures
        event_payload(b, p, event_type, allow_unknown, v) == spec_event_payload(b, p, event_type, allow_unknown, v),
{
}

pub open spec fn lift<T>(r: SpecRead<T>, f: spec_fn(T) -> EventPayloadView) -> SpecRead<EventPayloadView> {
    match r {
        Err(e) => Err(e),
        Ok((x, at)) => Ok((f(x), at)),
    }
}

fn parse_plain_payload(reader: &mut ReplayReader, event_type: u8, allow_unknown: bool) -> (r: Result<EventPayload, DecodeError>)
    requires
        event_type != 11 && event_type != 25,
        old(reader)@.cursor <= old(reader)@.bytes.len(),
    ensures
        read_as(old(reader)@, final(reader)@, spec_plain_payload(old(reader)@.bytes, old(reader)@.cursor, event_type, allow_unknown), r),
        !allow_unknown && event_type > 26 ==> final(reader)@ == old(reader)@,
{
    let payload = match event_type {
        0 => EventPayload::SendAnnouncement(parse_send_announcement(reader)?),
        1 => EventPayload::SendChatIndicator(parse_send_chat_indicator(reader)?),
        2 => EventPayload::CheckConsistency(parse_check_consistency(reader)?),
        3 => EventPayload::SendInput(parse_send_input(reader)?),
        4 => EventPayload::SendChat(parse_send_chat(reader)?),
        5 => EventPayload::JoinRoom(parse_join_room(reader)?),
        6 => EventPayload::KickBanPlayer(parse_kick_ban_player(reader)?),
        7 => EventPayload::StartGame(StartGameEvent {}),
        8 => EventPayload::StopGame(StopGameEvent {}),
        9 => EventPayload::PauseResumeGame(parse_pause_resume_game(reader)?),
        10 => EventPayload::SetGamePlayLimit(parse_set_game_play_limit(reader)?),
        12 => EventPayload::SetPlayerTeam(parse_set_player_team(reader)?),
        13 => EventPayload::SetTeamsLock(parse_set_teams_lock(reader)?),
        14 => EventPayload::SetPlayerAdmin(parse_set_player_admin(reader)?),
        15 => EventPayload::AutoTeams(AutoTeamsEvent {}),
        16 => EventPayload::SetPlayerSync(parse_set_player_sync(reader)?),
        17 => EventPayload::Ping(parse_ping(reader)?),
        18 => EventPayload::SetAvatar(parse_set_avatar(reader)?),
        19 => EventPayload::SetTeamColors(parse_set_team_colors(reader)?),
        20 => EventPayload::ReorderPlayers(parse_reorder_players(reader)?),
        21 => EventPayload::SetKickRateLimit(parse_set_kick_rate_limit(reader)?),
        22 => EventPayload::SetHeadlessAvatar(parse_set_headless_avatar(reader)?),
        23 => EventPayload::SetDiscProperties(parse_set_disc_properties(reader)?),
        24 => EventPayload::CustomEvent(parse_custom_event(reader)?),
        26 => EventPayload::SetPlayerIdentity(parse_set_player_identity(reader)?),
        _ => {
            if allow_unknown {
                let raw_payload = reader.read_remaining_vec();
                EventPayload::Unknown { event_type, raw_payload }
            } else {
                return Err(DecodeError::UnsupportedEventType(event_type));
            }
        },
    };
    Ok(payload)
}

/// Reads the payload of an event of type `event_type`. An event of a type the format does
/// not define is refused, before anything is read, unless `allow_unknown_event_types` is set.
pub fn parse_event_payload(reader: &mut ReplayReader, event_type: u8, allow_unknown_event_types: bool) -> (r: Result<EventPayload, DecodeError>)
    requires
        old(reader)@.cursor <= old(reader)@.bytes.len(),
    ensures
        exists|f: OutputLimit|
            read_as(
                old(reader)@,
                final(reader)@,
                #[trigger] spec_event_payload(old(reader)@.bytes, old(reader)@.cursor, event_type, allow_unknown_event_types, f),
                r,
            ),
        !allow_unknown_event_types && event_type > 26 ==> final(reader)@ == old(reader)@,
{
    if event_type == 11 {
        let r = parse_set_stadium(reader);
        let ghost f = choose|f: OutputLimit| read_as(old(reader)@, reader@, #[trigger] spec_set_stadium(old(reader)@.bytes, old(reader)@.cursor, f), r);
        let r = match r {
            Ok(e) => Ok(EventPayload::SetStadium(e)),
            Err(e) => Err(e),
        };
        assert(read_as(old(reader)@, reader@, spec_event_payload(old(reader)@.bytes, old(reader)@.cursor, event_type, allow_unknown_event_types, f), r));
        r
    } else if event_type == 25 {
        let r = parse_binary_custom(reader);
        let ghost f = choose|f: OutputLimit| read_as(old(reader)@, reader@, #[trigger] spec_binary_custom(old(reader)@.bytes, old(reader)@.cursor, f), r);
        let r = match r {
            Ok(e) => Ok(EventPayload::BinaryCustomEvent(e)),
            Err(e) => Err(e),
        };
        assert(read_as(old(reader)@, reader@, spec_event_payload(old(reader)@.bytes, old(reader)@.cursor, event_type, allow_unknown_event_types, f), r));
        r
    } else {
        let r = parse_plain_payload(reader, event_type, allow_unknown_event_types);
        assert(read_as(old(reader)@, reader@, spec_event_payload(old(reader)@.bytes, old(reader)@.cursor, event_type, allow_unknown_event_types, OutputLimit::Within), r));
        r
    }
}

/// A payload read for type byte `t` reports `t` as its type byte: `event_type_u8` gives
/// back the byte the event was read with.
#[verifier::rlimit(40)]
pub proof fn lemma_payload_type_byte(b: Seq<u8>, p: int, t: u8, allow_unknown: bool, v: OutputLimit)
    requires
        spec_event_payload(b, p, t, allow_unknown, v) is Ok,
    ensures
        payload_type_byte(spec_event_payload(b, p, t, allow_unknown, v)->Ok_0.0) == t,
{
}

/// A payload of an unknown type takes every byte that is left, and is read only with
/// permission for unknown types.
pub proof fn lemma_unknown_payload_takes_rest(b: Seq<u8>, p: int, t: u8, allow_unknown: bool, v: OutputLimit)
    requires
        event_payload(b, p, t, allow_unknown, v) matches Ok((payload, _)) && payload is Unknown,
    ensures
        event_payload(b, p, t, allow_unknown, v)->Ok_0.1 == b.len(),
        allow_unknown,
{
}

/// Allowing unknown event types changes nothing for a payload that is read without it.
pub proof fn lemma_allow_unknown_keeps_known(b: Seq<u8>, p: int, t: u8, v: OutputLimit)
    requires
        event_payload(b, p, t, false, v) is Ok,
    ensures
        event_payload(b, p, t, true, v) == event_payload(b, p, t, false, v),
{
}

/// Whether a payload is read, and what is read, does not depend on whether a
/// decompression in it outgrew the output limit.
pub proof fn lemma_payload_limit_irrelevant(b: Seq<u8>, p: int, t: u8, allow_unknown: bool, f: OutputLimit, g: OutputLimit)
    ensures
        event_payload(b, p, t, allow_unknown, f) is Ok == event_payload(b, p, t, allow_unknown, g) is Ok,
        event_payload(b, p, t, allow_unknown, f) is Ok ==> event_payload(b, p, t, allow_unknown, f)
            == event_payload(b, p, t, allow_unknown, g),
{
}

} // verus!
