//! The rules a decoded replay is checked against.
use vstd::prelude::*;
use vstd::string::StringExecFns;

use crate::error::{describes_error, DecodeError, DecodeErrorView};
use crate::options::ValidationProfile;
use crate::text::{decimal, hex4, index_context, indexed, join, push_decimal, push_hex4, push_signed_decimal, signed_decimal};
use crate::types::enums::{BackgroundType, CameraFollow, GamePlayState};
use crate::types::events::{EventPayload, EventPayloadView};
use crate::types::replay::{GoalMarker, ReplayData, ReplayDataView, ReplayEvent, ReplayEventView};
use crate::types::room::{GameStateView, Player, PlayerView};
use crate::validate::{IssueView, ValidationIssue, ValidationReport, ValidationSeverity};

verus! {

pub open spec fn issue_view(code: Seq<char>, severity: ValidationSeverity, path: Seq<char>, message: Seq<char>) -> IssueView {
    IssueView { code, severity, path, message }
}

/// The one issue `i` when `c` holds, none otherwise.
pub open spec fn issue_if(c: bool, i: IssueView) -> Seq<IssueView> {
    if c { seq![i] } else { Seq::empty() }
}

/// A team id is 0, 1 or 2.
pub open spec fn valid_team(t: int) -> bool {
    0 <= t <= 2
}

pub open spec fn team_message(t: int) -> Seq<char> {
    "team id "@ + signed_decimal(t) + " is outside expected range [0, 2]"@
}

pub open spec fn team_issue(path: Seq<char>, t: int) -> IssueView {
    issue_view("INVALID_TEAM_ID"@, ValidationSeverity::Error, path, team_message(t))
}

/// The version rule: only version 3 is supported; an error under `Strict`, a warning under
/// `StructuralOnly`.
pub open spec fn version_issues(version: u32, profile: ValidationProfile) -> Seq<IssueView> {
    issue_if(
        version != 3,
        issue_view(
            "UNSUPPORTED_VERSION"@,
            if profile == ValidationProfile::Strict { ValidationSeverity::Error } else { ValidationSeverity::Warning },
            "version"@,
            "only replay version 3 is supported in v1, got "@ + decimal(version as nat),
        ),
    )
}

/// The frame of the goal marker before marker `j`, 0 for the first.
pub open spec fn previous_marker_frame(markers: Seq<GoalMarker>, j: int) -> u32 {
    if j == 0 { 0 } else { markers[j - 1].frame_no }
}

/// The issues of goal marker `j`: a frame before the previous marker's, a frame past the
/// last frame, a team id outside 0 to 2.
pub open spec fn marker_issues(markers: Seq<GoalMarker>, total_frames: u32, j: int) -> Seq<IssueView> {
    let m = markers[j];
    let base = index_context("goalMarkers"@, j as nat);
    issue_if(
        m.frame_no < previous_marker_frame(markers, j),
        issue_view("GOAL_FRAME_NOT_MONOTONIC"@, ValidationSeverity::Error, base + ".frameNo"@, "goal marker frame numbers must be monotonic non-decreasing"@),
    ) + issue_if(
        m.frame_no > total_frames,
        issue_view(
            "GOAL_FRAME_OUT_OF_BOUNDS"@,
            ValidationSeverity::Error,
            base + ".frameNo"@,
            "goal marker frame "@ + decimal(m.frame_no as nat) + " exceeds total frames "@ + decimal(total_frames as nat),
        ),
    ) + issue_if(!valid_team(m.team_id as int), team_issue(base + ".teamId"@, m.team_id as int))
}

/// The issues of the first `n` goal markers, in order.
pub open spec fn markers_issues(markers: Seq<GoalMarker>, total_frames: u32, n: int) -> Seq<IssueView>
    decreases n,
{
    if n <= 0 { Seq::empty() } else { markers_issues(markers, total_frames, n - 1) + marker_issues(markers, total_frames, n - 1) }
}

/// The frame of the event before event `j`, 0 for the first.
pub open spec fn previous_event_frame(events: Seq<ReplayEventView>, j: int) -> u32 {
    if j == 0 { 0 } else { events[j - 1].frame_no }
}

/// The issues of the payload of event `j`: a team id outside 0 to 2 in a team or colors
/// change, flag bits above bit 12 in a disc-properties change, and (as a warning) a payload
/// of an unknown type.
pub open spec fn payload_issues(payload: EventPayloadView, j: int) -> Seq<IssueView> {
    let base = index_context("events"@, j as nat);
    match payload {
        EventPayloadView::SetPlayerTeam(p) => issue_if(!valid_team(p.team_id as int), team_issue(base + ".payload.teamId"@, p.team_id as int)),
        EventPayloadView::SetTeamColors(p) => issue_if(!valid_team(p.team_id as int), team_issue(base + ".payload.teamId"@, p.team_id as int)),
        EventPayloadView::SetDiscProperties(p) => issue_if(
            p.flags & 0xe000u16 != 0,
            issue_view(
                "INVALID_DISC_PROPERTIES_FLAGS"@,
                ValidationSeverity::Error,
                base + ".payload.flags"@,
                "unexpected flag bits are set: "@ + hex4(p.flags & 0xe000u16),
            ),
        ),
        EventPayloadView::Unknown { event_type, .. } => seq![
            issue_view(
                "UNKNOWN_EVENT_TYPE"@,
                ValidationSeverity::Warning,
                base + ".eventType"@,
                "unknown event type "@ + decimal(event_type as nat) + " was preserved as raw payload"@,
            ),
        ],
        _ => Seq::empty(),
    }
}

/// The issues of event `j`: a frame before the previous event's, a frame past the last
/// frame, then those of its payload.
pub open spec fn event_issues(events: Seq<ReplayEventView>, total_frames: u32, j: int) -> Seq<IssueView> {
    let e = events[j];
    let base = index_context("events"@, j as nat);
    issue_if(
        e.frame_no < previous_event_frame(events, j),
        issue_view("EVENT_FRAME_NOT_MONOTONIC"@, ValidationSeverity::Error, base + ".frameNo"@, "event frame numbers must be monotonic non-decreasing"@),
    ) + issue_if(
        e.frame_no > total_frames,
        issue_view(
            "EVENT_FRAME_OUT_OF_BOUNDS"@,
            ValidationSeverity::Error,
            base + ".frameNo"@,
            "event frame "@ + decimal(e.frame_no as nat) + " exceeds total frames "@ + decimal(total_frames as nat),
        ),
    ) + payload_issues(e.payload, j)
}

/// The issues of the first `n` events, in order.
pub open spec fn events_issues(events: Seq<ReplayEventView>, total_frames: u32, n: int) -> Seq<IssueView>
    decreases n,
{
    if n <= 0 { Seq::empty() } else { events_issues(events, total_frames, n - 1) + event_issues(events, total_frames, n - 1) }
}

/// A player's disc index must be -1 (no disc) or the index of a disc of the game.
pub open spec fn disc_index_issue(players: Seq<PlayerView>, discs: nat, j: int) -> Seq<IssueView> {
    let d = players[j].disc_index as int;
    issue_if(
        d != -1 && (d < -1 || d >= discs),
        issue_view(
            "INVALID_PLAYER_DISC_INDEX"@,
            ValidationSeverity::Error,
            index_context("roomData.players"@, j as nat) + ".discIndex"@,
            "disc index "@ + signed_decimal(d) + " is invalid for game state with "@ + decimal(discs) + " discs"@,
        ),
    )
}

pub open spec fn disc_index_issues(players: Seq<PlayerView>, discs: nat, n: int) -> Seq<IssueView>
    decreases n,
{
    if n <= 0 { Seq::empty() } else { disc_index_issues(players, discs, n - 1) + disc_index_issue(players, discs, n - 1) }
}

pub open spec fn player_team_issues(players: Seq<PlayerView>, n: int) -> Seq<IssueView>
    decreases n,
{
    if n <= 0 {
        Seq::empty()
    } else {
        player_team_issues(players, n - 1) + issue_if(
            !valid_team(players[n - 1].team_id as int),
            team_issue(index_context("roomData.players"@, (n - 1) as nat) + ".teamId"@, players[n - 1].team_id as int),
        )
    }
}

/// The issues of a game in progress: an undefined phase, a conceding team outside 0 to 2,
/// then the players' disc indices.
pub open spec fn game_issues(g: GameStateView, players: Seq<PlayerView>) -> Seq<IssueView> {
    (match g.state {
        GamePlayState::Unknown(v) => seq![
            issue_view(
                "UNKNOWN_GAME_STATE"@,
                ValidationSeverity::Error,
                "roomData.gameState.state"@,
                "unknown game play state value "@ + signed_decimal(v as int),
            ),
        ],
        _ => Seq::empty(),
    }) + issue_if(
        !valid_team(g.goal_conceding_team as int),
        team_issue("roomData.gameState.goalConcedingTeam"@, g.goal_conceding_team as int),
    ) + disc_index_issues(players, g.discs.len(), players.len() as int)
}

/// The issues of the room: those of the game in progress, the players' team ids, and
/// undefined background and camera codes of the stadium.
pub open spec fn room_issues(r: ReplayDataView) -> Seq<IssueView> {
    let room = r.room_data;
    (match room.game_state {
        Some(g) => game_issues(g, room.players),
        None => Seq::empty(),
    }) + player_team_issues(room.players, room.players.len() as int) + (match room.stadium.background_type {
        Some(BackgroundType::Unknown(v)) => seq![
            issue_view(
                "UNKNOWN_BACKGROUND_TYPE"@,
                ValidationSeverity::Error,
                "roomData.stadium.backgroundType"@,
                "unknown background type value "@ + signed_decimal(v as int),
            ),
        ],
        _ => Seq::empty(),
    }) + (match room.stadium.camera_follow {
        Some(CameraFollow::Unknown(v)) => seq![
            issue_view(
                "UNKNOWN_CAMERA_FOLLOW"@,
                ValidationSeverity::Error,
                "roomData.stadium.cameraFollow"@,
                "unknown camera follow value "@ + decimal(v as nat),
            ),
        ],
        _ => Seq::empty(),
    })
}

/// Every issue of a decoded replay under `profile`, in the order they are reported.
pub open spec fn replay_issues(r: ReplayDataView, profile: ValidationProfile) -> Seq<IssueView> {
    version_issues(r.version, profile) + if profile == ValidationProfile::StructuralOnly {
        Seq::empty()
    } else {
        markers_issues(r.goal_markers, r.total_frames, r.goal_markers.len() as int) + events_issues(
            r.events,
            r.total_frames,
            r.events.len() as int,
        ) + room_issues(r)
    }
}

/// An issue with these fields.
pub fn issue(code: &str, severity: ValidationSeverity, path: String, message: String) -> (i: ValidationIssue)
    ensures
        i@ == issue_view(code@, severity, path@, message@),
{
    ValidationIssue { code: String::from_str(code), severity, path, message }
}

pub fn is_valid_team_u8(value: u8) -> (b: bool)
    ensures
        b == valid_team(value as int),
{
    value <= 2
}

pub fn is_valid_team_i8(value: i8) -> (b: bool)
    ensures
        b == valid_team(value as int),
{
    0 <= value && value <= 2
}

fn team_id_issue(path: String, team: i64) -> (i: ValidationIssue)
    ensures
        i@ == team_issue(path@, team as int),
{
    let mut message = String::from_str("team id ");
    push_signed_decimal(&mut message, team);
    message.append(" is outside expected range [0, 2]");
    issue("INVALID_TEAM_ID", ValidationSeverity::Error, path, message)
}

/// Checks a decoded replay against the rules of `profile`.
pub fn validate_replay_data(replay: &ReplayData, profile: ValidationProfile) -> (report: ValidationReport)
    ensures
        report@.profile == profile,
        report@.issues == replay_issues(replay@, profile),
{
    let mut report = ValidationReport::new(profile);
    if replay.version != 3 {
        let severity = match profile {
            ValidationProfile::Strict => ValidationSeverity::Error,
            ValidationProfile::StructuralOnly => ValidationSeverity::Warning,
        };
        let mut message = String::from_str("only replay version 3 is supported in v1, got ");
        push_decimal(&mut message, replay.version as u64);
        report.push(issue("UNSUPPORTED_VERSION", severity, String::from_str("version"), message));
    }
    assert(report@.issues =~= version_issues(replay.version, profile));
    if matches!(profile, ValidationProfile::StructuralOnly) {
        assert(report@.issues =~= replay_issues(replay@, profile));
        return report;
    }
    let ghost after_version = report@.issues;
    validate_goal_markers(replay, &mut report);
    let ghost after_markers = report@.issues;
    validate_events(replay, &mut report);
    let ghost after_events = report@.issues;
    validate_room(replay, &mut report);
    assert(report@.issues =~= replay_issues(replay@, profile));
    report
}

#[verifier::loop_isolation(false)]
fn validate_goal_markers(replay: &ReplayData, report: &mut ValidationReport)
    ensures
        final(report)@.profile == old(report)@.profile,
        final(report)@.issues == old(report)@.issues + markers_issues(
            replay@.goal_markers,
            replay.total_frames,
            replay@.goal_markers.len() as int,
        ),
{
    let ghost markers = replay@.goal_markers;
    let mut previous_frame: u32 = 0;
    let mut index: usize = 0;
    assert(old(report)@.issues + markers_issues(markers, replay.total_frames, 0) =~= old(report)@.issues);
    while index < replay.goal_markers.len()
        invariant
            index <= markers.len(),
            markers == replay.goal_markers@,
            report@.profile == old(report)@.profile,
            report@.issues == old(report)@.issues + markers_issues(markers, replay.total_frames, index as int),
            previous_frame == previous_marker_frame(markers, index as int),
        decreases markers.len() - index,
    {
        let ghost before = report@.issues;
        let marker = replay.goal_markers[index];
        let base = indexed("goalMarkers", index);
        if marker.frame_no < previous_frame {
            report.push(issue(
                "GOAL_FRAME_NOT_MONOTONIC",
                ValidationSeverity::Error,
                join(base.as_str(), ".frameNo"),
                String::from_str("goal marker frame numbers must be monotonic non-decreasing"),
            ));
        }
        if marker.frame_no > replay.total_frames {
            let mut message = String::from_str("goal marker frame ");
            push_decimal(&mut message, marker.frame_no as u64);
            message.append(" exceeds total frames ");
            push_decimal(&mut message, replay.total_frames as u64);
            report.push(issue("GOAL_FRAME_OUT_OF_BOUNDS", ValidationSeverity::Error, join(base.as_str(), ".frameNo"), message));
        }
        if !is_valid_team_u8(marker.team_id) {
            report.push(team_id_issue(join(base.as_str(), ".teamId"), marker.team_id as i64));
        }
        assert(report@.issues =~= before + marker_issues(markers, replay.total_frames, index as int));
        previous_frame = marker.frame_no;
        index = index + 1;
    }
}

#[verifier::loop_isolation(false)]
fn validate_events(replay: &ReplayData, report: &mut ValidationReport)
    ensures
        final(report)@.profile == old(report)@.profile,
        final(report)@.issues == old(report)@.issues + events_issues(replay@.events, replay.total_frames, replay@.events.len() as int),
{
    let ghost events = replay@.events;
    let mut previous_frame: u32 = 0;
    let mut index: usize = 0;
    assert(old(report)@.issues + events_issues(events, replay.total_frames, 0) =~= old(report)@.issues);
    while index < replay.events.len()
        invariant
            index <= events.len(),
            events == replay@.events,
            events.len() == replay.events@.len(),
            report@.profile == old(report)@.profile,
            report@.issues == old(report)@.issues + events_issues(events, replay.total_frames, index as int),
            previous_frame == previous_event_frame(events, index as int),
        decreases events.len() - index,
    {
        let ghost before = report@.issues;
        let event = &replay.events[index];
        assert(event@ == events[index as int]);
        validate_event_frame(replay, report, index, event, &mut previous_frame);
        validate_event_payload(report, index, event);
        assert(report@.issues =~= before + event_issues(events, replay.total_frames, index as int));
        index = index + 1;
    }
}

fn validate_event_frame(replay: &ReplayData, report: &mut ValidationReport, index: usize, event: &ReplayEvent, previous_frame: &mut u32)
    ensures
        final(report)@.profile == old(report)@.profile,
        *final(previous_frame) == event.frame_no,
        final(report)@.issues == old(report)@.issues + issue_if(
            event.frame_no < *old(previous_frame),
            issue_view(
                "EVENT_FRAME_NOT_MONOTONIC"@,
                ValidationSeverity::Error,
                index_context("events"@, index as nat) + ".frameNo"@,
                "event frame numbers must be monotonic non-decreasing"@,
            ),
        ) + issue_if(
            event.frame_no > replay.total_frames,
            issue_view(
                "EVENT_FRAME_OUT_OF_BOUNDS"@,
                ValidationSeverity::Error,
                index_context("events"@, index as nat) + ".frameNo"@,
                "event frame "@ + decimal(event.frame_no as nat) + " exceeds total frames "@ + decimal(
                    replay.total_frames as nat,
                ),
            ),
        ),
{
    let ghost start = report@.issues;
    let base = indexed("events", index);
    if event.frame_no < *previous_frame {
        report.push(issue(
            "EVENT_FRAME_NOT_MONOTONIC",
            ValidationSeverity::Error,
            join(base.as_str(), ".frameNo"),
            String::from_str("event frame numbers must be monotonic non-decreasing"),
        ));
    }
    if event.frame_no > replay.total_frames {
        let mut message = String::from_str("event frame ");
        push_decimal(&mut message, event.frame_no as u64);
        message.append(" exceeds total frames ");
        push_decimal(&mut message, replay.total_frames as u64);
        report.push(issue("EVENT_FRAME_OUT_OF_BOUNDS", ValidationSeverity::Error, join(base.as_str(), ".frameNo"), message));
    }
    *previous_frame = event.frame_no;
    assert(report@.issues =~= start + issue_if(
        event.frame_no < *old(previous_frame),
        issue_view(
            "EVENT_FRAME_NOT_MONOTONIC"@,
            ValidationSeverity::Error,
            index_context("events"@, index as nat) + ".frameNo"@,
            "event frame numbers must be monotonic non-decreasing"@,
        ),
    ) + issue_if(
        event.frame_no > replay.total_frames,
        issue_view(
            "EVENT_FRAME_OUT_OF_BOUNDS"@,
            ValidationSeverity::Error,
            index_context("events"@, index as nat) + ".frameNo"@,
            "event frame "@ + decimal(event.frame_no as nat) + " exceeds total frames "@ + decimal(replay.total_frames as nat),
        ),
    ));
}

fn validate_event_payload(report: &mut ValidationReport, index: usize, event: &ReplayEvent)
    ensures
        final(report)@.profile == old(report)@.profile,
        final(report)@.issues == old(report)@.issues + payload_issues(event.payload@, index as int),
{
    let ghost start = report@.issues;
    let base = indexed("events", index);
    match &event.payload {
        EventPayload::SetPlayerTeam(payload) => {
            if !is_valid_team_i8(payload.team_id) {
                report.push(team_id_issue(join(base.as_str(), ".payload.teamId"), payload.team_id as i64));
            }
        },
        EventPayload::SetTeamColors(payload) => {
            if !is_valid_team_i8(payload.team_id) {
                report.push(team_id_issue(join(base.as_str(), ".payload.teamId"), payload.team_id as i64));
            }
        },
        EventPayload::SetDiscProperties(payload) => {
            let unexpected = payload.flags & 0xe000;
            if unexpected != 0 {
                let mut message = String::from_str("unexpected flag bits are set: ");
                push_hex4(&mut message, unexpected);
                report.push(issue("INVALID_DISC_PROPERTIES_FLAGS", ValidationSeverity::Error, join(base.as_str(), ".payload.flags"), message));
            }
        },
        EventPayload::Unknown { event_type, .. } => {
            let mut message = String::from_str("unknown event type ");
            push_decimal(&mut message, *event_type as u64);
            message.append(" was preserved as raw payload");
            report.push(issue("UNKNOWN_EVENT_TYPE", ValidationSeverity::Warning, join(base.as_str(), ".eventType"), message));
        },
        _ => {},
    }
    assert(report@.issues =~= start + payload_issues(event.payload@, index as int));
}

#[verifier::loop_isolation(false)]
fn validate_player_disc_indices(players: &Vec<Player>, disc_count: usize, report: &mut ValidationReport)
    ensures
        final(report)@.profile == old(report)@.profile,
        final(report)@.issues == old(report)@.issues + disc_index_issues(
            players@.map_values(|p: Player| p@),
            disc_count as nat,
            players@.len() as int,
        ),
{
    let ghost views = players@.map_values(|p: Player| p@);
    let mut index: usize = 0;
    assert(old(report)@.issues + disc_index_issues(views, disc_count as nat, 0) =~= old(report)@.issues);
    while index < players.len()
        invariant
            index <= players@.len(),
            views == players@.map_values(|p: Player| p@),
            report@.profile == old(report)@.profile,
            report@.issues == old(report)@.issues + disc_index_issues(views, disc_count as nat, index as int),
        decreases players@.len() - index,
    {
        let ghost before = report@.issues;
        let disc_index = players[index].disc_index;
        assert(views[index as int].disc_index == disc_index);
        if disc_index != -1 {
            if disc_index < -1 || disc_index as usize >= disc_count {
                let mut message = String::from_str("disc index ");
                push_signed_decimal(&mut message, disc_index as i64);
                message.append(" is invalid for game state with ");
                push_decimal(&mut message, disc_count as u64);
                message.append(" discs");
                let path = join(indexed("roomData.players", index).as_str(), ".discIndex");
                report.push(issue("INVALID_PLAYER_DISC_INDEX", ValidationSeverity::Error, path, message));
            }
        }
        assert(report@.issues =~= before + disc_index_issue(views, disc_count as nat, index as int));
        index = index + 1;
    }
}

#[verifier::loop_isolation(false)]
fn validate_player_teams(players: &Vec<Player>, report: &mut ValidationReport)
    ensures
        final(report)@.profile == old(report)@.profile,
        final(report)@.issues == old(report)@.issues + player_team_issues(
            players@.map_values(|p: Player| p@),
            players@.len() as int,
        ),
{
    let ghost views = players@.map_values(|p: Player| p@);
    let mut index: usize = 0;
    assert(old(report)@.issues + player_team_issues(views, 0) =~= old(report)@.issues);
    while index < players.len()
        invariant
            index <= players@.len(),
            views == players@.map_values(|p: Player| p@),
            report@.profile == old(report)@.profile,
            report@.issues == old(report)@.issues + player_team_issues(views, index as int),
        decreases players@.len() - index,
    {
        let ghost before = report@.issues;
        let team_id = players[index].team_id;
        assert(views[index as int].team_id == team_id);
        if !is_valid_team_u8(team_id) {
            let path = join(indexed("roomData.players", index).as_str(), ".teamId");
            report.push(team_id_issue(path, team_id as i64));
        }
        assert(report@.issues =~= before + issue_if(
            !valid_team(views[index as int].team_id as int),
            team_issue(index_context("roomData.players"@, index as nat) + ".teamId"@, views[index as int].team_id as int),
        ));
        index = index + 1;
    }
}

fn validate_room(replay: &ReplayData, report: &mut ValidationReport)
    ensures
        final(report)@.profile == old(report)@.profile,
        final(report)@.issues == old(report)@.issues + room_issues(replay@),
{
    let ghost start = report@.issues;
    let room = &replay.room_data;
    if let Some(state) = &room.game_state {
        if let GamePlayState::Unknown(value) = state.state {
            let mut message = String::from_str("unknown game play state value ");
            push_signed_decimal(&mut message, value as i64);
            report.push(issue("UNKNOWN_GAME_STATE", ValidationSeverity::Error, String::from_str("roomData.gameState.state"), message));
        }
        if !is_valid_team_u8(state.goal_conceding_team) {
            report.push(team_id_issue(String::from_str("roomData.gameState.goalConcedingTeam"), state.goal_conceding_team as i64));
        }
        validate_player_disc_indices(&room.players, state.discs.len(), report);
    }
    let ghost after_game = report@.issues;
    validate_player_teams(&room.players, report);
    if let Some(background_type) = room.stadium.background_type {
        if let BackgroundType::Unknown(value) = background_type {
            let mut message = String::from_str("unknown background type value ");
            push_signed_decimal(&mut message, value as i64);
            report.push(issue("UNKNOWN_BACKGROUND_TYPE", ValidationSeverity::Error, String::from_str("roomData.stadium.backgroundType"), message));
        }
    }
    if let Some(camera_follow) = room.stadium.camera_follow {
        if let CameraFollow::Unknown(value) = camera_follow {
            let mut message = String::from_str("unknown camera follow value ");
            push_decimal(&mut message, value as u64);
            report.push(issue("UNKNOWN_CAMERA_FOLLOW", ValidationSeverity::Error, String::from_str("roomData.stadium.cameraFollow"), message));
        }
    }
    assert(report@.issues =~= start + room_issues(replay@));
}

/// The name of a profile in messages.
pub open spec fn profile_name(profile: ValidationProfile) -> Seq<char> {
    match profile {
        ValidationProfile::Strict => "Strict"@,
        ValidationProfile::StructuralOnly => "Structural"@,
    }
}

/// `i` is the issue that reports the decoding error `e` under `profile`.
pub open spec fn decode_issue(i: IssueView, profile: ValidationProfile, e: DecodeErrorView) -> bool {
    &&& i.code == "DECODE_ERROR"@
    &&& i.severity == ValidationSeverity::Error
    &&& i.path == "/"@
    &&& exists|t: Seq<char>| #[trigger] describes_error(e, t) && i.message == profile_name(profile)
        + " validation failed during decoding: "@ + t
}

/// The issue that reports a replay that could not be decoded.
pub fn issue_from_decode_error(profile: ValidationProfile, error: &DecodeError) -> (i: ValidationIssue)
    ensures
        decode_issue(i@, profile, error@),
{
    let mut message = match profile {
        ValidationProfile::Strict => String::from_str("Strict"),
        ValidationProfile::StructuralOnly => String::from_str("Structural"),
    };
    message.append(" validation failed during decoding: ");
    let text = error.message();
    message.append(text.as_str());
    let i = issue("DECODE_ERROR", ValidationSeverity::Error, String::from_str("/"), message);
    assert(describes_error(error@, text@));
    i
}

} // verus!
