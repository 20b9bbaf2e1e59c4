//! Properties of the decoder and the validator as a whole.
use vstd::prelude::*;

use crate::codec::inflate::OutputLimit;
use crate::codec::primitives::spec_team_colors;
use crate::codec::room::{player_item, spec_optional_game, spec_players};
use crate::codec::replay::{decoded_replay, lemma_replay_allow_unknown};
use crate::{decoded, validation_report_is};
use crate::options::ValidationProfile;
use crate::types::replay::ReplayDataView;
use crate::validate::{error_total, errors_in, no_errors, IssueView, ReportView, ValidationSeverity};
use crate::types::enums::{
    background_code, background_of_code, camera_code, camera_of_code, game_play_state_code, game_play_state_of_code,
    operation_code, operation_of_code, BackgroundType, CameraFollow, GamePlayState, OperationType,
};
use crate::codec::events::spec_event_payload;
use crate::codec::stadium::default_stadium_name_spec;
use crate::types::events::EventPayloadView;
use crate::text::{decimal, index_context};
use crate::types::room::{GameStateView, PlayerView};
use crate::types::replay::ReplayEventView;
use crate::types::replay::GoalMarker;
use crate::validate::rules::{
    disc_index_issues, event_issues, events_issues, game_issues, marker_issues, markers_issues, payload_issues,
    issue_if, issue_view, team_issue, player_team_issues, previous_event_frame, previous_marker_frame, replay_issues, room_issues, valid_team,
    version_issues,
};
use crate::types::room::RoomStateView;

verus! {

proof fn lemma_errors_in_zero(issues: Seq<IssueView>, n: int)
    requires
        0 <= n <= issues.len(),
    ensures
        errors_in(issues, n) == 0 <==> forall|i: int| 0 <= i < n ==> #[trigger] issues[i].severity != ValidationSeverity::Error,
    decreases n,
{
    if n > 0 {
        lemma_errors_in_zero(issues, n - 1);
    }
}

/// A report is valid exactly when it counts no errors: `is_valid` and `error_count() == 0`
/// agree.
pub proof fn lemma_valid_iff_no_error_count(issues: Seq<IssueView>)
    ensures
        no_errors(issues) <==> error_total(issues) == 0,
{
    lemma_errors_in_zero(issues, issues.len() as int);
}

/// A replay that decoding returns has version 3 and breaks no rule of the profile with an
/// error.
pub proof fn lemma_decoded_replay_is_valid(bytes: Seq<u8>, profile: ValidationProfile, allow_unknown: bool)
    requires
        decoded(bytes, profile, allow_unknown) is Some,
    ensures
        decoded(bytes, profile, allow_unknown)->Some_0.version == 3,
        no_errors(replay_issues(decoded(bytes, profile, allow_unknown)->Some_0, profile)),
{
}

/// Under the structural profile the only possible issue is a warning about the version,
/// so validation never rejects a replay that could be decoded.
pub proof fn lemma_structural_profile_has_no_errors(r: ReplayDataView)
    ensures
        replay_issues(r, ValidationProfile::StructuralOnly) == version_issues(r.version, ValidationProfile::StructuralOnly),
        no_errors(replay_issues(r, ValidationProfile::StructuralOnly)),
{
    assert(replay_issues(r, ValidationProfile::StructuralOnly) =~= version_issues(r.version, ValidationProfile::StructuralOnly));
}

/// A replay that `decode` accepts, `validate` reports valid.
pub proof fn lemma_decoded_replay_validates(bytes: Seq<u8>, report: ReportView)
    requires
        decoded(bytes, ValidationProfile::Strict, false) is Some,
        validation_report_is(report, bytes, ValidationProfile::Strict),
    ensures
        no_errors(report.issues),
{
    lemma_replay_allow_unknown(bytes, OutputLimit::Within, Seq::empty());
}

/// Under the strict rules, with events of unknown types kept, decoding succeeds exactly
/// when validation reports no error.
pub proof fn lemma_strict_validation_matches_decode(bytes: Seq<u8>, report: ReportView)
    requires
        validation_report_is(report, bytes, ValidationProfile::Strict),
    ensures
        no_errors(report.issues) <==> decoded(bytes, ValidationProfile::Strict, true) is Some,
{
    match decoded_replay(bytes, true) {
        Some(r) => {
            if r.version != 3 {
                assert(report.issues[0].severity == ValidationSeverity::Error);
            }
        },
        None => {
            assert(report.issues[0].severity == ValidationSeverity::Error);
        },
    }
}

/// Under the structural rules, validation reports no error exactly when the bytes can be
/// read as a replay.
pub proof fn lemma_structural_validation_is_decodability(bytes: Seq<u8>, report: ReportView)
    requires
        validation_report_is(report, bytes, ValidationProfile::StructuralOnly),
    ensures
        no_errors(report.issues) <==> decoded_replay(bytes, true) is Some,
{
    match decoded_replay(bytes, true) {
        Some(r) => lemma_structural_profile_has_no_errors(r),
        None => assert(report.issues[0].severity == ValidationSeverity::Error),
    }
}

/// Team colors read from a replay have at most three stripe colors.
pub proof fn lemma_team_colors_at_most_three(b: Seq<u8>, p: int, context: Seq<char>)
    requires
        spec_team_colors(b, p, context) is Ok,
    ensures
        spec_team_colors(b, p, context)->Ok_0.0.inner.len() <= 3,
{
    let count = b[p + 5];
    crate::codec::reader::lemma_repeat_length(crate::codec::primitives::inner_color_item(b, context), p + 6, count as nat);
}

/// Under the strict rules an issue is a warning exactly when it reports an event of an
/// unknown type.
pub open spec fn strict_issue(i: IssueView) -> bool {
    (i.severity == ValidationSeverity::Warning) == (i.code == "UNKNOWN_EVENT_TYPE"@)
}

pub open spec fn all_strict(issues: Seq<IssueView>) -> bool {
    forall|k: int| 0 <= k < issues.len() ==> #[trigger] strict_issue(issues[k])
}

/// An issue of a rule other than the version rule: it has the strict severity of its code,
/// and its code is not `UNSUPPORTED_VERSION`.
pub open spec fn rule_issue(i: IssueView) -> bool {
    strict_issue(i) && i.code != "UNSUPPORTED_VERSION"@
}

pub open spec fn all_rule(issues: Seq<IssueView>) -> bool {
    forall|k: int| 0 <= k < issues.len() ==> #[trigger] rule_issue(issues[k])
}

proof fn lemma_all_rule_concat(a: Seq<IssueView>, b: Seq<IssueView>)
    requires
        all_rule(a),
        all_rule(b),
    ensures
        all_rule(a + b),
{
    assert forall|k: int| 0 <= k < (a + b).len() implies #[trigger] rule_issue((a + b)[k]) by {
        if k < a.len() {
            assert((a + b)[k] == a[k]);
        } else {
            assert((a + b)[k] == b[k - a.len()]);
        }
    }
}

proof fn lemma_codes_differ()
    ensures
        "INVALID_TEAM_ID"@ != "UNKNOWN_EVENT_TYPE"@,
        "UNSUPPORTED_VERSION"@ != "UNKNOWN_EVENT_TYPE"@,
        "GOAL_FRAME_NOT_MONOTONIC"@ != "UNKNOWN_EVENT_TYPE"@,
        "GOAL_FRAME_OUT_OF_BOUNDS"@ != "UNKNOWN_EVENT_TYPE"@,
        "INVALID_DISC_PROPERTIES_FLAGS"@ != "UNKNOWN_EVENT_TYPE"@,
        "EVENT_FRAME_NOT_MONOTONIC"@ != "UNKNOWN_EVENT_TYPE"@,
        "EVENT_FRAME_OUT_OF_BOUNDS"@ != "UNKNOWN_EVENT_TYPE"@,
        "INVALID_PLAYER_DISC_INDEX"@ != "UNKNOWN_EVENT_TYPE"@,
        "UNKNOWN_GAME_STATE"@ != "UNKNOWN_EVENT_TYPE"@,
        "UNKNOWN_BACKGROUND_TYPE"@ != "UNKNOWN_EVENT_TYPE"@,
        "UNKNOWN_CAMERA_FOLLOW"@ != "UNKNOWN_EVENT_TYPE"@,
        "INVALID_TEAM_ID"@ != "UNSUPPORTED_VERSION"@,
        "GOAL_FRAME_NOT_MONOTONIC"@ != "UNSUPPORTED_VERSION"@,
        "GOAL_FRAME_OUT_OF_BOUNDS"@ != "UNSUPPORTED_VERSION"@,
        "INVALID_DISC_PROPERTIES_FLAGS"@ != "UNSUPPORTED_VERSION"@,
        "EVENT_FRAME_NOT_MONOTONIC"@ != "UNSUPPORTED_VERSION"@,
        "EVENT_FRAME_OUT_OF_BOUNDS"@ != "UNSUPPORTED_VERSION"@,
        "INVALID_PLAYER_DISC_INDEX"@ != "UNSUPPORTED_VERSION"@,
        "UNKNOWN_GAME_STATE"@ != "UNSUPPORTED_VERSION"@,
        "UNKNOWN_BACKGROUND_TYPE"@ != "UNSUPPORTED_VERSION"@,
        "UNKNOWN_CAMERA_FOLLOW"@ != "UNSUPPORTED_VERSION"@,
        "UNKNOWN_EVENT_TYPE"@ != "UNSUPPORTED_VERSION"@,
{
    reveal_strlit("UNKNOWN_EVENT_TYPE");
    reveal_strlit("INVALID_TEAM_ID");
    reveal_strlit("UNSUPPORTED_VERSION");
    reveal_strlit("GOAL_FRAME_NOT_MONOTONIC");
    reveal_strlit("GOAL_FRAME_OUT_OF_BOUNDS");
    reveal_strlit("INVALID_DISC_PROPERTIES_FLAGS");
    reveal_strlit("EVENT_FRAME_NOT_MONOTONIC");
    reveal_strlit("EVENT_FRAME_OUT_OF_BOUNDS");
    reveal_strlit("INVALID_PLAYER_DISC_INDEX");
    reveal_strlit("UNKNOWN_GAME_STATE");
    reveal_strlit("UNKNOWN_BACKGROUND_TYPE");
    reveal_strlit("UNKNOWN_CAMERA_FOLLOW");
    assert("UNKNOWN_EVENT_TYPE"@.len() == 18);
    assert("UNSUPPORTED_VERSION"@.len() == 19);
    assert("INVALID_TEAM_ID"@.len() == 15);
    assert("GOAL_FRAME_NOT_MONOTONIC"@.len() == 24);
    assert("GOAL_FRAME_OUT_OF_BOUNDS"@.len() == 24);
    assert("INVALID_DISC_PROPERTIES_FLAGS"@.len() == 29);
    assert("EVENT_FRAME_NOT_MONOTONIC"@.len() == 25);
    assert("EVENT_FRAME_OUT_OF_BOUNDS"@.len() == 25);
    assert("INVALID_PLAYER_DISC_INDEX"@.len() == 25);
    assert("UNKNOWN_GAME_STATE"@.len() == 18);
    assert("UNKNOWN_BACKGROUND_TYPE"@.len() == 23);
    assert("UNKNOWN_CAMERA_FOLLOW"@.len() == 21);
    assert("UNKNOWN_GAME_STATE"@[8] != "UNKNOWN_EVENT_TYPE"@[8]);
}

proof fn lemma_all_strict_concat(a: Seq<IssueView>, b: Seq<IssueView>)
    requires
        all_strict(a),
        all_strict(b),
    ensures
        all_strict(a + b),
{
    assert forall|k: int| 0 <= k < (a + b).len() implies #[trigger] strict_issue((a + b)[k]) by {
        if k < a.len() {
            assert((a + b)[k] == a[k]);
        } else {
            assert((a + b)[k] == b[k - a.len()]);
        }
    }
}

proof fn lemma_markers_strict(markers: Seq<GoalMarker>, total_frames: u32, n: int)
    requires
        n <= markers.len(),
    ensures
        all_rule(markers_issues(markers, total_frames, n)),
    decreases n,
{
    if n > 0 {
        lemma_codes_differ();
        lemma_markers_strict(markers, total_frames, n - 1);
        let m = marker_issues(markers, total_frames, n - 1);
        assert(all_rule(m));
        lemma_all_rule_concat(markers_issues(markers, total_frames, n - 1), m);
    }
}

proof fn lemma_events_strict(events: Seq<ReplayEventView>, total_frames: u32, n: int)
    requires
        n <= events.len(),
    ensures
        all_rule(events_issues(events, total_frames, n)),
    decreases n,
{
    if n > 0 {
        lemma_codes_differ();
        lemma_events_strict(events, total_frames, n - 1);
        let e = event_issues(events, total_frames, n - 1);
        assert(all_rule(payload_issues(events[n - 1].payload, n - 1)));
        assert(all_rule(e));
        lemma_all_rule_concat(events_issues(events, total_frames, n - 1), e);
    }
}

proof fn lemma_players_strict(players: Seq<PlayerView>, discs: nat, n: int)
    requires
        n <= players.len(),
    ensures
        all_rule(disc_index_issues(players, discs, n)),
        all_rule(player_team_issues(players, n)),
    decreases n,
{
    if n > 0 {
        lemma_codes_differ();
        lemma_players_strict(players, discs, n - 1);
        lemma_all_rule_concat(disc_index_issues(players, discs, n - 1), crate::validate::rules::disc_index_issue(players, discs, n - 1));
        let t = player_team_issues(players, n).subrange(player_team_issues(players, n - 1).len() as int, player_team_issues(players, n).len() as int);
        assert(player_team_issues(players, n) =~= player_team_issues(players, n - 1) + t);
        lemma_all_rule_concat(player_team_issues(players, n - 1), t);
    }
}

proof fn lemma_game_strict(g: GameStateView, players: Seq<PlayerView>)
    ensures
        all_rule(game_issues(g, players)),
{
    lemma_codes_differ();
    lemma_players_strict(players, g.discs.len(), players.len() as int);
    let d = disc_index_issues(players, g.discs.len(), players.len() as int);
    let head = game_issues(g, players).subrange(0, game_issues(g, players).len() - d.len());
    assert(game_issues(g, players) =~= head + d);
    assert(all_rule(head));
    lemma_all_rule_concat(head, d);
}

proof fn lemma_room_strict(r: ReplayDataView)
    ensures
        all_rule(room_issues(r)),
{
    let room = r.room_data;
    let teams = player_team_issues(room.players, room.players.len() as int);
    lemma_players_strict(room.players, 0, room.players.len() as int);
    let g = match room.game_state {
        Some(g) => game_issues(g, room.players),
        None => Seq::empty(),
    };
    assert(all_rule(g)) by {
        if let Some(gs) = room.game_state {
            lemma_game_strict(gs, room.players);
        }
    }
    let rest = room_issues(r).subrange((g.len() + teams.len()) as int, room_issues(r).len() as int);
    assert(room_issues(r) =~= g + teams + rest);
    assert(all_rule(rest)) by {
        lemma_codes_differ();
    }
    lemma_all_rule_concat(g, teams);
    lemma_all_rule_concat(g + teams, rest);
}

/// Under the strict rules the only warnings report events of unknown types: a replay
/// breaks no rule with an error exactly when every issue it has is `UNKNOWN_EVENT_TYPE`;
/// and a version other than 3 is reported first, as an error.
pub proof fn lemma_strict_valid_iff_only_unknown_events(r: ReplayDataView)
    ensures
        no_errors(replay_issues(r, ValidationProfile::Strict)) <==> forall|k: int|
            0 <= k < replay_issues(r, ValidationProfile::Strict).len() ==> #[trigger] replay_issues(r, ValidationProfile::Strict)[k].code
                == "UNKNOWN_EVENT_TYPE"@,
        r.version != 3 ==> replay_issues(r, ValidationProfile::Strict)[0].code == "UNSUPPORTED_VERSION"@
            && replay_issues(r, ValidationProfile::Strict)[0].severity == ValidationSeverity::Error,
{
    lemma_codes_differ();
    let issues = replay_issues(r, ValidationProfile::Strict);
    let v = version_issues(r.version, ValidationProfile::Strict);
    let m = markers_issues(r.goal_markers, r.total_frames, r.goal_markers.len() as int);
    let e = events_issues(r.events, r.total_frames, r.events.len() as int);
    lemma_markers_strict(r.goal_markers, r.total_frames, r.goal_markers.len() as int);
    lemma_events_strict(r.events, r.total_frames, r.events.len() as int);
    lemma_room_strict(r);
    assert(all_strict(m) && all_strict(e) && all_strict(room_issues(r))) by {
        assert forall|k: int| 0 <= k < m.len() implies #[trigger] strict_issue(m[k]) by { assert(rule_issue(m[k])); }
        assert forall|k: int| 0 <= k < e.len() implies #[trigger] strict_issue(e[k]) by { assert(rule_issue(e[k])); }
        assert forall|k: int| 0 <= k < room_issues(r).len() implies #[trigger] strict_issue(room_issues(r)[k]) by {
            assert(rule_issue(room_issues(r)[k]));
        }
    }
    assert(all_strict(v));
    lemma_all_strict_concat(v, m);
    lemma_all_strict_concat(v + m, e);
    lemma_all_strict_concat(v + m + e, room_issues(r));
    assert(issues =~= v + m + e + room_issues(r));
    assert forall|k: int| 0 <= k < issues.len() implies (issues[k].severity != ValidationSeverity::Error) == (issues[k].code
        == "UNKNOWN_EVENT_TYPE"@) by {
        assert(strict_issue(issues[k]));
    }
}

/// The players of a room are as many as the count byte before them says, and a room has a
/// game in progress exactly when its game flag byte is not 0.
pub proof fn lemma_room_layout(b: Seq<u8>, p: int, q: int)
    requires
        spec_players(b, p) is Ok,
        spec_optional_game(b, q) is Ok,
    ensures
        spec_players(b, p)->Ok_0.0.len() == b[p],
        spec_optional_game(b, q)->Ok_0.0 is Some <==> b[q] != 0,
{
    crate::codec::reader::lemma_repeat_length(player_item(b), p + 1, b[p] as nat);
}

/// Only the version rule reports `UNSUPPORTED_VERSION`: an issue has that code exactly when
/// it is the first issue and the version is not 3.
pub proof fn lemma_only_version_rule_reports_version(r: ReplayDataView, profile: ValidationProfile)
    ensures
        forall|k: int|
            0 <= k < replay_issues(r, profile).len() ==> (#[trigger] replay_issues(r, profile)[k].code == "UNSUPPORTED_VERSION"@
                <==> (k == 0 && r.version != 3)),
{
    lemma_codes_differ();
    let issues = replay_issues(r, profile);
    let v = version_issues(r.version, profile);
    if profile == ValidationProfile::StructuralOnly {
        assert(issues =~= v);
    } else {
        let m = markers_issues(r.goal_markers, r.total_frames, r.goal_markers.len() as int);
        let e = events_issues(r.events, r.total_frames, r.events.len() as int);
        lemma_markers_strict(r.goal_markers, r.total_frames, r.goal_markers.len() as int);
        lemma_events_strict(r.events, r.total_frames, r.events.len() as int);
        lemma_room_strict(r);
        lemma_all_rule_concat(m, e);
        lemma_all_rule_concat(m + e, room_issues(r));
        let rest = m + e + room_issues(r);
        assert(issues =~= v + rest);
        assert forall|k: int| 0 <= k < issues.len() implies (#[trigger] issues[k].code == "UNSUPPORTED_VERSION"@ <==> (k == 0
            && r.version != 3)) by {
            if k >= v.len() {
                assert(issues[k] == rest[k - v.len()]);
                assert(rule_issue(rest[k - v.len()]));
            }
        }
    }
}

pub open spec fn all_errors(issues: Seq<IssueView>) -> bool {
    forall|k: int| 0 <= k < issues.len() ==> #[trigger] issues[k].severity == ValidationSeverity::Error
}

proof fn lemma_all_errors_concat(a: Seq<IssueView>, b: Seq<IssueView>)
    requires
        all_errors(a),
        all_errors(b),
    ensures
        all_errors(a + b),
        (a + b).len() == 0 <==> a.len() == 0 && b.len() == 0,
{
    assert forall|k: int| 0 <= k < (a + b).len() implies #[trigger] (a + b)[k].severity == ValidationSeverity::Error by {
        if k < a.len() {
            assert((a + b)[k] == a[k]);
        } else {
            assert((a + b)[k] == b[k - a.len()]);
        }
    }
}

/// A disc index is -1 (no disc) or the index of one of `discs` discs.
pub open spec fn disc_index_valid(d: int, discs: nat) -> bool {
    d == -1 || 0 <= d < discs
}

proof fn lemma_player_issues(players: Seq<PlayerView>, discs: nat, n: int)
    requires
        n <= players.len(),
    ensures
        all_errors(disc_index_issues(players, discs, n)),
        disc_index_issues(players, discs, n).len() == 0 <==> forall|j: int|
            0 <= j < n ==> disc_index_valid(#[trigger] players[j].disc_index as int, discs),
        all_errors(player_team_issues(players, n)),
        player_team_issues(players, n).len() == 0 <==> forall|j: int| 0 <= j < n ==> valid_team(#[trigger] players[j].team_id as int),
    decreases n,
{
    if n > 0 {
        lemma_player_issues(players, discs, n - 1);
        lemma_all_errors_concat(disc_index_issues(players, discs, n - 1), crate::validate::rules::disc_index_issue(players, discs, n - 1));
        let t = player_team_issues(players, n).subrange(player_team_issues(players, n - 1).len() as int, player_team_issues(players, n).len() as int);
        assert(player_team_issues(players, n) =~= player_team_issues(players, n - 1) + t);
        lemma_all_errors_concat(player_team_issues(players, n - 1), t);
        if disc_index_issues(players, discs, n).len() == 0 {
            assert forall|j: int| 0 <= j < n implies disc_index_valid(#[trigger] players[j].disc_index as int, discs) by {
                if j < n - 1 {
                    assert(disc_index_issues(players, discs, n - 1).len() == 0);
                }
            }
        }
        if player_team_issues(players, n).len() == 0 {
            assert forall|j: int| 0 <= j < n implies valid_team(#[trigger] players[j].team_id as int) by {
                if j < n - 1 {
                    assert(player_team_issues(players, n - 1).len() == 0);
                }
            }
        }
    }
}

/// The room breaks no rule: a game in progress has a defined phase, a conceding team from 0
/// to 2 and players whose disc indices are valid for its discs; every player's team is from
/// 0 to 2; the stadium's background and camera codes are defined.
pub open spec fn room_rules_hold(room: RoomStateView) -> bool {
    &&& match room.game_state {
        None => true,
        Some(g) => {
            &&& !(g.state is Unknown)
            &&& valid_team(g.goal_conceding_team as int)
            &&& forall|j: int| 0 <= j < room.players.len() ==> disc_index_valid(#[trigger] room.players[j].disc_index as int, g.discs.len())
        },
    }
    &&& forall|j: int| 0 <= j < room.players.len() ==> valid_team(#[trigger] room.players[j].team_id as int)
    &&& !(room.stadium.background_type matches Some(BackgroundType::Unknown(_)))
    &&& !(room.stadium.camera_follow matches Some(CameraFollow::Unknown(_)))
}

/// Every issue of the room is an error, and there is none exactly when the room breaks no
/// rule; with no game in progress no disc index is checked.
pub proof fn lemma_room_issues(r: ReplayDataView)
    ensures
        all_errors(room_issues(r)),
        room_issues(r).len() == 0 <==> room_rules_hold(r.room_data),
{
    let room = r.room_data;
    let teams = player_team_issues(room.players, room.players.len() as int);
    lemma_player_issues(room.players, 0, room.players.len() as int);
    let g = match room.game_state {
        Some(g) => game_issues(g, room.players),
        None => Seq::empty(),
    };
    if let Some(gs) = room.game_state {
        let d = disc_index_issues(room.players, gs.discs.len(), room.players.len() as int);
        lemma_player_issues(room.players, gs.discs.len(), room.players.len() as int);
        let head = g.subrange(0, g.len() - d.len());
        assert(g =~= head + d);
        assert(all_errors(head));
        lemma_all_errors_concat(head, d);
    }
    let rest = room_issues(r).subrange((g.len() + teams.len()) as int, room_issues(r).len() as int);
    assert(room_issues(r) =~= g + teams + rest);
    assert(all_errors(g) && all_errors(rest));
    lemma_all_errors_concat(g, teams);
    lemma_all_errors_concat(g + teams, rest);
}

/// The issues of one goal marker are errors, and there are none exactly when its frame is
/// not before the previous marker's nor past the last frame, and its team is from 0 to 2.
pub proof fn lemma_marker_issues(markers: Seq<GoalMarker>, total_frames: u32, j: int)
    requires
        0 <= j < markers.len(),
    ensures
        all_errors(marker_issues(markers, total_frames, j)),
        marker_issues(markers, total_frames, j).len() == 0 <==> {
            &&& markers[j].frame_no >= previous_marker_frame(markers, j)
            &&& markers[j].frame_no <= total_frames
            &&& valid_team(markers[j].team_id as int)
        },
{
}

/// The issues of all goal markers are errors, and there are none exactly when no marker has
/// any.
pub proof fn lemma_markers_issues(markers: Seq<GoalMarker>, total_frames: u32, n: int)
    requires
        n <= markers.len(),
    ensures
        all_errors(markers_issues(markers, total_frames, n)),
        markers_issues(markers, total_frames, n).len() == 0 <==> forall|j: int|
            0 <= j < n ==> (#[trigger] marker_issues(markers, total_frames, j)).len() == 0,
    decreases n,
{
    if n > 0 {
        lemma_markers_issues(markers, total_frames, n - 1);
        lemma_marker_issues(markers, total_frames, n - 1);
        lemma_all_errors_concat(markers_issues(markers, total_frames, n - 1), marker_issues(markers, total_frames, n - 1));
        if markers_issues(markers, total_frames, n).len() == 0 {
            assert forall|j: int| 0 <= j < n implies (#[trigger] marker_issues(markers, total_frames, j)).len() == 0 by {
                if j < n - 1 {
                    assert(markers_issues(markers, total_frames, n - 1).len() == 0);
                }
            }
        }
    }
}

/// A payload of an unknown type gives exactly one warning, `UNKNOWN_EVENT_TYPE` at the
/// event's type, so it changes neither validity nor the error count; any other payload gives
/// only errors, and none exactly when its team id is from 0 to 2 (team and colors changes)
/// and no flag bit above bit 12 is set (disc-properties changes).
pub proof fn lemma_payload_issues(payload: EventPayloadView, j: int)
    ensures
        payload is Unknown ==> {
            &&& payload_issues(payload, j).len() == 1
            &&& payload_issues(payload, j)[0].severity == ValidationSeverity::Warning
            &&& payload_issues(payload, j)[0].code == "UNKNOWN_EVENT_TYPE"@
            &&& payload_issues(payload, j)[0].path == index_context("events"@, j as nat) + ".eventType"@
        },
        !(payload is Unknown) ==> {
            &&& all_errors(payload_issues(payload, j))
            &&& payload_issues(payload, j).len() == 0 <==> match payload {
                EventPayloadView::SetPlayerTeam(p) => valid_team(p.team_id as int),
                EventPayloadView::SetTeamColors(p) => valid_team(p.team_id as int),
                EventPayloadView::SetDiscProperties(p) => p.flags & 0xe000u16 == 0,
                _ => true,
            }
        },
{
}

/// The event-type byte of each kind of event, in the format's order: 0 is an announcement,
/// 1 a chat indicator, 2 a consistency check, 3 an input, 4 a chat message, 5 a player
/// joining, 6 a kick or ban, 7 and 8 a game starting and stopping, 9 a pause, 10 a limit
/// change, 11 a stadium change, 12 a team change, 13 a teams lock, 14 an admin change, 15
/// automatic teams, 16 a sync change, 17 pings, 18 an avatar, 19 team colors, 20 a player
/// reorder, 21 a kick rate limit, 22 a headless avatar, 23 disc properties, 24 a custom
/// event, 25 a binary custom event and 26 a player identity; no kind has a byte above 26.
pub proof fn lemma_operation_codes(v: u8)
    ensures
        operation_code(OperationType::SendAnnouncement) == 0,
        operation_code(OperationType::SendChatIndicator) == 1,
        operation_code(OperationType::CheckConsistency) == 2,
        operation_code(OperationType::SendInput) == 3,
        operation_code(OperationType::SendChat) == 4,
        operation_code(OperationType::JoinRoom) == 5,
        operation_code(OperationType::KickBanPlayer) == 6,
        operation_code(OperationType::StartGame) == 7,
        operation_code(OperationType::StopGame) == 8,
        operation_code(OperationType::PauseResumeGame) == 9,
        operation_code(OperationType::SetGamePlayLimit) == 10,
        operation_code(OperationType::SetStadium) == 11,
        operation_code(OperationType::SetPlayerTeam) == 12,
        operation_code(OperationType::SetTeamsLock) == 13,
        operation_code(OperationType::SetPlayerAdmin) == 14,
        operation_code(OperationType::AutoTeams) == 15,
        operation_code(OperationType::SetPlayerSync) == 16,
        operation_code(OperationType::Ping) == 17,
        operation_code(OperationType::SetAvatar) == 18,
        operation_code(OperationType::SetTeamColors) == 19,
        operation_code(OperationType::ReorderPlayers) == 20,
        operation_code(OperationType::SetKickRateLimit) == 21,
        operation_code(OperationType::SetHeadlessAvatar) == 22,
        operation_code(OperationType::SetDiscProperties) == 23,
        operation_code(OperationType::CustomEvent) == 24,
        operation_code(OperationType::BinaryCustomEvent) == 25,
        operation_code(OperationType::SetPlayerIdentity) == 26,
        operation_of_code(v) is None <==> v > 26,
        operation_of_code(v) matches Some(op) ==> operation_code(op) == v,
{
    if v <= 26 {
        crate::types::enums::lemma_operation_code_bijective(OperationType::SendAnnouncement, OperationType::SendAnnouncement, v);
    }
}

/// The payload read for each event-type byte is of the kind that byte names, and a byte
/// above 26 gives a payload of unknown type only when that is allowed.
pub proof fn lemma_payload_kinds(b: Seq<u8>, p: int, t: u8, allow_unknown: bool, f: OutputLimit)
    requires
        spec_event_payload(b, p, t, allow_unknown, f) is Ok,
    ensures
        ({
            let payload = spec_event_payload(b, p, t, allow_unknown, f)->Ok_0.0;
            &&& t == 0 ==> payload is SendAnnouncement
            &&& t == 1 ==> payload is SendChatIndicator
            &&& t == 2 ==> payload is CheckConsistency
            &&& t == 3 ==> payload is SendInput
            &&& t == 4 ==> payload is SendChat
            &&& t == 5 ==> payload is JoinRoom
            &&& t == 6 ==> payload is KickBanPlayer
            &&& t == 7 ==> payload is StartGame
            &&& t == 8 ==> payload is StopGame
            &&& t == 9 ==> payload is PauseResumeGame
            &&& t == 10 ==> payload is SetGamePlayLimit
            &&& t == 11 ==> payload is SetStadium
            &&& t == 12 ==> payload is SetPlayerTeam
            &&& t == 13 ==> payload is SetTeamsLock
            &&& t == 14 ==> payload is SetPlayerAdmin
            &&& t == 15 ==> payload is AutoTeams
            &&& t == 16 ==> payload is SetPlayerSync
            &&& t == 17 ==> payload is Ping
            &&& t == 18 ==> payload is SetAvatar
            &&& t == 19 ==> payload is SetTeamColors
            &&& t == 20 ==> payload is ReorderPlayers
            &&& t == 21 ==> payload is SetKickRateLimit
            &&& t == 22 ==> payload is SetHeadlessAvatar
            &&& t == 23 ==> payload is SetDiscProperties
            &&& t == 24 ==> payload is CustomEvent
            &&& t == 25 ==> payload is BinaryCustomEvent
            &&& t == 26 ==> payload is SetPlayerIdentity
            &&& t > 26 ==> payload is Unknown && allow_unknown
        }),
{
}

/// Background codes: 0 is no background, 1 grass, 2 hockey, and any other code is kept as
/// unknown; each defined background is written back as its code.
pub proof fn lemma_background_codes(v: i32)
    ensures
        (background_of_code(v) == BackgroundType::Blank) == (v == 0),
        (background_of_code(v) == BackgroundType::Grass) == (v == 1),
        (background_of_code(v) == BackgroundType::Hockey) == (v == 2),
        !(0 <= v <= 2) ==> background_of_code(v) == BackgroundType::Unknown(v),
        background_code(BackgroundType::Blank) == 0,
        background_code(BackgroundType::Grass) == 1,
        background_code(BackgroundType::Hockey) == 2,
{
}

/// Camera codes: 0 is a fixed camera, 1 a camera that follows the player, and any other code
/// is kept as unknown; each defined value is written back as its code.
pub proof fn lemma_camera_codes(v: u8)
    ensures
        (camera_of_code(v) == CameraFollow::Fixed) == (v == 0),
        (camera_of_code(v) == CameraFollow::Player) == (v == 1),
        v > 1 ==> camera_of_code(v) == CameraFollow::Unknown(v),
        camera_code(CameraFollow::Fixed) == 0,
        camera_code(CameraFollow::Player) == 1,
{
}

/// Game phase codes: 0 is before the kick-off, 1 playing, 2 after a goal, 3 the ending, and
/// any other code is kept as unknown; each defined phase is written back as its code.
pub proof fn lemma_game_play_state_codes(v: i32)
    ensures
        (game_play_state_of_code(v) == GamePlayState::BeforeKickOff) == (v == 0),
        (game_play_state_of_code(v) == GamePlayState::Playing) == (v == 1),
        (game_play_state_of_code(v) == GamePlayState::AfterGoal) == (v == 2),
        (game_play_state_of_code(v) == GamePlayState::Ending) == (v == 3),
        !(0 <= v <= 3) ==> game_play_state_of_code(v) == GamePlayState::Unknown(v),
        game_play_state_code(GamePlayState::BeforeKickOff) == 0,
        game_play_state_code(GamePlayState::Playing) == 1,
        game_play_state_code(GamePlayState::AfterGoal) == 2,
        game_play_state_code(GamePlayState::Ending) == 3,
{
}

/// The built-in stadiums by id: 0 Classic, 1 Easy, 2 Small, 3 Big, 4 Rounded, 5 Hockey, 6
/// Big Hockey, 7 Big Easy, 8 Big Rounded, 9 Huge; any other id below 255 has no name.
pub proof fn lemma_builtin_stadium_names(id: u8)
    ensures
        default_stadium_name_spec(0) == Some("Classic"@),
        default_stadium_name_spec(1) == Some("Easy"@),
        default_stadium_name_spec(2) == Some("Small"@),
        default_stadium_name_spec(3) == Some("Big"@),
        default_stadium_name_spec(4) == Some("Rounded"@),
        default_stadium_name_spec(5) == Some("Hockey"@),
        default_stadium_name_spec(6) == Some("Big Hockey"@),
        default_stadium_name_spec(7) == Some("Big Easy"@),
        default_stadium_name_spec(8) == Some("Big Rounded"@),
        default_stadium_name_spec(9) == Some("Huge"@),
        id >= 10 ==> default_stadium_name_spec(id) is None,
{
}

/// Team ids 0, 1 and 2 (spectators, red, blue) are accepted and no other: a team id is
/// valid exactly when it is one of them; the players' team ids raise no issue exactly when
/// each is at most 2; a team or team-colors change raises none exactly when its team id is
/// 0, 1 or 2.
pub proof fn lemma_team_ids_accepted(players: Seq<PlayerView>, payload: EventPayloadView, j: int)
    ensures
        forall|t: int| valid_team(t) <==> (t == 0 || t == 1 || t == 2),
        player_team_issues(players, players.len() as int).len() == 0 <==> forall|k: int|
            0 <= k < players.len() ==> #[trigger] players[k].team_id <= 2,
        payload matches EventPayloadView::SetPlayerTeam(e) ==> (payload_issues(payload, j).len() == 0 <==> 0 <= e.team_id <= 2),
        payload matches EventPayloadView::SetTeamColors(e) ==> (payload_issues(payload, j).len() == 0 <==> 0 <= e.team_id <= 2),
{
    lemma_player_issues(players, 0, players.len() as int);
    lemma_payload_issues(payload, j);
}

/// Some issue of `issues` has the code `code`.
pub open spec fn has_code(issues: Seq<IssueView>, code: Seq<char>) -> bool {
    exists|k: int| 0 <= k < issues.len() && #[trigger] issues[k].code == code
}

proof fn lemma_has_code_concat(a: Seq<IssueView>, b: Seq<IssueView>, code: Seq<char>)
    ensures
        has_code(a + b, code) == (has_code(a, code) || has_code(b, code)),
{
    if has_code(a + b, code) {
        let k = choose|k: int| 0 <= k < (a + b).len() && #[trigger] (a + b)[k].code == code;
        if k < a.len() {
            assert(a[k] == (a + b)[k]);
        } else {
            assert(b[k - a.len()] == (a + b)[k]);
        }
    }
    if has_code(a, code) {
        let k = choose|k: int| 0 <= k < a.len() && #[trigger] a[k].code == code;
        assert((a + b)[k] == a[k]);
    }
    if has_code(b, code) {
        let k = choose|k: int| 0 <= k < b.len() && #[trigger] b[k].code == code;
        assert((a + b)[k + a.len()] == b[k]);
    }
}

proof fn lemma_has_code_if(c: bool, i: IssueView, code: Seq<char>)
    ensures
        has_code(issue_if(c, i), code) == (c && i.code == code),
{
    if c {
        assert(issue_if(c, i)[0] == i);
    }
}

proof fn lemma_rule_codes_differ()
    ensures
        "GOAL_FRAME_NOT_MONOTONIC"@ != "GOAL_FRAME_OUT_OF_BOUNDS"@,
        "EVENT_FRAME_NOT_MONOTONIC"@ != "EVENT_FRAME_OUT_OF_BOUNDS"@,
        "GOAL_FRAME_NOT_MONOTONIC"@ != "INVALID_TEAM_ID"@,
        "GOAL_FRAME_OUT_OF_BOUNDS"@ != "INVALID_TEAM_ID"@,
        "EVENT_FRAME_NOT_MONOTONIC"@ != "INVALID_TEAM_ID"@,
        "EVENT_FRAME_OUT_OF_BOUNDS"@ != "INVALID_TEAM_ID"@,
        "EVENT_FRAME_NOT_MONOTONIC"@ != "INVALID_DISC_PROPERTIES_FLAGS"@,
        "EVENT_FRAME_OUT_OF_BOUNDS"@ != "INVALID_DISC_PROPERTIES_FLAGS"@,
        "EVENT_FRAME_NOT_MONOTONIC"@ != "UNKNOWN_EVENT_TYPE"@,
        "EVENT_FRAME_OUT_OF_BOUNDS"@ != "UNKNOWN_EVENT_TYPE"@,
{
    reveal_strlit("GOAL_FRAME_NOT_MONOTONIC");
    reveal_strlit("GOAL_FRAME_OUT_OF_BOUNDS");
    reveal_strlit("EVENT_FRAME_NOT_MONOTONIC");
    reveal_strlit("EVENT_FRAME_OUT_OF_BOUNDS");
    reveal_strlit("INVALID_TEAM_ID");
    reveal_strlit("INVALID_DISC_PROPERTIES_FLAGS");
    reveal_strlit("UNKNOWN_EVENT_TYPE");
    assert("GOAL_FRAME_NOT_MONOTONIC"@[11] != "GOAL_FRAME_OUT_OF_BOUNDS"@[11]);
    assert("EVENT_FRAME_NOT_MONOTONIC"@[12] != "EVENT_FRAME_OUT_OF_BOUNDS"@[12]);
    assert("GOAL_FRAME_NOT_MONOTONIC"@.len() != "INVALID_TEAM_ID"@.len());
    assert("GOAL_FRAME_OUT_OF_BOUNDS"@.len() != "INVALID_TEAM_ID"@.len());
    assert("EVENT_FRAME_NOT_MONOTONIC"@.len() != "INVALID_TEAM_ID"@.len());
    assert("EVENT_FRAME_OUT_OF_BOUNDS"@.len() != "INVALID_TEAM_ID"@.len());
    assert("EVENT_FRAME_NOT_MONOTONIC"@.len() != "INVALID_DISC_PROPERTIES_FLAGS"@.len());
    assert("EVENT_FRAME_OUT_OF_BOUNDS"@.len() != "INVALID_DISC_PROPERTIES_FLAGS"@.len());
    assert("EVENT_FRAME_NOT_MONOTONIC"@.len() != "UNKNOWN_EVENT_TYPE"@.len());
    assert("EVENT_FRAME_OUT_OF_BOUNDS"@.len() != "UNKNOWN_EVENT_TYPE"@.len());
}

proof fn lemma_has_code_three(ca: bool, ia: IssueView, cb: bool, ib: IssueView, cc: bool, ic: IssueView, code: Seq<char>)
    ensures
        has_code(issue_if(ca, ia) + issue_if(cb, ib) + issue_if(cc, ic), code) == ((ca && ia.code == code) || (cb
            && ib.code == code) || (cc && ic.code == code)),
{
    lemma_has_code_concat(issue_if(ca, ia) + issue_if(cb, ib), issue_if(cc, ic), code);
    lemma_has_code_concat(issue_if(ca, ia), issue_if(cb, ib), code);
    lemma_has_code_if(ca, ia, code);
    lemma_has_code_if(cb, ib, code);
    lemma_has_code_if(cc, ic, code);
}

/// Goal marker `j` is reported as out of order exactly when its frame is before the previous
/// marker's, as out of bounds exactly when its frame is past the last frame, and for its team
/// exactly when its team id is above 2.
pub proof fn lemma_marker_issue_codes(markers: Seq<GoalMarker>, total_frames: u32, j: int)
    requires
        0 <= j < markers.len(),
    ensures
        has_code(marker_issues(markers, total_frames, j), "GOAL_FRAME_NOT_MONOTONIC"@) == (j > 0
            && markers[j].frame_no < markers[j - 1].frame_no),
        has_code(marker_issues(markers, total_frames, j), "GOAL_FRAME_OUT_OF_BOUNDS"@) == (markers[j].frame_no
            > total_frames),
        has_code(marker_issues(markers, total_frames, j), "INVALID_TEAM_ID"@) == (markers[j].team_id > 2),
{
    lemma_rule_codes_differ();
    let m = markers[j];
    let base = index_context("goalMarkers"@, j as nat);
    let ca = m.frame_no < previous_marker_frame(markers, j);
    let ia = issue_view("GOAL_FRAME_NOT_MONOTONIC"@, ValidationSeverity::Error, base + ".frameNo"@, "goal marker frame numbers must be monotonic non-decreasing"@);
    let cb = m.frame_no > total_frames;
    let ib = issue_view(
        "GOAL_FRAME_OUT_OF_BOUNDS"@,
        ValidationSeverity::Error,
        base + ".frameNo"@,
        "goal marker frame "@ + decimal(m.frame_no as nat) + " exceeds total frames "@ + decimal(total_frames as nat),
    );
    let cc = !valid_team(m.team_id as int);
    let ic = team_issue(base + ".teamId"@, m.team_id as int);
    assert(marker_issues(markers, total_frames, j) == issue_if(ca, ia) + issue_if(cb, ib) + issue_if(cc, ic));
    lemma_has_code_three(ca, ia, cb, ib, cc, ic, "GOAL_FRAME_NOT_MONOTONIC"@);
    lemma_has_code_three(ca, ia, cb, ib, cc, ic, "GOAL_FRAME_OUT_OF_BOUNDS"@);
    lemma_has_code_three(ca, ia, cb, ib, cc, ic, "INVALID_TEAM_ID"@);
}

/// Event `j` is reported as out of order exactly when its frame is before the previous
/// event's, and as out of bounds exactly when its frame is past the last frame.
pub proof fn lemma_event_issue_codes(events: Seq<ReplayEventView>, total_frames: u32, j: int)
    requires
        0 <= j < events.len(),
    ensures
        has_code(event_issues(events, total_frames, j), "EVENT_FRAME_NOT_MONOTONIC"@) == (j > 0 && events[j].frame_no
            < events[j - 1].frame_no),
        has_code(event_issues(events, total_frames, j), "EVENT_FRAME_OUT_OF_BOUNDS"@) == (events[j].frame_no
            > total_frames),
        all_errors(event_issues(events, total_frames, j).subrange(
            0,
            event_issues(events, total_frames, j).len() - payload_issues(events[j].payload, j).len(),
        )),
{
    lemma_rule_codes_differ();
    let e = events[j];
    let base = index_context("events"@, j as nat);
    let ca = e.frame_no < previous_event_frame(events, j);
    let ia = issue_view("EVENT_FRAME_NOT_MONOTONIC"@, ValidationSeverity::Error, base + ".frameNo"@, "event frame numbers must be monotonic non-decreasing"@);
    let cb = e.frame_no > total_frames;
    let ib = issue_view(
        "EVENT_FRAME_OUT_OF_BOUNDS"@,
        ValidationSeverity::Error,
        base + ".frameNo"@,
        "event frame "@ + decimal(e.frame_no as nat) + " exceeds total frames "@ + decimal(total_frames as nat),
    );
    let pl = payload_issues(e.payload, j);
    let head = issue_if(ca, ia) + issue_if(cb, ib);
    assert(event_issues(events, total_frames, j) == head + pl);
    assert(event_issues(events, total_frames, j).subrange(0, event_issues(events, total_frames, j).len() - pl.len()) =~= head);
    lemma_has_code_concat(head, pl, "EVENT_FRAME_NOT_MONOTONIC"@);
    lemma_has_code_concat(head, pl, "EVENT_FRAME_OUT_OF_BOUNDS"@);
    lemma_has_code_concat(issue_if(ca, ia), issue_if(cb, ib), "EVENT_FRAME_NOT_MONOTONIC"@);
    lemma_has_code_concat(issue_if(ca, ia), issue_if(cb, ib), "EVENT_FRAME_OUT_OF_BOUNDS"@);
    lemma_has_code_if(ca, ia, "EVENT_FRAME_NOT_MONOTONIC"@);
    lemma_has_code_if(cb, ib, "EVENT_FRAME_NOT_MONOTONIC"@);
    lemma_has_code_if(ca, ia, "EVENT_FRAME_OUT_OF_BOUNDS"@);
    lemma_has_code_if(cb, ib, "EVENT_FRAME_OUT_OF_BOUNDS"@);
    assert(!has_code(pl, "EVENT_FRAME_NOT_MONOTONIC"@) && !has_code(pl, "EVENT_FRAME_OUT_OF_BOUNDS"@)) by {
        reveal_strlit("UNKNOWN_EVENT_TYPE");
        if has_code(pl, "EVENT_FRAME_NOT_MONOTONIC"@) {
            let k = choose|k: int| 0 <= k < pl.len() && #[trigger] pl[k].code == "EVENT_FRAME_NOT_MONOTONIC"@;
        }
        if has_code(pl, "EVENT_FRAME_OUT_OF_BOUNDS"@) {
            let k = choose|k: int| 0 <= k < pl.len() && #[trigger] pl[k].code == "EVENT_FRAME_OUT_OF_BOUNDS"@;
        }
    }
}

proof fn lemma_high_flag_bits(f: u16)
    by (bit_vector)
    ensures
        (f & 0xe000u16 == 0u16) == (f < 0x2000u16),
{
}

/// A disc-properties change is reported for its flags exactly when a flag bit above bit 12 is
/// set, that is when the flags are 0x2000 or more; bits 0 to 12 are all accepted.
pub proof fn lemma_disc_flags_rule(payload: EventPayloadView, j: int)
    requires
        payload is SetDiscProperties,
    ensures
        payload_issues(payload, j).len() == 0 <==> payload->SetDiscProperties_0.flags < 0x2000,
        payload_issues(payload, j).len() != 0 ==> payload_issues(payload, j)[0].code == "INVALID_DISC_PROPERTIES_FLAGS"@,
{
    lemma_high_flag_bits(payload->SetDiscProperties_0.flags);
}

} // verus!
