//! Decoder and validator for HaxBall replay recordings (`.hbr2` files).
//!
//! A replay is a 12-byte header (`HBR2`, version, total frames) followed by a raw deflate
//! stream that holds the goal markers, the room state at the start of the recording and the
//! events. [`decode`] reads it and checks it under the strict rules; [`validate`] reports
//! every rule a replay breaks.
use vstd::prelude::*;

pub mod codec;
pub mod laws;
pub mod error;
pub mod options;
pub mod text;
pub mod types;
pub mod validate;

pub use codec::cesu8::decode_cesu8_string;
pub use codec::primitives::parse_team_colors;
pub use codec::reader::ReplayReader;
pub use error::{DecodeError, DecodeErrorView};
pub use options::{DecodeOptions, ValidationProfile};
pub use types::enums::{BackgroundType, CameraFollow, GamePlayState, OperationType};
pub use types::events::{
    AutoTeamsEvent, BinaryCustomEvent, CheckConsistencyEvent, CustomEvent, EventPayload,
    JoinRoomEvent, KickBanPlayerEvent, PauseResumeGameEvent, PingEvent, ReorderPlayersEvent,
    SendAnnouncementEvent, SendChatEvent, SendChatIndicatorEvent, SendInputEvent, SetAvatarEvent,
    SetDiscPropertiesEvent, SetGamePlayLimitEvent, SetHeadlessAvatarEvent, SetKickRateLimitEvent,
    SetPlayerAdminEvent, SetPlayerIdentityEvent, SetPlayerSyncEvent, SetPlayerTeamEvent,
    SetStadiumEvent, SetTeamColorsEvent, SetTeamsLockEvent, StartGameEvent, StopGameEvent,
};
pub use types::replay::{GoalMarker, ReplayData, ReplayEvent};
pub use types::room::{GameState, Player, RoomState};
pub use types::stadium::{
    Disc, Goal, Joint, Plane, PlayerPhysics, Point, Segment, Stadium, TeamColors, Vertex,
};
pub use validate::{ValidationIssue, ValidationReport, ValidationSeverity};

use codec::inflate::OutputLimit;
use codec::replay::{decoded_replay, parse_replay, replay_result_is, spec_replay};
use error::is_read_error;
use types::replay::ReplayDataView;
use validate::rules::{decode_issue, issue_from_decode_error, replay_issues, validate_replay_data};
use validate::{no_errors, ReportView};

verus! {

/// What decoding `bytes` gives when decompressions outgrow the output limit as `v` and `vs` say:
/// the replay, provided it has version 3 and breaks no rule of `profile` with an error.
pub open spec fn decode_outcome(
    bytes: Seq<u8>,
    profile: ValidationProfile,
    allow_unknown: bool,
    v: OutputLimit,
    vs: Seq<OutputLimit>,
) -> Result<ReplayDataView, DecodeErrorView> {
    match spec_replay(bytes, allow_unknown, v, vs) {
        Err(e) => Err(e),
        Ok(r) => if r.version != 3 {
            Err(DecodeErrorView::UnsupportedReplayVersion(r.version))
        } else if !no_errors(replay_issues(r, profile)) {
            Err(DecodeErrorView::ValidationFailed(ReportView { profile, issues: replay_issues(r, profile) }))
        } else {
            Ok(r)
        },
    }
}

/// The replay that decoding `bytes` returns, when it returns one: the bytes decode
/// ([`decoded_replay`]) to a replay of version 3 that breaks no rule of `profile` with an
/// error.
pub open spec fn decoded(bytes: Seq<u8>, profile: ValidationProfile, allow_unknown: bool) -> Option<ReplayDataView> {
    match decoded_replay(bytes, allow_unknown) {
        Some(x) => if x.version == 3 && no_errors(replay_issues(x, profile)) { Some(x) } else { None },
        None => None,
    }
}

/// `r` is what decoding `bytes` gives: an error of reading when they do not decode, the
/// refused version, the failed validation with its full report, or the replay.
pub open spec fn decode_result_is(
    r: Result<ReplayData, DecodeError>,
    bytes: Seq<u8>,
    profile: ValidationProfile,
    allow_unknown: bool,
) -> bool {
    match decoded_replay(bytes, allow_unknown) {
        None => r matches Err(e) && is_read_error(e@),
        Some(x) => if x.version != 3 {
            r matches Err(e) && e@ == DecodeErrorView::UnsupportedReplayVersion(x.version)
        } else if !no_errors(replay_issues(x, profile)) {
            r matches Err(e) && e@ == DecodeErrorView::ValidationFailed(ReportView { profile, issues: replay_issues(x, profile) })
        } else {
            r matches Ok(y) && y@ == x
        },
    }
}

/// Decodes a replay and checks it under the strict rules; unknown event types are errors.
pub fn decode(bytes: &[u8]) -> (r: Result<ReplayData, DecodeError>)
    ensures
        exists|v: OutputLimit, vs: Seq<OutputLimit>|
            replay_result_is(r, #[trigger] decode_outcome(bytes@, ValidationProfile::Strict, false, v, vs)),
        decode_result_is(r, bytes@, ValidationProfile::Strict, false),
        r matches Ok(y) ==> forall|k: int| 0 <= k < y@.events.len() ==> !(#[trigger] y@.events[k].payload is Unknown),
{
    decode_with_options(bytes, DecodeOptions::default())
}

/// Decodes a replay with the given options: the replay must have version 3 and break no
/// rule of the profile with an error.
pub fn decode_with_options(bytes: &[u8], options: DecodeOptions) -> (r: Result<ReplayData, DecodeError>)
    ensures
        exists|v: OutputLimit, vs: Seq<OutputLimit>|
            replay_result_is(
                r,
                #[trigger] decode_outcome(bytes@, options.validation_profile, options.allow_unknown_event_types, v, vs),
            ),
        decode_result_is(r, bytes@, options.validation_profile, options.allow_unknown_event_types),
        r matches Ok(y) ==> (!options.allow_unknown_event_types ==> forall|k: int|
            0 <= k < y@.events.len() ==> !(#[trigger] y@.events[k].payload is Unknown)),
{
    let parsed = parse_replay(bytes, options.allow_unknown_event_types);
    let ghost (v, vs) = choose|v: OutputLimit, vs: Seq<OutputLimit>|
        replay_result_is(parsed, spec_replay(bytes@, options.allow_unknown_event_types, v, vs));
    let replay = match parsed {
        Ok(replay) => replay,
        Err(e) => {
            assert(replay_result_is(Err(e), decode_outcome(bytes@, options.validation_profile, options.allow_unknown_event_types, v, vs)));
            return Err(e);
        },
    };
    if replay.version != 3 {
        let e = DecodeError::UnsupportedReplayVersion(replay.version);
        assert(replay_result_is(Err(e), decode_outcome(bytes@, options.validation_profile, options.allow_unknown_event_types, v, vs)));
        return Err(e);
    }
    let report = validate_replay_data(&replay, options.validation_profile);
    if !report.is_valid() {
        let e = DecodeError::ValidationFailed(Box::new(report));
        assert(replay_result_is(Err(e), decode_outcome(bytes@, options.validation_profile, options.allow_unknown_event_types, v, vs)));
        return Err(e);
    }
    assert(replay_result_is(Ok(replay), decode_outcome(bytes@, options.validation_profile, options.allow_unknown_event_types, v, vs)));
    Ok(replay)
}

/// The report that validating `bytes` gives when decompressions outgrow the output limit as
/// `v` and `vs` say: the issues of the decoded replay (unknown event types kept), or the one issue that
/// reports why it could not be decoded.
pub open spec fn validation_outcome(
    report: ReportView,
    bytes: Seq<u8>,
    profile: ValidationProfile,
    v: OutputLimit,
    vs: Seq<OutputLimit>,
) -> bool {
    &&& report.profile == profile
    &&& match spec_replay(bytes, true, v, vs) {
        Ok(r) => report.issues == replay_issues(r, profile),
        Err(e) => report.issues.len() == 1 && decode_issue(report.issues[0], profile, e),
    }
}

/// `report` is what validating `bytes` under `profile` gives: the issues of the replay they
/// decode to (unknown event types kept), or, when they do not decode, one error coded
/// `DECODE_ERROR` at `/`.
pub open spec fn validation_report_is(report: ReportView, bytes: Seq<u8>, profile: ValidationProfile) -> bool {
    &&& report.profile == profile
    &&& match decoded_replay(bytes, true) {
        Some(x) => report.issues == replay_issues(x, profile),
        None => {
            &&& report.issues.len() == 1
            &&& report.issues[0].code == "DECODE_ERROR"@
            &&& report.issues[0].severity == ValidationSeverity::Error
            &&& report.issues[0].path == "/"@
        },
    }
}

/// Validates a replay under the strict rules.
pub fn validate(bytes: &[u8]) -> (report: ValidationReport)
    ensures
        exists|v: OutputLimit, vs: Seq<OutputLimit>|
            #[trigger] validation_outcome(report@, bytes@, ValidationProfile::Strict, v, vs),
        validation_report_is(report@, bytes@, ValidationProfile::Strict),
{
    validate_with_profile(bytes, ValidationProfile::Strict)
}

/// Validates a replay under `profile`; events of unknown types are kept (and warned about).
pub fn validate_with_profile(bytes: &[u8], profile: ValidationProfile) -> (report: ValidationReport)
    ensures
        exists|v: OutputLimit, vs: Seq<OutputLimit>| #[trigger] validation_outcome(report@, bytes@, profile, v, vs),
        validation_report_is(report@, bytes@, profile),
{
    let parsed = parse_replay(bytes, true);
    let ghost (v, vs) = choose|v: OutputLimit, vs: Seq<OutputLimit>| replay_result_is(parsed, spec_replay(bytes@, true, v, vs));
    match parsed {
        Ok(replay) => {
            let report = validate_replay_data(&replay, profile);
            assert(validation_outcome(report@, bytes@, profile, v, vs));
            report
        },
        Err(error) => {
            let mut report = ValidationReport::new(profile);
            report.push(issue_from_decode_error(profile, &error));
            assert(validation_outcome(report@, bytes@, profile, v, vs));
            report
        },
    }
}

} // verus!
