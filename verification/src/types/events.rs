//! The events a replay records, one struct per kind.
use vstd::prelude::*;

use crate::types::enums::{operation_code, OperationType};
use crate::types::stadium::{Stadium, StadiumView, TeamColors, TeamColorsView};

verus! {

#[derive(Debug, Clone, Copy, PartialEq, Eq)]
pub struct SendChatIndicatorEvent {
    pub value: u8,
}

impl View for SendChatIndicatorEvent {
    type V = SendChatIndicatorEvent;

    open spec fn view(&self) -> SendChatIndicatorEvent {
        *self
    }
}

#[derive(Debug, Clone, Copy, PartialEq, Eq)]
pub struct SendInputEvent {
    pub input: u32,
}

impl View for SendInputEvent {
    type V = SendInputEvent;

    open spec fn view(&self) -> SendInputEvent {
        *self
    }
}

#[derive(Debug, Clone, Copy, PartialEq, Eq)]
pub struct StartGameEvent {
}

impl View for StartGameEvent {
    type V = StartGameEvent;

    open spec fn view(&self) -> StartGameEvent {
        *self
    }
}

#[derive(Debug, Clone, Copy, PartialEq, Eq)]
pub struct StopGameEvent {
}

impl View for StopGameEvent {
    type V = StopGameEvent;

    open spec fn view(&self) -> StopGameEvent {
        *self
    }
}

#[derive(Debug, Clone, Copy, PartialEq, Eq)]
pub struct PauseResumeGameEvent {
    pub paused: bool,
}

impl View for PauseResumeGameEvent {
    type V = PauseResumeGameEvent;

    open spec fn view(&self) -> PauseResumeGameEvent {
        *self
    }
}

#[derive(Debug, Clone, Copy, PartialEq, Eq)]
pub struct SetGamePlayLimitEvent {
    pub limit_type: i32,
    pub new_value: i32,
}

impl View for SetGamePlayLimitEvent {
    type V = SetGamePlayLimitEvent;

    open spec fn view(&self) -> SetGamePlayLimitEvent {
        *self
    }
}

#[derive(Debug, Clone, Copy, PartialEq, Eq)]
pub struct SetPlayerTeamEvent {
    pub player_id: i32,
    pub team_id: i8,
}

impl View for SetPlayerTeamEvent {
    type V = SetPlayerTeamEvent;

    open spec fn view(&self) -> SetPlayerTeamEvent {
        *self
    }
}

#[derive(Debug, Clone, Copy, PartialEq, Eq)]
pub struct SetTeamsLockEvent {
    pub new_value: bool,
}

impl View for SetTeamsLockEvent {
    type V = SetTeamsLockEvent;

    open spec fn view(&self) -> SetTeamsLockEvent {
        *self
    }
}

#[derive(Debug, Clone, Copy, PartialEq, Eq)]
pub struct SetPlayerAdminEvent {
    pub player_id: i32,
    pub value: bool,
}

impl View for SetPlayerAdminEvent {
    type V = SetPlayerAdminEvent;

    open spec fn view(&self) -> SetPlayerAdminEvent {
        *self
    }
}

#[derive(Debug, Clone, Copy, PartialEq, Eq)]
pub struct AutoTeamsEvent {
}

impl View for AutoTeamsEvent {
    type V = AutoTeamsEvent;

    open spec fn view(&self) -> AutoTeamsEvent {
        *self
    }
}

#[derive(Debug, Clone, Copy, PartialEq, Eq)]
pub struct SetPlayerSyncEvent {
    pub value: bool,
}

impl View for SetPlayerSyncEvent {
    type V = SetPlayerSyncEvent;

    open spec fn view(&self) -> SetPlayerSyncEvent {
        *self
    }
}

#[derive(Debug, Clone, Copy, PartialEq, Eq)]
pub struct SetKickRateLimitEvent {
    pub min: i32,
    pub rate: i32,
    pub burst: i32,
}

impl View for SetKickRateLimitEvent {
    type V = SetKickRateLimitEvent;

    open spec fn view(&self) -> SetKickRateLimitEvent {
        *self
    }
}

#[derive(Debug, Clone, PartialEq, Eq)]
pub struct SendAnnouncementEvent {
    pub msg: String,
    pub color: i32,
    pub style: u8,
    pub sound: u8,
}

pub struct SendAnnouncementEventView {
    pub msg: Seq<char>,
    pub color: i32,
    pub style: u8,
    pub sound: u8,
}

impl View for SendAnnouncementEvent {
    type V = SendAnnouncementEventView;

    open spec fn view(&self) -> SendAnnouncementEventView {
        SendAnnouncementEventView {
            msg: self.msg@,
            color: self.color,
            style: self.style,
            sound: self.sound,
        }
    }
}

#[derive(Debug, Clone, PartialEq, Eq)]
pub struct CheckConsistencyEvent {
    pub data: Vec<u8>,
}

pub struct CheckConsistencyEventView {
    pub data: Seq<u8>,
}

impl View for CheckConsistencyEvent {
    type V = CheckConsistencyEventView;

    open spec fn view(&self) -> CheckConsistencyEventView {
        CheckConsistencyEventView {
            data: self.data@,
        }
    }
}

#[derive(Debug, Clone, PartialEq, Eq)]
pub struct SendChatEvent {
    pub text: String,
}

pub struct SendChatEventView {
    pub text: Seq<char>,
}

impl View for SendChatEvent {
    type V = SendChatEventView;

    open spec fn view(&self) -> SendChatEventView {
        SendChatEventView {
            text: self.text@,
        }
    }
}

#[derive(Debug, Clone, PartialEq, Eq)]
pub struct JoinRoomEvent {
    pub player_id: i32,
    pub name: Option<String>,
    pub flag: Option<String>,
    pub avatar: Option<String>,
}

pub struct JoinRoomEventView {
    pub player_id: i32,
    pub name: Option<Seq<char>>,
    pub flag: Option<Seq<char>>,
    pub avatar: Option<Seq<char>>,
}

impl View for JoinRoomEvent {
    type V = JoinRoomEventView;

    open spec fn view(&self) -> JoinRoomEventView {
        JoinRoomEventView {
            player_id: self.player_id,
            name: self.name.deep_view(),
            flag: self.flag.deep_view(),
            avatar: self.avatar.deep_view(),
        }
    }
}

#[derive(Debug, Clone, PartialEq, Eq)]
pub struct KickBanPlayerEvent {
    pub player_id: i32,
    pub reason: Option<String>,
    pub ban: bool,
}

pub struct KickBanPlayerEventView {
    pub player_id: i32,
    pub reason: Option<Seq<char>>,
    pub ban: bool,
}

impl View for KickBanPlayerEvent {
    type V = KickBanPlayerEventView;

    open spec fn view(&self) -> KickBanPlayerEventView {
        KickBanPlayerEventView {
            player_id: self.player_id,
            reason: self.reason.deep_view(),
            ban: self.ban,
        }
    }
}

#[derive(Debug, Clone, PartialEq, Eq)]
pub struct SetStadiumEvent {
    pub stadium: Stadium,
}

pub struct SetStadiumEventView {
    pub stadium: StadiumView,
}

impl View for SetStadiumEvent {
    type V = SetStadiumEventView;

    open spec fn view(&self) -> SetStadiumEventView {
        SetStadiumEventView {
            stadium: self.stadium@,
        }
    }
}

#[derive(Debug, Clone, PartialEq, Eq)]
pub struct PingEvent {
    pub pings: Vec<u32>,
}

pub struct PingEventView {
    pub pings: Seq<u32>,
}

impl View for PingEvent {
    type V = PingEventView;

    open spec fn view(&self) -> PingEventView {
        PingEventView {
            pings: self.pings@,
        }
    }
}

#[derive(Debug, Clone, PartialEq, Eq)]
pub struct SetAvatarEvent {
    pub value: Option<String>,
}

pub struct SetAvatarEventView {
    pub value: Option<Seq<char>>,
}

impl View for SetAvatarEvent {
    type V = SetAvatarEventView;

    open spec fn view(&self) -> SetAvatarEventView {
        SetAvatarEventView {
            value: self.value.deep_view(),
        }
    }
}

#[derive(Debug, Clone, PartialEq, Eq)]
pub struct SetTeamColorsEvent {
    pub team_id: i8,
    pub colors: TeamColors,
}

pub struct SetTeamColorsEventView {
    pub team_id: i8,
    pub colors: TeamColorsView,
}

impl View for SetTeamColorsEvent {
    type V = SetTeamColorsEventView;

    open spec fn view(&self) -> SetTeamColorsEventView {
        SetTeamColorsEventView {
            team_id: self.team_id,
            colors: self.colors@,
        }
    }
}

#[derive(Debug, Clone, PartialEq, Eq)]
pub struct ReorderPlayersEvent {
    pub move_to_top: bool,
    pub player_id_list: Vec<i32>,
}

pub struct ReorderPlayersEventView {
    pub move_to_top: bool,
    pub player_id_list: Seq<i32>,
}

impl View for ReorderPlayersEvent {
    type V = ReorderPlayersEventView;

    open spec fn view(&self) -> ReorderPlayersEventView {
        ReorderPlayersEventView {
            move_to_top: self.move_to_top,
            player_id_list: self.player_id_list@,
        }
    }
}

#[derive(Debug, Clone, PartialEq, Eq)]
pub struct SetHeadlessAvatarEvent {
    pub value: Option<String>,
    pub player_id: i32,
}

pub struct SetHeadlessAvatarEventView {
    pub value: Option<Seq<char>>,
    pub player_id: i32,
}

impl View for SetHeadlessAvatarEvent {
    type V = SetHeadlessAvatarEventView;

    open spec fn view(&self) -> SetHeadlessAvatarEventView {
        SetHeadlessAvatarEventView {
            value: self.value.deep_view(),
            player_id: self.player_id,
        }
    }
}

/// Changes to a disc: `data1` holds `f32` bit patterns, present where their flag bit is set.
#[derive(Debug, Clone, PartialEq, Eq)]
pub struct SetDiscPropertiesEvent {
    pub id: i32,
    pub is_player: bool,
    pub flags: u16,
    pub data1: [Option<u32>; 10],
    pub data2: [Option<i32>; 3],
}

pub struct SetDiscPropertiesEventView {
    pub id: i32,
    pub is_player: bool,
    pub flags: u16,
    pub data1: Seq<Option<u32>>,
    pub data2: Seq<Option<i32>>,
}

impl View for SetDiscPropertiesEvent {
    type V = SetDiscPropertiesEventView;

    open spec fn view(&self) -> SetDiscPropertiesEventView {
        SetDiscPropertiesEventView {
            id: self.id,
            is_player: self.is_player,
            flags: self.flags,
            data1: self.data1@,
            data2: self.data2@,
        }
    }
}

/// A custom event; `data` is the text of a JSON document that `serde_json` accepts.
#[derive(Debug, Clone, PartialEq, Eq)]
pub struct CustomEvent {
    pub event_type: u32,
    pub data: String,
}

pub struct CustomEventView {
    pub event_type: u32,
    pub data: Seq<char>,
}

impl View for CustomEvent {
    type V = CustomEventView;

    open spec fn view(&self) -> CustomEventView {
        CustomEventView {
            event_type: self.event_type,
            data: self.data@,
        }
    }
}

#[derive(Debug, Clone, PartialEq, Eq)]
pub struct BinaryCustomEvent {
    pub event_type: u32,
    pub data: Vec<u8>,
}

pub struct BinaryCustomEventView {
    pub event_type: u32,
    pub data: Seq<u8>,
}

impl View for BinaryCustomEvent {
    type V = BinaryCustomEventView;

    open spec fn view(&self) -> BinaryCustomEventView {
        BinaryCustomEventView {
            event_type: self.event_type,
            data: self.data@,
        }
    }
}

/// A player identity; `data` is the text of a JSON document that `serde_json` accepts.
#[derive(Debug, Clone, PartialEq, Eq)]
pub struct SetPlayerIdentityEvent {
    pub id: i32,
    pub data: String,
}

pub struct SetPlayerIdentityEventView {
    pub id: i32,
    pub data: Seq<char>,
}

impl View for SetPlayerIdentityEvent {
    type V = SetPlayerIdentityEventView;

    open spec fn view(&self) -> SetPlayerIdentityEventView {
        SetPlayerIdentityEventView {
            id: self.id,
            data: self.data@,
        }
    }
}

/// The payload of an event, by kind; `Unknown` keeps the type byte and the rest of the
/// stream of an event of a type the format does not define.
#[derive(Debug, Clone, PartialEq, Eq)]
pub enum EventPayload {
    SendAnnouncement(SendAnnouncementEvent),
    SendChatIndicator(SendChatIndicatorEvent),
    CheckConsistency(CheckConsistencyEvent),
    SendInput(SendInputEvent),
    SendChat(SendChatEvent),
    JoinRoom(JoinRoomEvent),
    KickBanPlayer(KickBanPlayerEvent),
    StartGame(StartGameEvent),
    StopGame(StopGameEvent),
    PauseResumeGame(PauseResumeGameEvent),
    SetGamePlayLimit(SetGamePlayLimitEvent),
    SetStadium(SetStadiumEvent),
    SetPlayerTeam(SetPlayerTeamEvent),
    SetTeamsLock(SetTeamsLockEvent),
    SetPlayerAdmin(SetPlayerAdminEvent),
    AutoTeams(AutoTeamsEvent),
    SetPlayerSync(SetPlayerSyncEvent),
    Ping(PingEvent),
    SetAvatar(SetAvatarEvent),
    SetTeamColors(SetTeamColorsEvent),
    ReorderPlayers(ReorderPlayersEvent),
    SetKickRateLimit(SetKickRateLimitEvent),
    SetHeadlessAvatar(SetHeadlessAvatarEvent),
    SetDiscProperties(SetDiscPropertiesEvent),
    CustomEvent(CustomEvent),
    BinaryCustomEvent(BinaryCustomEvent),
    SetPlayerIdentity(SetPlayerIdentityEvent),
    Unknown { event_type: u8, raw_payload: Vec<u8> },
}

pub enum EventPayloadView {
    SendAnnouncement(SendAnnouncementEventView),
    SendChatIndicator(SendChatIndicatorEvent),
    CheckConsistency(CheckConsistencyEventView),
    SendInput(SendInputEvent),
    SendChat(SendChatEventView),
    JoinRoom(JoinRoomEventView),
    KickBanPlayer(KickBanPlayerEventView),
    StartGame(StartGameEvent),
    StopGame(StopGameEvent),
    PauseResumeGame(PauseResumeGameEvent),
    SetGamePlayLimit(SetGamePlayLimitEvent),
    SetStadium(SetStadiumEventView),
    SetPlayerTeam(SetPlayerTeamEvent),
    SetTeamsLock(SetTeamsLockEvent),
    SetPlayerAdmin(SetPlayerAdminEvent),
    AutoTeams(AutoTeamsEvent),
    SetPlayerSync(SetPlayerSyncEvent),
    Ping(PingEventView),
    SetAvatar(SetAvatarEventView),
    SetTeamColors(SetTeamColorsEventView),
    ReorderPlayers(ReorderPlayersEventView),
    SetKickRateLimit(SetKickRateLimitEvent),
    SetHeadlessAvatar(SetHeadlessAvatarEventView),
    SetDiscProperties(SetDiscPropertiesEventView),
    CustomEvent(CustomEventView),
    BinaryCustomEvent(BinaryCustomEventView),
    SetPlayerIdentity(SetPlayerIdentityEventView),
    Unknown { event_type: u8, raw_payload: Seq<u8> },
}

impl View for EventPayload {
    type V = EventPayloadView;

    open spec fn view(&self) -> EventPayloadView {
        match self {
            EventPayload::SendAnnouncement(e) => EventPayloadView::SendAnnouncement(e@),
            EventPayload::SendChatIndicator(e) => EventPayloadView::SendChatIndicator(e@),
            EventPayload::CheckConsistency(e) => EventPayloadView::CheckConsistency(e@),
            EventPayload::SendInput(e) => EventPayloadView::SendInput(e@),
            EventPayload::SendChat(e) => EventPayloadView::SendChat(e@),
            EventPayload::JoinRoom(e) => EventPayloadView::JoinRoom(e@),
            EventPayload::KickBanPlayer(e) => EventPayloadView::KickBanPlayer(e@),
            EventPayload::StartGame(e) => EventPayloadView::StartGame(e@),
            EventPayload::StopGame(e) => EventPayloadView::StopGame(e@),
            EventPayload::PauseResumeGame(e) => EventPayloadView::PauseResumeGame(e@),
            EventPayload::SetGamePlayLimit(e) => EventPayloadView::SetGamePlayLimit(e@),
            EventPayload::SetStadium(e) => EventPayloadView::SetStadium(e@),
            EventPayload::SetPlayerTeam(e) => EventPayloadView::SetPlayerTeam(e@),
            EventPayload::SetTeamsLock(e) => EventPayloadView::SetTeamsLock(e@),
            EventPayload::SetPlayerAdmin(e) => EventPayloadView::SetPlayerAdmin(e@),
            EventPayload::AutoTeams(e) => EventPayloadView::AutoTeams(e@),
            EventPayload::SetPlayerSync(e) => EventPayloadView::SetPlayerSync(e@),
            EventPayload::Ping(e) => EventPayloadView::Ping(e@),
            EventPayload::SetAvatar(e) => EventPayloadView::SetAvatar(e@),
            EventPayload::SetTeamColors(e) => EventPayloadView::SetTeamColors(e@),
            EventPayload::ReorderPlayers(e) => EventPayloadView::ReorderPlayers(e@),
            EventPayload::SetKickRateLimit(e) => EventPayloadView::SetKickRateLimit(e@),
            EventPayload::SetHeadlessAvatar(e) => EventPayloadView::SetHeadlessAvatar(e@),
            EventPayload::SetDiscProperties(e) => EventPayloadView::SetDiscProperties(e@),
            EventPayload::CustomEvent(e) => EventPayloadView::CustomEvent(e@),
            EventPayload::BinaryCustomEvent(e) => EventPayloadView::BinaryCustomEvent(e@),
            EventPayload::SetPlayerIdentity(e) => EventPayloadView::SetPlayerIdentity(e@),
            EventPayload::Unknown { event_type, raw_payload } => EventPayloadView::Unknown { event_type: *event_type, raw_payload: raw_payload@ },
        }
    }
}

/// The kind of event a payload belongs to; `None` for an unknown type.
pub open spec fn payload_operation(p: EventPayloadView) -> Option<OperationType> {
    match p {
            EventPayloadView::SendAnnouncement(_) => Some(OperationType::SendAnnouncement),
            EventPayloadView::SendChatIndicator(_) => Some(OperationType::SendChatIndicator),
            EventPayloadView::CheckConsistency(_) => Some(OperationType::CheckConsistency),
            EventPayloadView::SendInput(_) => Some(OperationType::SendInput),
            EventPayloadView::SendChat(_) => Some(OperationType::SendChat),
            EventPayloadView::JoinRoom(_) => Some(OperationType::JoinRoom),
            EventPayloadView::KickBanPlayer(_) => Some(OperationType::KickBanPlayer),
            EventPayloadView::StartGame(_) => Some(OperationType::StartGame),
            EventPayloadView::StopGame(_) => Some(OperationType::StopGame),
            EventPayloadView::PauseResumeGame(_) => Some(OperationType::PauseResumeGame),
            EventPayloadView::SetGamePlayLimit(_) => Some(OperationType::SetGamePlayLimit),
            EventPayloadView::SetStadium(_) => Some(OperationType::SetStadium),
            EventPayloadView::SetPlayerTeam(_) => Some(OperationType::SetPlayerTeam),
            EventPayloadView::SetTeamsLock(_) => Some(OperationType::SetTeamsLock),
            EventPayloadView::SetPlayerAdmin(_) => Some(OperationType::SetPlayerAdmin),
            EventPayloadView::AutoTeams(_) => Some(OperationType::AutoTeams),
            EventPayloadView::SetPlayerSync(_) => Some(OperationType::SetPlayerSync),
            EventPayloadView::Ping(_) => Some(OperationType::Ping),
            EventPayloadView::SetAvatar(_) => Some(OperationType::SetAvatar),
            EventPayloadView::SetTeamColors(_) => Some(OperationType::SetTeamColors),
            EventPayloadView::ReorderPlayers(_) => Some(OperationType::ReorderPlayers),
            EventPayloadView::SetKickRateLimit(_) => Some(OperationType::SetKickRateLimit),
            EventPayloadView::SetHeadlessAvatar(_) => Some(OperationType::SetHeadlessAvatar),
            EventPayloadView::SetDiscProperties(_) => Some(OperationType::SetDiscProperties),
            EventPayloadView::CustomEvent(_) => Some(OperationType::CustomEvent),
            EventPayloadView::BinaryCustomEvent(_) => Some(OperationType::BinaryCustomEvent),
            EventPayloadView::SetPlayerIdentity(_) => Some(OperationType::SetPlayerIdentity),
            EventPayloadView::Unknown { .. } => None,
    }
}

/// The event-type byte of a payload.
pub open spec fn payload_type_byte(p: EventPayloadView) -> u8 {
    match p {
        EventPayloadView::Unknown { event_type, .. } => event_type,
        _ => operation_code(payload_operation(p).unwrap()),
    }
}

impl EventPayload {
    /// The kind of event this payload belongs to; `None` for an unknown type.
    pub fn operation_type(&self) -> (r: Option<OperationType>)
        ensures
            r == payload_operation(self@),
    {
        match self {
            Self::SendAnnouncement(_) => Some(OperationType::SendAnnouncement),
            Self::SendChatIndicator(_) => Some(OperationType::SendChatIndicator),
            Self::CheckConsistency(_) => Some(OperationType::CheckConsistency),
            Self::SendInput(_) => Some(OperationType::SendInput),
            Self::SendChat(_) => Some(OperationType::SendChat),
            Self::JoinRoom(_) => Some(OperationType::JoinRoom),
            Self::KickBanPlayer(_) => Some(OperationType::KickBanPlayer),
            Self::StartGame(_) => Some(OperationType::StartGame),
            Self::StopGame(_) => Some(OperationType::StopGame),
            Self::PauseResumeGame(_) => Some(OperationType::PauseResumeGame),
            Self::SetGamePlayLimit(_) => Some(OperationType::SetGamePlayLimit),
            Self::SetStadium(_) => Some(OperationType::SetStadium),
            Self::SetPlayerTeam(_) => Some(OperationType::SetPlayerTeam),
            Self::SetTeamsLock(_) => Some(OperationType::SetTeamsLock),
            Self::SetPlayerAdmin(_) => Some(OperationType::SetPlayerAdmin),
            Self::AutoTeams(_) => Some(OperationType::AutoTeams),
            Self::SetPlayerSync(_) => Some(OperationType::SetPlayerSync),
            Self::Ping(_) => Some(OperationType::Ping),
            Self::SetAvatar(_) => Some(OperationType::SetAvatar),
            Self::SetTeamColors(_) => Some(OperationType::SetTeamColors),
            Self::ReorderPlayers(_) => Some(OperationType::ReorderPlayers),
            Self::SetKickRateLimit(_) => Some(OperationType::SetKickRateLimit),
            Self::SetHeadlessAvatar(_) => Some(OperationType::SetHeadlessAvatar),
            Self::SetDiscProperties(_) => Some(OperationType::SetDiscProperties),
            Self::CustomEvent(_) => Some(OperationType::CustomEvent),
            Self::BinaryCustomEvent(_) => Some(OperationType::BinaryCustomEvent),
            Self::SetPlayerIdentity(_) => Some(OperationType::SetPlayerIdentity),
            Self::Unknown { .. } => None,
        }
    }

    /// The event-type byte of this payload.
    pub fn event_type_u8(&self) -> (v: u8)
        ensures
            v == payload_type_byte(self@),
    {
        match self {
            Self::Unknown { event_type, .. } => *event_type,
            _ => match self.operation_type() {
                Some(op) => op.as_u8(),
                None => 0,
            },
        }
    }
}

} // verus!
