//! Small enumerations of the format, with their numeric codes.
use vstd::prelude::*;

verus! {

/// The kinds of events a replay records.
#[derive(Debug, Clone, Copy, PartialEq, Eq)]
pub enum OperationType {
    SendAnnouncement,
    SendChatIndicator,
    CheckConsistency,
    SendInput,
    SendChat,
    JoinRoom,
    KickBanPlayer,
    StartGame,
    StopGame,
    PauseResumeGame,
    SetGamePlayLimit,
    SetStadium,
    SetPlayerTeam,
    SetTeamsLock,
    SetPlayerAdmin,
    AutoTeams,
    SetPlayerSync,
    Ping,
    SetAvatar,
    SetTeamColors,
    ReorderPlayers,
    SetKickRateLimit,
    SetHeadlessAvatar,
    SetDiscProperties,
    CustomEvent,
    BinaryCustomEvent,
    SetPlayerIdentity,
}

/// The event-type byte of each kind of event.
pub open spec fn operation_code(op: OperationType) -> u8 {
    match op {
        OperationType::SendAnnouncement => 0,
        OperationType::SendChatIndicator => 1,
        OperationType::CheckConsistency => 2,
        OperationType::SendInput => 3,
        OperationType::SendChat => 4,
        OperationType::JoinRoom => 5,
        OperationType::KickBanPlayer => 6,
        OperationType::StartGame => 7,
        OperationType::StopGame => 8,
        OperationType::PauseResumeGame => 9,
        OperationType::SetGamePlayLimit => 10,
        OperationType::SetStadium => 11,
        OperationType::SetPlayerTeam => 12,
        OperationType::SetTeamsLock => 13,
        OperationType::SetPlayerAdmin => 14,
        OperationType::AutoTeams => 15,
        OperationType::SetPlayerSync => 16,
        OperationType::Ping => 17,
        OperationType::SetAvatar => 18,
        OperationType::SetTeamColors => 19,
        OperationType::ReorderPlayers => 20,
        OperationType::SetKickRateLimit => 21,
        OperationType::SetHeadlessAvatar => 22,
        OperationType::SetDiscProperties => 23,
        OperationType::CustomEvent => 24,
        OperationType::BinaryCustomEvent => 25,
        OperationType::SetPlayerIdentity => 26,
    }
}

/// The kind of event with event-type byte `value`, if there is one.
pub open spec fn operation_of_code(value: u8) -> Option<OperationType> {
    if value <= 26 {
        Some(choose|op: OperationType| operation_code(op) == value)
    } else {
        None
    }
}

impl OperationType {
    /// The kind of event whose event-type byte is `value`; `None` past 26.
    pub fn from_u8(value: u8) -> (r: Option<Self>)
        ensures
            value <= 26 ==> (r matches Some(op) && operation_code(op) == value),
            value > 26 ==> r is None,
    {
        let operation = match value {
            0 => Self::SendAnnouncement,
            1 => Self::SendChatIndicator,
            2 => Self::CheckConsistency,
            3 => Self::SendInput,
            4 => Self::SendChat,
            5 => Self::JoinRoom,
            6 => Self::KickBanPlayer,
            7 => Self::StartGame,
            8 => Self::StopGame,
            9 => Self::PauseResumeGame,
            10 => Self::SetGamePlayLimit,
            11 => Self::SetStadium,
            12 => Self::SetPlayerTeam,
            13 => Self::SetTeamsLock,
            14 => Self::SetPlayerAdmin,
            15 => Self::AutoTeams,
            16 => Self::SetPlayerSync,
            17 => Self::Ping,
            18 => Self::SetAvatar,
            19 => Self::SetTeamColors,
            20 => Self::ReorderPlayers,
            21 => Self::SetKickRateLimit,
            22 => Self::SetHeadlessAvatar,
            23 => Self::SetDiscProperties,
            24 => Self::CustomEvent,
            25 => Self::BinaryCustomEvent,
            26 => Self::SetPlayerIdentity,
            _ => return None,
        };
        Some(operation)
    }

    /// The event-type byte of this kind of event.
    pub fn as_u8(self) -> (v: u8)
        ensures
            v == operation_code(self),
    {
        match self {
            Self::SendAnnouncement => 0,
            Self::SendChatIndicator => 1,
            Self::CheckConsistency => 2,
            Self::SendInput => 3,
            Self::SendChat => 4,
            Self::JoinRoom => 5,
            Self::KickBanPlayer => 6,
            Self::StartGame => 7,
            Self::StopGame => 8,
            Self::PauseResumeGame => 9,
            Self::SetGamePlayLimit => 10,
            Self::SetStadium => 11,
            Self::SetPlayerTeam => 12,
            Self::SetTeamsLock => 13,
            Self::SetPlayerAdmin => 14,
            Self::AutoTeams => 15,
            Self::SetPlayerSync => 16,
            Self::Ping => 17,
            Self::SetAvatar => 18,
            Self::SetTeamColors => 19,
            Self::ReorderPlayers => 20,
            Self::SetKickRateLimit => 21,
            Self::SetHeadlessAvatar => 22,
            Self::SetDiscProperties => 23,
            Self::CustomEvent => 24,
            Self::BinaryCustomEvent => 25,
            Self::SetPlayerIdentity => 26,
        }
    }
}

/// Different kinds of events have different event-type bytes, and every byte up to 26 is
/// the byte of one kind: the byte names the kind, and the kind's byte reads back as it.
pub proof fn lemma_operation_code_bijective(a: OperationType, b: OperationType, v: u8)
    ensures
        operation_code(a) == operation_code(b) ==> a == b,
        operation_code(a) <= 26,
        operation_of_code(operation_code(a)) == Some(a),
        v <= 26 ==> (operation_of_code(v) matches Some(op) && operation_code(op) == v),
        v > 26 ==> operation_of_code(v) is None,
{
    if v <= 26 {
        let w = if v == 0 { OperationType::SendAnnouncement }
            else if v == 1 { OperationType::SendChatIndicator }
            else if v == 2 { OperationType::CheckConsistency }
            else if v == 3 { OperationType::SendInput }
            else if v == 4 { OperationType::SendChat }
            else if v == 5 { OperationType::JoinRoom }
            else if v == 6 { OperationType::KickBanPlayer }
            else if v == 7 { OperationType::StartGame }
            else if v == 8 { OperationType::StopGame }
            else if v == 9 { OperationType::PauseResumeGame }
            else if v == 10 { OperationType::SetGamePlayLimit }
            else if v == 11 { OperationType::SetStadium }
            else if v == 12 { OperationType::SetPlayerTeam }
            else if v == 13 { OperationType::SetTeamsLock }
            else if v == 14 { OperationType::SetPlayerAdmin }
            else if v == 15 { OperationType::AutoTeams }
            else if v == 16 { OperationType::SetPlayerSync }
            else if v == 17 { OperationType::Ping }
            else if v == 18 { OperationType::SetAvatar }
            else if v == 19 { OperationType::SetTeamColors }
            else if v == 20 { OperationType::ReorderPlayers }
            else if v == 21 { OperationType::SetKickRateLimit }
            else if v == 22 { OperationType::SetHeadlessAvatar }
            else if v == 23 { OperationType::SetDiscProperties }
            else if v == 24 { OperationType::CustomEvent }
            else if v == 25 { OperationType::BinaryCustomEvent }
            else { OperationType::SetPlayerIdentity };
        assert(operation_code(w) == v);
    }
    let c = operation_code(a);
    assert(operation_code(a) == c);
    let op = choose|op: OperationType| operation_code(op) == c;
    assert(operation_code(op) == c);
}

/// The background drawn on a custom stadium.
#[derive(Debug, Clone, Copy, PartialEq, Eq)]
pub enum BackgroundType {
    /// No background (code 0).
    Blank,
    Grass,
    Hockey,
    /// A code the format does not define.
    Unknown(i32),
}

pub open spec fn background_of_code(value: i32) -> BackgroundType {
    if value == 0 {
        BackgroundType::Blank
    } else if value == 1 {
        BackgroundType::Grass
    } else if value == 2 {
        BackgroundType::Hockey
    } else {
        BackgroundType::Unknown(value)
    }
}

pub open spec fn background_code(b: BackgroundType) -> i32 {
    match b {
        BackgroundType::Blank => 0,
        BackgroundType::Grass => 1,
        BackgroundType::Hockey => 2,
        BackgroundType::Unknown(value) => value,
    }
}

impl BackgroundType {
    pub fn from_i32(value: i32) -> (r: Self)
        ensures
            r == background_of_code(value),
    {
        match value {
            0 => Self::Blank,
            1 => Self::Grass,
            2 => Self::Hockey,
            other => Self::Unknown(other),
        }
    }

    pub fn as_i32(self) -> (v: i32)
        ensures
            v == background_code(self),
    {
        match self {
            Self::Blank => 0,
            Self::Grass => 1,
            Self::Hockey => 2,
            Self::Unknown(value) => value,
        }
    }
}

/// Whether the camera follows the player.
#[derive(Debug, Clone, Copy, PartialEq, Eq)]
pub enum CameraFollow {
    /// The camera does not follow (code 0).
    Fixed,
    Player,
    /// A code the format does not define.
    Unknown(u8),
}

pub open spec fn camera_of_code(value: u8) -> CameraFollow {
    if value == 0 {
        CameraFollow::Fixed
    } else if value == 1 {
        CameraFollow::Player
    } else {
        CameraFollow::Unknown(value)
    }
}

pub open spec fn camera_code(c: CameraFollow) -> u8 {
    match c {
        CameraFollow::Fixed => 0,
        CameraFollow::Player => 1,
        CameraFollow::Unknown(value) => value,
    }
}

impl CameraFollow {
    pub fn from_u8(value: u8) -> (r: Self)
        ensures
            r == camera_of_code(value),
    {
        match value {
            0 => Self::Fixed,
            1 => Self::Player,
            other => Self::Unknown(other),
        }
    }

    pub fn as_u8(self) -> (v: u8)
        ensures
            v == camera_code(self),
    {
        match self {
            Self::Fixed => 0,
            Self::Player => 1,
            Self::Unknown(value) => value,
        }
    }
}

/// The phase of a game in progress.
#[derive(Debug, Clone, Copy, PartialEq, Eq)]
pub enum GamePlayState {
    BeforeKickOff,
    Playing,
    AfterGoal,
    Ending,
    /// A code the format does not define.
    Unknown(i32),
}

pub open spec fn game_play_state_of_code(value: i32) -> GamePlayState {
    if value == 0 {
        GamePlayState::BeforeKickOff
    } else if value == 1 {
        GamePlayState::Playing
    } else if value == 2 {
        GamePlayState::AfterGoal
    } else if value == 3 {
        GamePlayState::Ending
    } else {
        GamePlayState::Unknown(value)
    }
}

pub open spec fn game_play_state_code(s: GamePlayState) -> i32 {
    match s {
        GamePlayState::BeforeKickOff => 0,
        GamePlayState::Playing => 1,
        GamePlayState::AfterGoal => 2,
        GamePlayState::Ending => 3,
        GamePlayState::Unknown(value) => value,
    }
}

impl GamePlayState {
    pub fn from_i32(value: i32) -> (r: Self)
        ensures
            r == game_play_state_of_code(value),
    {
        match value {
            0 => Self::BeforeKickOff,
            1 => Self::Playing,
            2 => Self::AfterGoal,
            3 => Self::Ending,
            other => Self::Unknown(other),
        }
    }

    pub fn as_i32(self) -> (v: i32)
        ensures
            v == game_play_state_code(self),
    {
        match self {
            Self::BeforeKickOff => 0,
            Self::Playing => 1,
            Self::AfterGoal => 2,
            Self::Ending => 3,
            Self::Unknown(value) => value,
        }
    }
}

/// Reading a code and writing it back gives the code; writing a value and reading it back
/// gives the value, except for `Unknown` holding a code that names a defined value.
pub proof fn lemma_code_roundtrips(i: i32, u: u8, b: BackgroundType, c: CameraFollow, g: GamePlayState)
    ensures
        background_code(background_of_code(i)) == i,
        camera_code(camera_of_code(u)) == u,
        game_play_state_code(game_play_state_of_code(i)) == i,
        !(b matches BackgroundType::Unknown(v) && 0 <= v <= 2) ==> background_of_code(background_code(b)) == b,
        !(c matches CameraFollow::Unknown(v) && v <= 1) ==> camera_of_code(camera_code(c)) == c,
        !(g matches GamePlayState::Unknown(v) && 0 <= v <= 3) ==> game_play_state_of_code(game_play_state_code(g)) == g,
{
}

} // verus!
