//! The state of the room when the recording started.
use vstd::prelude::*;

use crate::types::enums::GamePlayState;
use crate::types::stadium::{Disc, Stadium, StadiumView, TeamColors, TeamColorsView};

verus! {

#[derive(Debug, Clone, PartialEq, Eq)]
pub struct Player {
    pub is_admin: bool,
    pub avatar_number: i32,
    pub avatar: Option<String>,
    pub headless_avatar: Option<String>,
    pub sync: bool,
    pub flag: Option<String>,
    pub metadata: i32,
    pub name: Option<String>,
    pub input: i32,
    pub id: u32,
    pub is_kicking: bool,
    pub kick_rate_max_tick_counter: i16,
    pub kick_rate_min_tick_counter: u8,
    pub team_id: u8,
    pub disc_index: i16,
}

pub struct PlayerView {
    pub is_admin: bool,
    pub avatar_number: i32,
    pub avatar: Option<Seq<char>>,
    pub headless_avatar: Option<Seq<char>>,
    pub sync: bool,
    pub flag: Option<Seq<char>>,
    pub metadata: i32,
    pub name: Option<Seq<char>>,
    pub input: i32,
    pub id: u32,
    pub is_kicking: bool,
    pub kick_rate_max_tick_counter: i16,
    pub kick_rate_min_tick_counter: u8,
    pub team_id: u8,
    pub disc_index: i16,
}

impl View for Player {
    type V = PlayerView;

    open spec fn view(&self) -> PlayerView {
        PlayerView {
            is_admin: self.is_admin,
            avatar_number: self.avatar_number,
            avatar: self.avatar.deep_view(),
            headless_avatar: self.headless_avatar.deep_view(),
            sync: self.sync,
            flag: self.flag.deep_view(),
            metadata: self.metadata,
            name: self.name.deep_view(),
            input: self.input,
            id: self.id,
            is_kicking: self.is_kicking,
            kick_rate_max_tick_counter: self.kick_rate_max_tick_counter,
            kick_rate_min_tick_counter: self.kick_rate_min_tick_counter,
            team_id: self.team_id,
            disc_index: self.disc_index,
        }
    }
}

/// A game in progress; `time_elapsed` is an `f64` bit pattern.
#[derive(Debug, Clone, PartialEq, Eq)]
pub struct GameState {
    pub discs: Vec<Disc>,
    pub goal_tick_counter: i32,
    pub state: GamePlayState,
    pub red_score: i32,
    pub blue_score: i32,
    pub time_elapsed: u64,
    pub pause_game_tick_counter: i32,
    pub goal_conceding_team: u8,
}

pub struct GameStateView {
    pub discs: Seq<Disc>,
    pub goal_tick_counter: i32,
    pub state: GamePlayState,
    pub red_score: i32,
    pub blue_score: i32,
    pub time_elapsed: u64,
    pub pause_game_tick_counter: i32,
    pub goal_conceding_team: u8,
}

impl View for GameState {
    type V = GameStateView;

    open spec fn view(&self) -> GameStateView {
        GameStateView {
            discs: self.discs@,
            goal_tick_counter: self.goal_tick_counter,
            state: self.state,
            red_score: self.red_score,
            blue_score: self.blue_score,
            time_elapsed: self.time_elapsed,
            pause_game_tick_counter: self.pause_game_tick_counter,
            goal_conceding_team: self.goal_conceding_team,
        }
    }
}

#[derive(Debug, Clone, PartialEq, Eq)]
pub struct RoomState {
    pub name: Option<String>,
    pub teams_locked: bool,
    pub score_limit: i32,
    pub time_limit: i32,
    pub kick_rate_max: i16,
    pub kick_rate_rate: u8,
    pub kick_rate_min: u8,
    pub stadium: Stadium,
    pub game_state: Option<GameState>,
    pub players: Vec<Player>,
    pub red_team_colors: TeamColors,
    pub blue_team_colors: TeamColors,
}

pub struct RoomStateView {
    pub name: Option<Seq<char>>,
    pub teams_locked: bool,
    pub score_limit: i32,
    pub time_limit: i32,
    pub kick_rate_max: i16,
    pub kick_rate_rate: u8,
    pub kick_rate_min: u8,
    pub stadium: StadiumView,
    pub game_state: Option<GameStateView>,
    pub players: Seq<PlayerView>,
    pub red_team_colors: TeamColorsView,
    pub blue_team_colors: TeamColorsView,
}

pub open spec fn game_state_view(g: Option<GameState>) -> Option<GameStateView> {
    match g {
        Some(s) => Some(s@),
        None => None,
    }
}

impl View for RoomState {
    type V = RoomStateView;

    open spec fn view(&self) -> RoomStateView {
        RoomStateView {
            name: self.name.deep_view(),
            teams_locked: self.teams_locked,
            score_limit: self.score_limit,
            time_limit: self.time_limit,
            kick_rate_max: self.kick_rate_max,
            kick_rate_rate: self.kick_rate_rate,
            kick_rate_min: self.kick_rate_min,
            stadium: self.stadium@,
            game_state: game_state_view(self.game_state),
            players: self.players@.map_values(|p: Player| p@),
            red_team_colors: self.red_team_colors@,
            blue_team_colors: self.blue_team_colors@,
        }
    }
}

} // verus!
