pub mod enums;
pub mod events;
pub mod replay;
pub mod room;
pub mod stadium;
