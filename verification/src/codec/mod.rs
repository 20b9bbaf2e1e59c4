pub mod cesu8;
pub mod events;
pub mod inflate;
pub mod layout;
pub mod primitives;
pub mod reader;
pub mod replay;
pub mod room;
pub mod stadium;
