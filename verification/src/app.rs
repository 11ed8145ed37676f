//! The session/room registry and the message router.

pub mod app;
pub mod error;
pub mod player;
pub mod room;

pub use app::process_message;
pub use app::App;
pub use player::Player;
pub use room::Room;
