//! What each command of the client decides once its call has been answered.

pub mod get_assets;
pub mod list_system_fonts;
pub mod logout;
pub mod notice;
pub mod pull_up;
