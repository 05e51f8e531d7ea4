pub mod text;
pub mod render;
pub mod personality;
pub mod status;
pub mod poller;
pub mod conversation;
pub mod database;
pub mod session;
pub mod render_laws;
