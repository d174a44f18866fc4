pub mod autostart;
pub mod credentials;
pub mod text;
pub mod utf16;
