//! Cursor-based polling and dispatch for a chat bot: the rules by which
//! inbound updates are consumed and feed subscriptions are followed.

pub mod db;
pub mod discord_bot;
pub mod dispatch;
pub mod enhance;
pub mod feed;
pub mod log_format;
pub mod poller;
pub mod subscribe;
pub mod telegram_bot;
pub mod telegram_client;
pub mod text;
