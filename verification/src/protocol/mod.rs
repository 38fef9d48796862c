pub mod codec;
pub mod ser;
pub mod client;
pub mod advancements;
pub mod server;
