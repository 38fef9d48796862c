pub mod advancement;
pub mod criterion;
pub mod display;
pub mod errors;
pub mod frame;
pub mod loader;
pub mod progress;
pub mod requirements;
pub mod rewards;
pub mod triggers;
