pub mod drain;
pub mod registry;
pub mod render;
pub mod state;
pub mod worker;
