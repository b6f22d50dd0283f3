pub mod gameplay_state_system;
pub mod rendering_system;
