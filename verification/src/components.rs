//! The component tree: coordinate resolution, leaf widgets and containers.

pub mod button;
pub mod clickable;
pub mod component;
pub mod layout;
pub mod plain;
pub mod text;
