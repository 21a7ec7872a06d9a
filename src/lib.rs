pub mod syntax;
pub mod walk;
pub mod render;
pub mod contained_in;
