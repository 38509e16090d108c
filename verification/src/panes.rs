pub mod editor;
pub mod terminal;
