pub mod sanitize;
pub mod terminal;
pub mod text;
pub mod url;
