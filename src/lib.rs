pub mod text;
pub mod page;
pub mod choice;
pub mod command;
pub mod session;
