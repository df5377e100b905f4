//! Decisions behind the menus and screens.
pub mod connection;
pub mod main_menu;
pub mod registers;
