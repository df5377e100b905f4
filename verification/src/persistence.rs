//! What the settings file and the register table hold, and how they are
//! encoded.
pub mod registers_csv;
pub mod settings_json;
