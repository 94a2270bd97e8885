pub mod category;
pub mod data;
pub mod entry;
pub mod json;
pub mod route;
pub mod shell;
