//! The rules of a small photo browser.
//!
//! The browser opens a folder, sorts its loose photos, raw files and videos into
//! subfolders, lists and serves the photos with thumbnails, and moves deleted
//! ones into a trash folder. This crate holds every rule of it; the program around
//! it only reads and writes files and speaks HTTP.

pub mod text;
pub mod text_laws;
pub mod media;
pub mod order;
pub mod order_laws;
pub mod listing;
pub mod picker;
pub mod picker_laws;
pub mod sorting;
pub mod sort_laws;
pub mod hint_laws;
pub mod media_laws;
pub mod plan_laws;
pub mod reply;
pub mod session;
pub mod photos;
pub mod images;
pub mod thumbs;
pub mod delete;
pub mod delete_laws;
pub mod trash_laws;
pub mod session_laws;
pub mod list_laws;
pub mod request_laws;
pub mod view_laws;
