//! The council information system: its addresses, its documents and its pages.

pub mod feed;
pub mod notification;
pub mod papers;
pub mod url;
pub mod website;
