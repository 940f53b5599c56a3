pub mod address;
pub mod tabs;
pub mod history;
pub mod bookmarks;
pub mod downloads;
