pub mod window;
pub mod bookmarks;
pub mod toolbar;
