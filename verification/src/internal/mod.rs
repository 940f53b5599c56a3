pub mod router;
pub mod pages;
