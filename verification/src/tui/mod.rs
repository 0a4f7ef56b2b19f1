pub mod app;
pub mod event;
pub mod layout;
pub mod view;
