pub mod bar;
pub mod block;
pub mod event;
pub mod text;
