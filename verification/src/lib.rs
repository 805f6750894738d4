pub mod application;
pub mod contagem;
pub mod domain;
pub mod infrastructure;
pub mod presentation;
pub mod texto;
