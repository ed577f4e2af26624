pub mod generate;
pub mod plan_laws;
pub mod timeline;
pub mod store;
pub mod export;
