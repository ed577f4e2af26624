pub mod coordinator;
