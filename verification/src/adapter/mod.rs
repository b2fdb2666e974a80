pub mod agent;
pub mod coordinator;
