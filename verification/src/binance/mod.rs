pub mod configuration;
pub mod data;
pub mod local_book;
pub mod manager;
pub mod manager_communication;
pub mod manager_process;
pub mod process;
pub mod schema;
pub mod tasks;

pub use configuration::{Configuration, Schedule};
pub use data::DepthSnapshot;
pub use local_book::{LocalBook, PriceLevel};
pub use manager::{Assignment, Manager};
pub use process::{Completion, Process, Request};
pub use tasks::Task;
