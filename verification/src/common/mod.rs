pub mod assoc;
pub mod error;
pub mod id_generator;
pub mod json;
pub mod json_value;
pub mod process_id;
pub mod symbol;

pub use error::Error;
pub use id_generator::IDGenerator;
