pub mod common_logger;
pub mod console_logger;
pub mod file_logger;
pub mod time;
