pub mod main_thread;
pub mod windows;
