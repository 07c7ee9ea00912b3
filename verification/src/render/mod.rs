pub mod builder;
pub mod instance;
pub mod physical_device;
pub mod pipeline;
pub mod windowing;
