pub mod device_extension_support;
pub mod queue_family_indices;
pub mod swap_chain;
pub mod synchronization_support;
