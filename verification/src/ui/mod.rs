pub mod status;
pub mod transient;
