pub mod cpu;
pub mod metric;
pub mod registry;
pub mod source;
pub mod value;
