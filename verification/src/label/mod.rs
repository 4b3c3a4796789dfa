pub mod labelable;
pub mod partition;
pub mod space;

pub use labelable::{IndexRange, LabelDialect, Labelable};
