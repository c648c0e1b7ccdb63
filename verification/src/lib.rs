//! Storage core of an embedded relational engine: a fixed-size-page buffer
//! pool with clock-sweep eviction, a slotted page layout for variable-length
//! records, and a B-tree leaf node offering ordered lookup over those records.

pub mod bsearch;
pub mod btree;
pub mod buffer;
pub mod codec;
pub mod disk;
pub mod slotted;
