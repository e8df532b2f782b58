//! Heap-managed value and object runtime of an ECMAScript engine: compact
//! values, small strings, array buffers, module namespaces, reference
//! records and a compacting collector, each with a verified contract.

pub mod array_buffer;
pub mod array_iterator;
pub mod builtins;
pub mod collector;
pub mod compaction;
pub mod conversions;
pub mod data_block;
pub mod environment;
pub mod gc;
pub mod heap;
pub mod marking;
pub mod module;
pub mod object;
pub mod ordinary;
pub mod reference;
pub mod rootable;
pub mod small_string;
pub mod string;
pub mod sweep;
pub mod value;
