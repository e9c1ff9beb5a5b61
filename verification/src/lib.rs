//! A single-word owning handle for values whose shape is only known at run
//! time, together with the pieces it is built from: a layout calculator for
//! the combined descriptor-plus-value block, an allocation capability with a
//! bookkeeping implementation, and a single-shot-to-repeatable callable
//! adapter.

pub mod allocator;
pub mod callable;
pub mod layout;
pub mod thin;

pub use allocator::AllocError;
pub use allocator::Allocator;
pub use allocator::CountingAllocator;
pub use callable::CheckedOnce;
pub use callable::RepeatedInvocation;
pub use callable::StrictOnce;
pub use callable::UncheckedOnce;
pub use layout::Layout;
pub use thin::Content;
pub use thin::Erased;
pub use thin::Metadata;
pub use thin::RawThin;
pub use thin::ThinBox;
