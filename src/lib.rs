//! GPU buffer management over a modelled driver command interface.
//!
//! The driver's capability level is resolved once per context into a table of
//! entry-point choices; buffers are created, uploaded to, mapped, read back,
//! copied and destroyed through that table, with a per-context cache of the
//! buffer bound at each logical target to skip redundant binding calls.
pub mod version;
pub mod caps;
pub mod bind_cache;
pub mod bytes;
pub mod device;
pub mod context;
pub mod allocator;
pub mod buffer;

pub use version::{Api, Version, Extensions};
pub use caps::{Capabilities, StorageEntry, Entry};
pub use bind_cache::{BufferType, BindCache, lemma_without_clears};
pub use bytes::{splice, lemma_splice_read_back, lemma_splice_same};
pub use device::{Device, Object, ObjView, Call, Addr, StorageKind};
pub use context::{Context, bind_buffer, destroy_buffer, copy_buffer, lemma_copy_reads_back};
pub use allocator::{BufferCreationError, create_buffer};
pub use buffer::{Buffer, Mapping, lemma_mapped_write_reads_back};
