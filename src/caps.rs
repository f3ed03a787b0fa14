use vstd::prelude::*;
use crate::version::{Api, Version, Extensions, ver_at_least};

verus! {

/// How buffer storage is allocated.
#[derive(Clone, Copy, Debug, PartialEq, Eq, Structural)]
pub enum StorageEntry {
    /// Immutable storage allocated by buffer id, without binding.
    NamedImmutable,
    /// Immutable storage allocated through a bind target.
    BoundImmutable,
    /// Mutable storage with a usage hint, allocated through a bind target.
    BoundMutable,
}

/// How an operation on an existing buffer reaches it.
#[derive(Clone, Copy, Debug, PartialEq, Eq, Structural)]
pub enum Entry {
    /// A direct-addressed entry point taking the buffer id.
    Named,
    /// A bind-then-operate entry point taking a bind target.
    Bound,
    /// No entry point exists on this context.
    Missing,
}

/// The entry points chosen for each buffer operation on one context.
#[derive(Clone, Copy, Debug, PartialEq, Eq, Structural)]
pub struct Capabilities {
    pub storage: StorageEntry,
    pub write: Entry,
    pub read: Entry,
    pub map: Entry,
    pub flush: Entry,
    pub unmap: Entry,
    pub copy: Entry,
    pub invalidate: bool,
}

/// The context can create, bind and delete buffers at all.
pub open spec fn has_baseline(v: Version, e: Extensions) -> bool {
    ver_at_least(v, Api::Gl, 1, 5) || ver_at_least(v, Api::GlEs, 2, 0) || e.arb_vertex_buffer_object
}

pub open spec fn storage_for(v: Version, e: Extensions) -> StorageEntry {
    if ver_at_least(v, Api::Gl, 4, 5) || e.arb_direct_state_access
        || (e.arb_buffer_storage && e.ext_direct_state_access) {
        StorageEntry::NamedImmutable
    } else if ver_at_least(v, Api::Gl, 4, 4) || e.arb_buffer_storage {
        StorageEntry::BoundImmutable
    } else {
        StorageEntry::BoundMutable
    }
}

pub open spec fn write_for(v: Version, e: Extensions) -> Entry {
    if ver_at_least(v, Api::Gl, 4, 5) || e.ext_direct_state_access {
        Entry::Named
    } else {
        Entry::Bound
    }
}

pub open spec fn read_for(v: Version, e: Extensions) -> Entry {
    if ver_at_least(v, Api::Gl, 4, 5) {
        Entry::Named
    } else if ver_at_least(v, Api::Gl, 1, 5) || e.arb_vertex_buffer_object {
        Entry::Bound
    } else {
        Entry::Missing
    }
}

pub open spec fn map_for(v: Version, e: Extensions) -> Entry {
    if ver_at_least(v, Api::Gl, 4, 5) {
        Entry::Named
    } else if ver_at_least(v, Api::Gl, 3, 0) || ver_at_least(v, Api::GlEs, 3, 0)
        || e.arb_map_buffer_range {
        Entry::Bound
    } else {
        Entry::Missing
    }
}

pub open spec fn flush_for(v: Version, e: Extensions) -> Entry {
    if ver_at_least(v, Api::Gl, 4, 5) || e.arb_direct_state_access {
        Entry::Named
    } else if ver_at_least(v, Api::Gl, 3, 0) || ver_at_least(v, Api::GlEs, 3, 0)
        || e.arb_map_buffer_range {
        Entry::Bound
    } else {
        Entry::Missing
    }
}

pub open spec fn unmap_for(v: Version, e: Extensions) -> Entry {
    if ver_at_least(v, Api::Gl, 4, 5) {
        Entry::Named
    } else if ver_at_least(v, Api::Gl, 1, 5) || ver_at_least(v, Api::GlEs, 3, 0)
        || e.arb_vertex_buffer_object {
        Entry::Bound
    } else {
        Entry::Missing
    }
}

pub open spec fn copy_for(v: Version, e: Extensions) -> Entry {
    if ver_at_least(v, Api::Gl, 4, 5) || e.arb_direct_state_access || e.ext_direct_state_access {
        Entry::Named
    } else if ver_at_least(v, Api::Gl, 3, 1) || ver_at_least(v, Api::GlEs, 3, 0)
        || e.arb_copy_buffer || e.nv_copy_buffer {
        Entry::Bound
    } else {
        Entry::Missing
    }
}

pub open spec fn invalidate_for(v: Version, e: Extensions) -> bool {
    ver_at_least(v, Api::Gl, 4, 3) || e.arb_invalidate_subdata
}

/// The table chosen for a context of version `v` with extensions `e`.
pub open spec fn caps_for(v: Version, e: Extensions) -> Capabilities {
    Capabilities {
        storage: storage_for(v, e),
        write: write_for(v, e),
        read: read_for(v, e),
        map: map_for(v, e),
        flush: flush_for(v, e),
        unmap: unmap_for(v, e),
        copy: copy_for(v, e),
        invalidate: invalidate_for(v, e),
    }
}

impl Capabilities {
    /// Immutable storage is available.
    pub open spec fn immutable_storage(&self) -> bool {
        self.storage != StorageEntry::BoundMutable
    }

    /// Buffers can be mapped, flushed and unmapped.
    pub open spec fn can_map(&self) -> bool {
        self.map != Entry::Missing && self.flush != Entry::Missing && self.unmap != Entry::Missing
    }

    /// Resolves the table once for a context; `None` when the context lacks the baseline
    /// buffer entry points.
    pub fn resolve(v: &Version, e: &Extensions) -> (r: Option<Capabilities>)
        ensures
            r matches Some(c) ==> c == caps_for(*v, *e),
            r is None <==> !has_baseline(*v, *e),
    {
        let gl15 = v.at_least(Api::Gl, 1, 5);
        let gl30 = v.at_least(Api::Gl, 3, 0);
        let gl31 = v.at_least(Api::Gl, 3, 1);
        let gl43 = v.at_least(Api::Gl, 4, 3);
        let gl44 = v.at_least(Api::Gl, 4, 4);
        let gl45 = v.at_least(Api::Gl, 4, 5);
        let es20 = v.at_least(Api::GlEs, 2, 0);
        let es30 = v.at_least(Api::GlEs, 3, 0);
        if !(gl15 || es20 || e.arb_vertex_buffer_object) {
            return None;
        }
        let storage = if gl45 || e.arb_direct_state_access
            || (e.arb_buffer_storage && e.ext_direct_state_access) {
            StorageEntry::NamedImmutable
        } else if gl44 || e.arb_buffer_storage {
            StorageEntry::BoundImmutable
        } else {
            StorageEntry::BoundMutable
        };
        let write = if gl45 || e.ext_direct_state_access { Entry::Named } else { Entry::Bound };
        let read = if gl45 {
            Entry::Named
        } else if gl15 || e.arb_vertex_buffer_object {
            Entry::Bound
        } else {
            Entry::Missing
        };
        let map = if gl45 {
            Entry::Named
        } else if gl30 || es30 || e.arb_map_buffer_range {
            Entry::Bound
        } else {
            Entry::Missing
        };
        let flush = if gl45 || e.arb_direct_state_access {
            Entry::Named
        } else if gl30 || es30 || e.arb_map_buffer_range {
            Entry::Bound
        } else {
            Entry::Missing
        };
        let unmap = if gl45 {
            Entry::Named
        } else if gl15 || es30 || e.arb_vertex_buffer_object {
            Entry::Bound
        } else {
            Entry::Missing
        };
        let copy = if gl45 || e.arb_direct_state_access || e.ext_direct_state_access {
            Entry::Named
        } else if gl31 || es30 || e.arb_copy_buffer || e.nv_copy_buffer {
            Entry::Bound
        } else {
            Entry::Missing
        };
        let caps = Capabilities {
            storage,
            write,
            read,
            map,
            flush,
            unmap,
            copy,
            invalidate: gl43 || e.arb_invalidate_subdata,
        };
        Some(caps)
    }
}

} // verus!
