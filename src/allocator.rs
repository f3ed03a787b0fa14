use vstd::prelude::*;
use crate::caps::{Capabilities, StorageEntry, Entry};
use crate::bind_cache::BufferType;
use crate::device::{Device, Addr, Call, StorageKind};
use crate::context::{Context, bind_buffer, destroy_buffer, bind_calls, entry_binds, entry_cache};
use crate::bind_cache::BindCache;
use crate::bytes::zero_seq;

verus! {

/// Why a buffer could not be created.
#[derive(Clone, Copy, Debug, PartialEq, Eq, Structural)]
pub enum BufferCreationError {
    /// The driver did not provide storage of the requested size.
    OutOfMemory,
}

/// The size submitted to the driver: zero is rounded up to one byte.
pub open spec fn alloc_size(size: usize) -> nat {
    if size == 0 { 1 } else { size as nat }
}

/// The size submitted to the driver, as a machine integer.
pub open spec fn alloc_usize(size: usize) -> usize {
    if size == 0 { 1 } else { size }
}

/// The storage flags or usage hint chosen for a buffer.
pub open spec fn storage_kind_for(caps: Capabilities, dynamic: bool, avoid_persistent: bool) -> StorageKind {
    if caps.immutable_storage() {
        StorageKind::Immutable {
            dynamic_storage: dynamic && avoid_persistent,
            map_access: dynamic,
            persistent: dynamic && !avoid_persistent,
        }
    } else {
        StorageKind::Mutable { dynamic }
    }
}

/// The calls that generate an id and allocate its storage.
pub open spec fn storage_calls(
    caps: Capabilities,
    c: BindCache,
    id: u32,
    size: usize,
    ty: BufferType,
    dynamic: bool,
    avoid_persistent: bool,
) -> Seq<Call> {
    seq![Call::Gen(id)] + (if caps.storage == StorageEntry::NamedImmutable {
        Seq::empty()
    } else {
        bind_calls(c, ty, id)
    }) + seq![Call::Storage(id, alloc_usize(size), storage_kind_for(caps, dynamic, avoid_persistent))]
}

/// The cache once storage is allocated.
pub open spec fn storage_cache(caps: Capabilities, c: BindCache, id: u32, ty: BufferType) -> BindCache {
    if caps.storage == StorageEntry::NamedImmutable { c } else { c.with(ty, id) }
}

/// The calls of a successful creation: storage, then the persistent mapping if any.
pub open spec fn create_calls(
    caps: Capabilities,
    c: BindCache,
    id: u32,
    size: usize,
    ty: BufferType,
    dynamic: bool,
    avoid_persistent: bool,
) -> Seq<Call> {
    storage_calls(caps, c, id, size, ty, dynamic, avoid_persistent) + if persistent_for(caps, dynamic, avoid_persistent) {
        entry_binds(caps.map, storage_cache(caps, c, id, ty), ty, id) + seq![Call::MapRange(id)]
    } else {
        Seq::empty()
    }
}

/// The cache after a successful creation.
pub open spec fn create_cache(
    caps: Capabilities,
    c: BindCache,
    id: u32,
    ty: BufferType,
    dynamic: bool,
    avoid_persistent: bool,
) -> BindCache {
    if persistent_for(caps, dynamic, avoid_persistent) {
        entry_cache(caps.map, storage_cache(caps, c, id, ty), ty, id)
    } else {
        storage_cache(caps, c, id, ty)
    }
}

/// Storage that only copies and a persistent mapping can modify.
pub open spec fn immutable_for(caps: Capabilities, dynamic: bool, avoid_persistent: bool) -> bool {
    caps.immutable_storage() && !(dynamic && avoid_persistent)
}

/// Storage that stays mapped for the buffer's whole life.
pub open spec fn persistent_for(caps: Capabilities, dynamic: bool, avoid_persistent: bool) -> bool {
    caps.immutable_storage() && dynamic && !avoid_persistent
}

/// Storage that may be mapped at all.
pub open spec fn mappable_for(caps: Capabilities, dynamic: bool) -> bool {
    !caps.immutable_storage() || dynamic
}

/// What a new buffer holds: the given data, or zeros.
pub open spec fn initial_bytes(size: usize, data: Option<Seq<u8>>) -> Seq<u8> {
    match data {
        Some(d) if size > 0 => d.subrange(0, size as int),
        _ => zero_seq(alloc_size(size)),
    }
}

/// Liveness of every id is as in `old`.
pub open spec fn same_live(new: &Device, old: &Device) -> bool {
    new.same_except(old, 0)
}

/// Creates a buffer of `size` bytes holding `data` (or zeros); returns its id, whether its
/// storage is immutable, and whether it is persistently mapped.
#[verifier::rlimit(60)]
#[verifier::spinoff_prover]
pub fn create_buffer(
    ctxt: &mut Context,
    size: usize,
    data: Option<&Vec<u8>>,
    ty: BufferType,
    dynamic: bool,
    avoid_persistent: bool,
) -> (r: Result<(u32, bool, bool), BufferCreationError>)
    requires
        old(ctxt).wf(),
        old(ctxt).device.has_room(),
        data matches Some(d) ==> d.len() >= size,
        persistent_for(old(ctxt).caps, dynamic, avoid_persistent) ==> old(ctxt).caps.map != Entry::Missing
            && old(ctxt).caps.flush != Entry::Missing,
    ensures
        final(ctxt).attrib_buffers == old(ctxt).attrib_buffers,
        r is Err ==> final(ctxt).device.log@ == old(ctxt).device.log@ + storage_calls(
            old(ctxt).caps,
            old(ctxt).cache,
            old(ctxt).device.fresh_id(),
            size,
            ty,
            dynamic,
            avoid_persistent,
        ) + seq![Call::Delete(old(ctxt).device.fresh_id())],
        r is Err ==> final(ctxt).cache == storage_cache(
            old(ctxt).caps,
            old(ctxt).cache,
            old(ctxt).device.fresh_id(),
            ty,
        ).without(old(ctxt).device.fresh_id()),
        r matches Ok((id, _, _)) ==> id == old(ctxt).device.fresh_id()
            && final(ctxt).device.log@ == old(ctxt).device.log@ + create_calls(
            old(ctxt).caps,
            old(ctxt).cache,
            id,
            size,
            ty,
            dynamic,
            avoid_persistent,
        ) && final(ctxt).cache == create_cache(old(ctxt).caps, old(ctxt).cache, id, ty, dynamic, avoid_persistent),
        final(ctxt).wf(),
        final(ctxt).serial == old(ctxt).serial,
        final(ctxt).version == old(ctxt).version,
        final(ctxt).extensions == old(ctxt).extensions,
        final(ctxt).caps == old(ctxt).caps,
        final(ctxt).device.limit == old(ctxt).device.limit,
        r is Err <==> alloc_size(size) > old(ctxt).device.limit,
        r matches Err(e) ==> e == BufferCreationError::OutOfMemory
            && same_live(&final(ctxt).device, &old(ctxt).device)
            && forall|ty2: BufferType| #[trigger] final(ctxt).cache.at(ty2) == 0
                || final(ctxt).cache.at(ty2) == old(ctxt).cache.at(ty2),
        r matches Ok((id, immutable, persistent)) ==> {
            &&& id != 0
            &&& !old(ctxt).device.live(id)
            &&& final(ctxt).device.live(id)
            &&& final(ctxt).device.same_except(&old(ctxt).device, id)
            &&& immutable == immutable_for(old(ctxt).caps, dynamic, avoid_persistent)
            &&& persistent == persistent_for(old(ctxt).caps, dynamic, avoid_persistent)
            &&& final(ctxt).device.bytes(id) == initial_bytes(
                size,
                match data {
                    Some(d) => Some(d@),
                    None => None,
                },
            )
            &&& final(ctxt).device.obj(id).sub_data == !immutable
            &&& final(ctxt).device.obj(id).mappable == mappable_for(old(ctxt).caps, dynamic)
            &&& final(ctxt).device.obj(id).mapped == persistent
        },
{
    let ghost old_dev = ctxt.device;
    let ghost log0 = ctxt.device.log@;
    let ghost c0 = ctxt.cache;
    let id = ctxt.device.gen_buffer();
    let ghost gen_dev = ctxt.device;
    let alloc: usize = if size == 0 { 1 } else { size };
    let init = if size == 0 { None } else { data };
    let immutable_storage = ctxt.caps.storage != StorageEntry::BoundMutable;
    let kind = if immutable_storage {
        StorageKind::Immutable {
            dynamic_storage: dynamic && avoid_persistent,
            map_access: dynamic,
            persistent: dynamic && !avoid_persistent,
        }
    } else {
        StorageKind::Mutable { dynamic }
    };
    let addr = match ctxt.caps.storage {
        StorageEntry::NamedImmutable => Addr::Id(id),
        _ => {
            bind_buffer(ctxt, id, ty);
            Addr::Target(ty)
        },
    };
    ctxt.device.storage(addr, alloc, init, kind);
    let obtained = ctxt.device.size_of(addr);
    let ghost log1 = ctxt.device.log@;
    proof {
        assert(log1 =~= log0 + storage_calls(old(ctxt).caps, c0, id, size, ty, dynamic, avoid_persistent));
    }
    if obtained != alloc {
        destroy_buffer(ctxt, id);
        proof {
            assert(ctxt.device.log@ =~= log1 + seq![Call::Delete(id)]);
            assert forall|j: u32| 0 != j && 1 <= j <= old_dev.objects.len() implies
                (#[trigger] ctxt.device.live(j) == old_dev.live(j)) && (old_dev.live(j) ==> ctxt.device.obj(j)
                == old_dev.obj(j)) by {
                if j != id {
                    assert(ctxt.device.objects@[j - 1]@ == old_dev.objects@[j - 1]@);
                }
            }
        }
        return Err(BufferCreationError::OutOfMemory);
    }
    let immutable = immutable_storage && !(dynamic && avoid_persistent);
    let persistent = immutable_storage && dynamic && !avoid_persistent;
    if persistent {
        match ctxt.caps.map {
            Entry::Named => ctxt.device.map(Addr::Id(id)),
            _ => {
                bind_buffer(ctxt, id, ty);
                ctxt.device.map(Addr::Target(ty));
            },
        }
    }
    proof {
        assert(ctxt.device.log@ =~= log0 + create_calls(old(ctxt).caps, c0, id, size, ty, dynamic, avoid_persistent));
        assert forall|j: u32| j != id && 1 <= j <= old_dev.objects.len() implies
            (#[trigger] ctxt.device.live(j) == old_dev.live(j)) && (old_dev.live(j) ==> ctxt.device.obj(j)
            == old_dev.obj(j)) by {
            assert(ctxt.device.objects@[j - 1]@ == old_dev.objects@[j - 1]@);
        }
        if let Some(d) = data {
            assert(size > 0 ==> init == data);
        }
    }
    Ok((id, immutable, persistent))
}

} // verus!
