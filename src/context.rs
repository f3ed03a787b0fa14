use vstd::prelude::*;
use crate::version::{Version, Extensions};
use crate::caps::{Capabilities, Entry, caps_for, has_baseline};
use crate::bind_cache::{BufferType, BindCache, target_token};
use crate::device::{Device, Call, Addr};
use crate::bytes::splice;

verus! {

/// A context's state as far as buffers go: what it supports, the resolved entry points,
/// the record of bound buffers, and the driver it commands.
#[derive(Debug)]
pub struct Context {
    /// Tells this context apart from others; buffers record the serial of their context.
    pub serial: u64,
    pub version: Version,
    pub extensions: Extensions,
    pub caps: Capabilities,
    pub cache: BindCache,
    pub device: Device,
    /// The buffer ids that vertex-attribute bindings refer to.
    pub attrib_buffers: Vec<u32>,
}

impl Context {
    /// The table matches the context and the cache matches the driver's bindings.
    pub open spec fn wf(&self) -> bool {
        &&& has_baseline(self.version, self.extensions)
        &&& self.caps == caps_for(self.version, self.extensions)
        &&& self.cache == self.device.bound
    }

    /// Every object but `id` is as in `old`, `id` keeps its flags, and the limit is kept.
    pub open spec fn kept_but(&self, old: &Context, id: u32) -> bool {
        &&& self.device.objects.len() == old.device.objects.len()
        &&& forall|j: int|
            0 <= j < self.device.objects.len() && j != id - 1 ==> #[trigger] self.device.objects@[j]@
                == old.device.objects@[j]@
        &&& self.device.limit == old.device.limit
        &&& self.serial == old.serial
        &&& self.version == old.version
        &&& self.extensions == old.extensions
        &&& self.caps == old.caps
    }

    /// Builds a context over `device`, resolving its entry points once; `None` when the
    /// version and extensions lack the baseline buffer operations.
    pub fn new(serial: u64, version: Version, extensions: Extensions, device: Device) -> (r: Option<Context>)
        ensures
            r is None <==> !has_baseline(version, extensions),
            r matches Some(c) ==> c.wf() && c.serial == serial && c.version == version && c.extensions == extensions
                && c.device == device && c.attrib_buffers@.len() == 0,
    {
        match Capabilities::resolve(&version, &extensions) {
            Some(caps) => {
                let cache = device.bound;
                Some(Context { serial, version, extensions, caps, cache, device, attrib_buffers: Vec::new() })
            },
            None => None,
        }
    }
}

/// `ids` without the occurrences of `id`.
pub open spec fn without_id(ids: Seq<u32>, id: u32) -> Seq<u32> {
    ids.filter(|x: u32| x != id)
}

impl Context {
    /// Drops every vertex-attribute binding that refers to buffer `id`.
    pub fn purge_buffer(&mut self, id: u32)
        ensures
            final(self).attrib_buffers@ == without_id(old(self).attrib_buffers@, id),
            !final(self).attrib_buffers@.contains(id),
            final(self).serial == old(self).serial,
            final(self).version == old(self).version,
            final(self).extensions == old(self).extensions,
            final(self).caps == old(self).caps,
            final(self).cache == old(self).cache,
            final(self).device == old(self).device,
    {
        let ghost ids = self.attrib_buffers@;
        let mut kept: Vec<u32> = Vec::new();
        let mut i: usize = 0;
        while i < self.attrib_buffers.len()
            invariant
                i <= self.attrib_buffers.len(),
                self.attrib_buffers@ == ids,
                kept@ == without_id(ids.subrange(0, i as int), id),
            decreases self.attrib_buffers.len() - i,
        {
            let x = self.attrib_buffers[i];
            proof {
                assert(ids.subrange(0, i + 1).drop_last() =~= ids.subrange(0, i as int));
                reveal(Seq::filter);
            }
            if x != id {
                kept.push(x);
            }
            i += 1;
        }
        proof {
            assert(ids.subrange(0, ids.len() as int) =~= ids);
            if kept@.contains(id) {
                let k = choose|k: int| 0 <= k < kept@.len() && kept@[k] == id;
                ids.lemma_filter_pred(|x: u32| x != id, k);
            }
        }
        self.attrib_buffers = kept;
    }
}

/// The calls `bind_buffer` makes: one bind, unless the cache shows `id` at `ty` already.
pub open spec fn bind_calls(c: BindCache, ty: BufferType, id: u32) -> Seq<Call> {
    if c.at(ty) == id {
        Seq::empty()
    } else {
        seq![Call::Bind(ty, id)]
    }
}

/// The binds that precede a call made through `entry`: none for a direct-addressed call.
pub open spec fn entry_binds(entry: Entry, c: BindCache, ty: BufferType, id: u32) -> Seq<Call> {
    if entry == Entry::Named {
        Seq::empty()
    } else {
        bind_calls(c, ty, id)
    }
}

/// The cache once a call through `entry` has bound what it needs.
pub open spec fn entry_cache(entry: Entry, c: BindCache, ty: BufferType, id: u32) -> BindCache {
    if entry == Entry::Named {
        c
    } else {
        c.with(ty, id)
    }
}

/// The target a bind-based copy reads `source` from: where it is cached, else the
/// copy-read target, or the copy-write target when the destination holds copy-read.
pub open spec fn copy_source_target(c: BindCache, source: u32, dest: u32) -> BufferType {
    match c.first_holding(source) {
        Some(t) => t,
        None => if c.copy_read_buffer == dest {
            BufferType::CopyWriteBuffer
        } else {
            BufferType::CopyReadBuffer
        },
    }
}

/// The target a bind-based copy writes `dest` through: where it is cached once the source
/// is bound, else whichever copy target the source does not use.
pub open spec fn copy_dest_target(c: BindCache, source: u32, dest: u32) -> BufferType {
    let s = copy_source_target(c, source, dest);
    match c.with(s, source).first_holding(dest) {
        Some(t) => t,
        None => if s == BufferType::CopyWriteBuffer {
            BufferType::CopyReadBuffer
        } else {
            BufferType::CopyWriteBuffer
        },
    }
}

/// The calls `copy_buffer` makes.
pub open spec fn copy_calls(
    caps: Capabilities,
    c: BindCache,
    source: u32,
    dest: u32,
    source_offset: usize,
    dest_offset: usize,
    size: usize,
) -> Seq<Call> {
    let copy = Call::CopySubData(source, dest, source_offset, dest_offset, size);
    if caps.copy == Entry::Named {
        seq![copy]
    } else {
        let s = copy_source_target(c, source, dest);
        let d = copy_dest_target(c, source, dest);
        bind_calls(c, s, source) + bind_calls(c.with(s, source), d, dest) + seq![copy]
    }
}

/// The cache after `copy_buffer`.
pub open spec fn copy_cache(caps: Capabilities, c: BindCache, source: u32, dest: u32) -> BindCache {
    if caps.copy == Entry::Named {
        c
    } else {
        c.with(copy_source_target(c, source, dest), source).with(copy_dest_target(c, source, dest), dest)
    }
}

/// Binds `id` at `ty`'s target unless the cache shows it there already; returns the target.
pub fn bind_buffer(ctxt: &mut Context, id: u32, ty: BufferType) -> (r: u32)
    requires
        old(ctxt).wf(),
    ensures
        final(ctxt).wf(),
        r == target_token(ty),
        final(ctxt).cache == old(ctxt).cache.with(ty, id),
        final(ctxt).device.objects == old(ctxt).device.objects,
        final(ctxt).device.limit == old(ctxt).device.limit,
        final(ctxt).serial == old(ctxt).serial,
        final(ctxt).version == old(ctxt).version,
        final(ctxt).extensions == old(ctxt).extensions,
        final(ctxt).caps == old(ctxt).caps,
        old(ctxt).cache.at(ty) == id ==> final(ctxt).device.log == old(ctxt).device.log,
        old(ctxt).cache.at(ty) != id ==> final(ctxt).device.log@ == old(ctxt).device.log@.push(
            Call::Bind(ty, id),
        ),
        final(ctxt).device.log@ == old(ctxt).device.log@ + bind_calls(old(ctxt).cache, ty, id),
        final(ctxt).attrib_buffers == old(ctxt).attrib_buffers,
{
    let ghost log0 = ctxt.device.log@;
    if ctxt.cache.get(ty) != id {
        ctxt.cache.set(ty, id);
        ctxt.device.bind(ty, id);
    } else {
        proof {
            assert(ctxt.cache.with(ty, id) == ctxt.cache);
        }
    }
    proof {
        assert(ctxt.device.log@ =~= log0 + bind_calls(old(ctxt).cache, ty, id));
    }
    ty.target()
}

/// Empties every cached target that holds `id`, then deletes the buffer.
pub fn destroy_buffer(ctxt: &mut Context, id: u32)
    requires
        old(ctxt).wf(),
        old(ctxt).device.live(id),
    ensures
        final(ctxt).wf(),
        final(ctxt).kept_but(old(ctxt), id),
        !final(ctxt).device.live(id),
        final(ctxt).cache == old(ctxt).cache.without(id),
        final(ctxt).device.log@ == old(ctxt).device.log@.push(Call::Delete(id)),
        final(ctxt).attrib_buffers == old(ctxt).attrib_buffers,
{
    ctxt.cache.clear(id);
    ctxt.device.delete(id);
}

/// After a copy, the destination's range holds the source's range as it was just before
/// the copy, whether or not the two are the same buffer.
pub proof fn lemma_copy_reads_back(source: Seq<u8>, source_offset: int, dest: Seq<u8>, dest_offset: int, size: int)
    requires
        0 <= source_offset,
        0 <= dest_offset,
        0 <= size,
        source_offset + size <= source.len(),
        dest_offset + size <= dest.len(),
    ensures
        splice(dest, dest_offset, source.subrange(source_offset, source_offset + size)).subrange(
            dest_offset,
            dest_offset + size,
        ) == source.subrange(source_offset, source_offset + size),
{
    crate::bytes::lemma_splice_read_back(dest, dest_offset, source.subrange(source_offset, source_offset + size));
}

/// Which targets a bind-based copy uses, and what binding them does to the cache.
pub proof fn lemma_copy_targets(c: BindCache, source: u32, dest: u32)
    ensures
        ({
            let s = copy_source_target(c, source, dest);
            let d = copy_dest_target(c, source, dest);
            let f = c.with(s, source).with(d, dest);
            &&& source != dest ==> s != d
            &&& f.at(s) == source
            &&& f.at(d) == dest
            &&& forall|t: BufferType| t != s && t != d ==> #[trigger] f.at(t) == c.at(t)
            &&& (bind_calls(c, s, source) + bind_calls(c.with(s, source), d, dest)).len()
                == (if c.first_holding(source) is None { 1int } else { 0int })
                + (if source != dest && c.first_holding(dest) is None { 1int } else { 0int })
        }),
{
}

/// Binds the operands of a bind-based copy where the cache does not show them, leaving each
/// at a target of its own.
fn bind_copy_operands(ctxt: &mut Context, source: u32, dest: u32) -> (r: (BufferType, BufferType))
    requires
        old(ctxt).wf(),
    ensures
        final(ctxt).wf(),
        r.0 == copy_source_target(old(ctxt).cache, source, dest),
        r.1 == copy_dest_target(old(ctxt).cache, source, dest),
        final(ctxt).cache == old(ctxt).cache.with(r.0, source).with(r.1, dest),
        final(ctxt).device.log@ == old(ctxt).device.log@ + bind_calls(old(ctxt).cache, r.0, source)
            + bind_calls(old(ctxt).cache.with(r.0, source), r.1, dest),
        final(ctxt).device.objects == old(ctxt).device.objects,
        final(ctxt).device.limit == old(ctxt).device.limit,
        final(ctxt).serial == old(ctxt).serial,
        final(ctxt).version == old(ctxt).version,
        final(ctxt).extensions == old(ctxt).extensions,
        final(ctxt).caps == old(ctxt).caps,
        final(ctxt).attrib_buffers == old(ctxt).attrib_buffers,
{
    let ghost c0 = ctxt.cache;
    let ghost log0 = ctxt.device.log@;
        let source_ty = match ctxt.cache.find_bind_point(source) {
            Some(t) => t,
            None => {
                // reuse whichever copy target leaves the destination where it is
                if ctxt.cache.get(BufferType::CopyReadBuffer) == dest {
                    bind_buffer(ctxt, source, BufferType::CopyWriteBuffer);
                    BufferType::CopyWriteBuffer
                } else {
                    bind_buffer(ctxt, source, BufferType::CopyReadBuffer);
                    BufferType::CopyReadBuffer
                }
            },
        };
        proof {
            if c0.first_holding(source) is Some {
                assert(c0.at(source_ty) == source);
                assert(c0.with(source_ty, source) == c0);
            }
        }
        assert(ctxt.cache == c0.with(source_ty, source));
        let ghost c1 = ctxt.cache;
        let dest_ty = match ctxt.cache.find_bind_point(dest) {
            Some(t) => t,
            None => {
                // never displace the source from its target
                if source_ty == BufferType::CopyWriteBuffer {
                    bind_buffer(ctxt, dest, BufferType::CopyReadBuffer);
                    BufferType::CopyReadBuffer
                } else {
                    bind_buffer(ctxt, dest, BufferType::CopyWriteBuffer);
                    BufferType::CopyWriteBuffer
                }
            },
        };
        proof {
            if c1.first_holding(dest) is Some {
                assert(c1.at(dest_ty) == dest);
                assert(c1.with(dest_ty, dest) == c1);
            }
        }
        assert(ctxt.cache == c1.with(dest_ty, dest));
    proof {
        assert(ctxt.device.log@ =~= log0 + bind_calls(c0, source_ty, source) + bind_calls(c1, dest_ty, dest));
    }
    (source_ty, dest_ty)
}

/// Copies `size` bytes of buffer `source` from `source_offset` into buffer `dest` at
/// `dest_offset`.
pub fn copy_buffer(
    ctxt: &mut Context,
    source: u32,
    source_offset: usize,
    dest: u32,
    dest_offset: usize,
    size: usize,
)
    requires
        old(ctxt).wf(),
        old(ctxt).caps.copy != Entry::Missing,
        old(ctxt).device.live(source),
        old(ctxt).device.live(dest),
        source_offset + size <= old(ctxt).device.bytes(source).len(),
        dest_offset + size <= old(ctxt).device.bytes(dest).len(),
    ensures
        final(ctxt).wf(),
        final(ctxt).kept_but(old(ctxt), dest),
        final(ctxt).device.obj(dest).live == old(ctxt).device.obj(dest).live,
        final(ctxt).device.obj(dest).sub_data == old(ctxt).device.obj(dest).sub_data,
        final(ctxt).device.obj(dest).mappable == old(ctxt).device.obj(dest).mappable,
        final(ctxt).device.obj(dest).mapped == old(ctxt).device.obj(dest).mapped,
        final(ctxt).device.bytes(dest) == splice(
            old(ctxt).device.bytes(dest),
            dest_offset as int,
            old(ctxt).device.bytes(source).subrange(source_offset as int, source_offset + size),
        ),
        final(ctxt).attrib_buffers == old(ctxt).attrib_buffers,
        final(ctxt).cache == copy_cache(old(ctxt).caps, old(ctxt).cache, source, dest),
        final(ctxt).device.log@ == old(ctxt).device.log@ + copy_calls(
            old(ctxt).caps,
            old(ctxt).cache,
            source,
            dest,
            source_offset,
            dest_offset,
            size,
        ),
        old(ctxt).caps.copy == Entry::Named ==> final(ctxt).cache == old(ctxt).cache
            && final(ctxt).device.log@ == old(ctxt).device.log@.push(
            Call::CopySubData(source, dest, source_offset, dest_offset, size),
        ),
        old(ctxt).caps.copy == Entry::Bound ==> {
            let s = copy_source_target(old(ctxt).cache, source, dest);
            let d = copy_dest_target(old(ctxt).cache, source, dest);
            &&& source != dest ==> s != d
            &&& final(ctxt).cache.at(s) == source
            &&& final(ctxt).cache.at(d) == dest
            &&& forall|t: BufferType| t != s && t != d ==> #[trigger] final(ctxt).cache.at(t) == old(ctxt).cache.at(t)
            &&& copy_calls(old(ctxt).caps, old(ctxt).cache, source, dest, source_offset, dest_offset, size).len()
                == 1 + (if old(ctxt).cache.first_holding(source) is None { 1int } else { 0int })
                + (if source != dest && old(ctxt).cache.first_holding(dest) is None { 1int } else { 0int })
        },
{
    let ghost log0 = ctxt.device.log@;
    let ghost c0 = ctxt.cache;
    if ctxt.caps.copy == Entry::Named {
        ctxt.device.copy(Addr::Id(source), Addr::Id(dest), source_offset, dest_offset, size);
    } else {
        let (source_ty, dest_ty) = bind_copy_operands(ctxt, source, dest);
        proof {
            lemma_copy_targets(c0, source, dest);
        }
        ctxt.device.copy(
            Addr::Target(source_ty),
            Addr::Target(dest_ty),
            source_offset,
            dest_offset,
            size,
        );
        proof {
            assert(ctxt.device.log@ =~= log0 + bind_calls(c0, source_ty, source) + bind_calls(
                c0.with(source_ty, source),
                dest_ty,
                dest,
            ) + seq![Call::CopySubData(source, dest, source_offset, dest_offset, size)]);
        }
    }
}

} // verus!
