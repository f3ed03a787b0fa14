use vstd::prelude::*;
use crate::caps::Entry;
use crate::bind_cache::BufferType;
use crate::device::{Addr, Call};
use crate::caps::Capabilities;
use crate::bind_cache::BindCache;
use crate::context::{
    Context, bind_buffer, destroy_buffer, copy_buffer, without_id, entry_binds, entry_cache, copy_calls,
    copy_cache,
};
use crate::allocator::{
    BufferCreationError, create_buffer, alloc_size, immutable_for, persistent_for, initial_bytes,
    same_live, storage_calls, create_calls, create_cache,
};
use crate::bytes::{splice, zero_seq, lemma_splice_twice, lemma_splice_prefix, lemma_splice_same};

verus! {

/// A buffer in the device's memory.
#[derive(Debug)]
pub struct Buffer {
    /// The serial of the context the buffer belongs to.
    context: u64,
    /// The driver's id; never zero.
    id: u32,
    ty: BufferType,
    /// Size in bytes, fixed at creation.
    size: usize,
    /// The buffer stays mapped for its whole life.
    persistent: bool,
    /// Only copies and the persistent mapping can modify the buffer.
    immutable: bool,
}

impl Buffer {
    pub closed spec fn id_spec(&self) -> u32 {
        self.id
    }

    pub closed spec fn context_spec(&self) -> u64 {
        self.context
    }

    pub closed spec fn ty_spec(&self) -> BufferType {
        self.ty
    }

    pub closed spec fn size_spec(&self) -> usize {
        self.size
    }

    pub closed spec fn persistent_spec(&self) -> bool {
        self.persistent
    }

    pub closed spec fn immutable_spec(&self) -> bool {
        self.immutable
    }

    /// The buffer is live in `ctxt`'s driver with the storage its flags describe.
    pub open spec fn wf(&self, ctxt: &Context) -> bool {
        let id = self.id_spec();
        let o = ctxt.device.obj(id);
        &&& ctxt.wf()
        &&& ctxt.serial == self.context_spec()
        &&& id != 0
        &&& ctxt.device.live(id)
        &&& o.data.len() == alloc_size(self.size_spec())
        &&& alloc_size(self.size_spec()) <= ctxt.device.limit
        &&& o.sub_data == !self.immutable_spec()
        &&& o.mapped == self.persistent_spec()
        &&& self.persistent_spec() ==> self.immutable_spec() && ctxt.caps.flush != Entry::Missing
    }

    /// The bytes the buffer holds.
    pub open spec fn contents(&self, ctxt: &Context) -> Seq<u8> {
        ctxt.device.bytes(self.id_spec()).subrange(0, self.size_spec() as int)
    }

    /// Builds a buffer holding `data`; its size is the length of `data`.
    pub fn new(ctxt: &mut Context, data: &Vec<u8>, ty: BufferType, dynamic: bool) -> (r: Result<Buffer, BufferCreationError>)
        requires
            old(ctxt).wf(),
            old(ctxt).device.has_room(),
            persistent_for(old(ctxt).caps, dynamic, false) ==> old(ctxt).caps.map != Entry::Missing
                && old(ctxt).caps.flush != Entry::Missing,
        ensures
            final(ctxt).attrib_buffers == old(ctxt).attrib_buffers,
            r is Err ==> final(ctxt).device.log@ == old(ctxt).device.log@ + storage_calls(
                old(ctxt).caps,
                old(ctxt).cache,
                old(ctxt).device.fresh_id(),
                data.len(),
                ty,
                dynamic,
                false,
            ) + seq![Call::Delete(old(ctxt).device.fresh_id())],
            r matches Ok(b) ==> b.id_spec() == old(ctxt).device.fresh_id()
                && final(ctxt).device.log@ == old(ctxt).device.log@ + create_calls(
                old(ctxt).caps,
                old(ctxt).cache,
                b.id_spec(),
                data.len(),
                ty,
                dynamic,
                false,
            ) && final(ctxt).cache == create_cache(old(ctxt).caps, old(ctxt).cache, b.id_spec(), ty, dynamic, false),
            final(ctxt).wf(),
            final(ctxt).caps == old(ctxt).caps,
            r is Err <==> alloc_size(data.len()) > old(ctxt).device.limit,
            r is Err ==> same_live(&final(ctxt).device, &old(ctxt).device),
            r matches Ok(b) ==> {
                &&& b.wf(final(ctxt))
                &&& b.context_spec() == old(ctxt).serial
                &&& !old(ctxt).device.live(b.id_spec())
                &&& final(ctxt).device.same_except(&old(ctxt).device, b.id_spec())
                &&& b.contents(final(ctxt)) == data@
                &&& b.size_spec() == data.len()
                &&& b.ty_spec() == ty
                &&& b.persistent_spec() == persistent_for(old(ctxt).caps, dynamic, false)
                &&& b.immutable_spec() == immutable_for(old(ctxt).caps, dynamic, false)
            },
    {
        match create_buffer(ctxt, data.len(), Some(data), ty, dynamic, false) {
            Ok((id, immutable, persistent)) => {
                proof {
                    if data.len() == 0 {
                        assert(ctxt.device.bytes(id).subrange(0, 0) =~= data@);
                    } else {
                        assert(data@.subrange(0, data.len() as int) =~= data@);
                        assert(ctxt.device.bytes(id).subrange(0, data.len() as int) =~= data@);
                    }
                }
                Ok(Buffer { context: ctxt.serial, id, ty, size: data.len(), persistent, immutable })
            },
            Err(e) => Err(e),
        }
    }

    /// Builds a buffer of `size` bytes, all zero.
    pub fn empty(ctxt: &mut Context, ty: BufferType, size: usize, dynamic: bool) -> (r: Result<Buffer, BufferCreationError>)
        requires
            old(ctxt).wf(),
            old(ctxt).device.has_room(),
            persistent_for(old(ctxt).caps, dynamic, false) ==> old(ctxt).caps.map != Entry::Missing
                && old(ctxt).caps.flush != Entry::Missing,
        ensures
            final(ctxt).attrib_buffers == old(ctxt).attrib_buffers,
            r is Err ==> final(ctxt).device.log@ == old(ctxt).device.log@ + storage_calls(
                old(ctxt).caps,
                old(ctxt).cache,
                old(ctxt).device.fresh_id(),
                size,
                ty,
                dynamic,
                false,
            ) + seq![Call::Delete(old(ctxt).device.fresh_id())],
            r matches Ok(b) ==> b.id_spec() == old(ctxt).device.fresh_id()
                && final(ctxt).device.log@ == old(ctxt).device.log@ + create_calls(
                old(ctxt).caps,
                old(ctxt).cache,
                b.id_spec(),
                size,
                ty,
                dynamic,
                false,
            ) && final(ctxt).cache == create_cache(old(ctxt).caps, old(ctxt).cache, b.id_spec(), ty, dynamic, false),
            final(ctxt).wf(),
            final(ctxt).caps == old(ctxt).caps,
            r is Err <==> alloc_size(size) > old(ctxt).device.limit,
            r is Err ==> same_live(&final(ctxt).device, &old(ctxt).device),
            r matches Ok(b) ==> {
                &&& b.wf(final(ctxt))
                &&& b.context_spec() == old(ctxt).serial
                &&& !old(ctxt).device.live(b.id_spec())
                &&& final(ctxt).device.same_except(&old(ctxt).device, b.id_spec())
                &&& b.contents(final(ctxt)) == zero_seq(size as nat)
                &&& b.size_spec() == size
                &&& b.ty_spec() == ty
                &&& b.persistent_spec() == persistent_for(old(ctxt).caps, dynamic, false)
                &&& b.immutable_spec() == immutable_for(old(ctxt).caps, dynamic, false)
            },
    {
        match create_buffer(ctxt, size, None, ty, dynamic, false) {
            Ok((id, immutable, persistent)) => {
                proof {
                    assert(ctxt.device.bytes(id).subrange(0, size as int) =~= zero_seq(size as nat));
                }
                Ok(Buffer { context: ctxt.serial, id, ty, size, persistent, immutable })
            },
            Err(e) => Err(e),
        }
    }

    /// The serial of the context this buffer belongs to.
    pub fn get_context(&self) -> (r: u64)
        ensures
            r == self.context_spec(),
    {
        self.context
    }

    /// The driver's id of this buffer.
    pub fn get_id(&self) -> (r: u32)
        ensures
            r == self.id_spec(),
    {
        self.id
    }

    /// The total size in bytes of this buffer.
    pub fn get_size(&self) -> (r: usize)
        ensures
            r == self.size_spec(),
    {
        self.size
    }

    /// The logical type of this buffer.
    pub fn get_type(&self) -> (r: BufferType)
        ensures
            r == self.ty_spec(),
    {
        self.ty
    }

    /// True if the buffer is mapped in memory for its whole life.
    pub fn uses_persistent_mapping(&self) -> (r: bool)
        ensures
            r == self.persistent_spec(),
    {
        self.persistent
    }

    /// Changes the logical type of the buffer.
    pub fn set_type(self, ty: BufferType) -> (r: Result<Buffer, Buffer>)
        ensures
            r matches Ok(b) && b.ty_spec() == ty && b.id_spec() == self.id_spec()
                && b.context_spec() == self.context_spec()
                && b.size_spec() == self.size_spec() && b.persistent_spec() == self.persistent_spec()
                && b.immutable_spec() == self.immutable_spec(),
    {
        Ok(Buffer { ty, ..self })
    }
}

/// A view of `len` bytes of a buffer from `offset` on, either through the buffer's
/// persistent mapping or through a mapped staging buffer that is copied back on release.
#[derive(Debug)]
pub struct Mapping {
    buffer: u32,
    ty: BufferType,
    offset: usize,
    len: usize,
    /// The staging buffer's id, when there is one.
    staging: Option<u32>,
}

impl Mapping {
    pub closed spec fn buffer_spec(&self) -> u32 {
        self.buffer
    }

    pub closed spec fn ty_spec(&self) -> BufferType {
        self.ty
    }

    pub closed spec fn offset_spec(&self) -> usize {
        self.offset
    }

    pub closed spec fn len_spec(&self) -> usize {
        self.len
    }

    /// The id of the staging buffer, or 0 when the buffer's own mapping is used.
    pub closed spec fn staging_spec(&self) -> u32 {
        match self.staging {
            Some(t) => t,
            None => 0,
        }
    }

    pub closed spec fn has_staging(&self) -> bool {
        self.staging is Some
    }

    /// The object that is mapped.
    pub open spec fn mapped_id(&self) -> u32 {
        if self.has_staging() { self.staging_spec() } else { self.buffer_spec() }
    }

    /// Where the view starts within the mapped object.
    pub open spec fn base(&self) -> int {
        if self.has_staging() { 0 } else { self.offset_spec() as int }
    }

    /// The bytes seen through the mapping.
    pub open spec fn view(&self, ctxt: &Context) -> Seq<u8> {
        ctxt.device.bytes(self.mapped_id()).subrange(self.base(), self.base() + self.len_spec())
    }

    pub open spec fn wf(&self, ctxt: &Context) -> bool {
        let b = self.buffer_spec();
        let m = self.mapped_id();
        &&& ctxt.wf()
        &&& b != 0
        &&& ctxt.device.live(b)
        &&& ctxt.device.live(m)
        &&& ctxt.device.obj(m).mapped
        &&& self.offset_spec() + self.len_spec() <= ctxt.device.bytes(b).len()
        &&& self.offset_spec() + self.len_spec() <= usize::MAX
        &&& self.base() + self.len_spec() <= ctxt.device.bytes(m).len()
        &&& ctxt.caps.flush != Entry::Missing
        &&& !self.has_staging() ==> self.staging_spec() == 0
        &&& self.has_staging() ==> {
            &&& self.staging_spec() != b
            &&& ctxt.caps.copy != Entry::Missing
            &&& ctxt.caps.unmap != Entry::Missing
            &&& !ctxt.device.obj(b).mapped
        }
    }

    /// The cache once the flush at release has bound what it needs.
    pub open spec fn flushed_cache(&self, caps: Capabilities, c: BindCache) -> BindCache {
        entry_cache(caps.flush, c, self.ty_spec(), self.mapped_id())
    }

    /// The cache once a staging buffer is unmapped at release.
    pub open spec fn unmapped_cache(&self, caps: Capabilities, c: BindCache) -> BindCache {
        entry_cache(caps.unmap, self.flushed_cache(caps, c), self.ty_spec(), self.staging_spec())
    }

    /// The calls `release` makes, starting from cache `c`: flush the mapped range; for a
    /// staging buffer then unmap it, copy it back to the buffer and delete it.
    pub open spec fn release_calls(&self, caps: Capabilities, c: BindCache) -> Seq<Call> {
        let m = self.mapped_id();
        let tmp = self.staging_spec();
        let flush = entry_binds(caps.flush, c, self.ty_spec(), m) + seq![
            Call::FlushRange(m, self.base() as usize, self.len_spec()),
        ];
        if self.has_staging() {
            flush + entry_binds(caps.unmap, self.flushed_cache(caps, c), self.ty_spec(), tmp) + seq![
                Call::Unmap(tmp),
            ] + copy_calls(
                caps,
                self.unmapped_cache(caps, c),
                tmp,
                self.buffer_spec(),
                0,
                self.offset_spec(),
                self.len_spec(),
            ) + seq![Call::Delete(tmp)]
        } else {
            flush
        }
    }

    /// The cache after `release`, starting from cache `c`.
    pub open spec fn release_cache(&self, caps: Capabilities, c: BindCache) -> BindCache {
        if self.has_staging() {
            copy_cache(caps, self.unmapped_cache(caps, c), self.staging_spec(), self.buffer_spec()).without(
                self.staging_spec(),
            )
        } else {
            self.flushed_cache(caps, c)
        }
    }

    /// The number of bytes in view.
    pub fn len(&self) -> (r: usize)
        ensures
            r == self.len_spec(),
    {
        self.len
    }

    fn mapped(&self) -> (r: u32)
        ensures
            r == self.mapped_id(),
    {
        match self.staging {
            Some(t) => t,
            None => self.buffer,
        }
    }

    fn base_exec(&self) -> (r: usize)
        ensures
            r == self.base(),
    {
        match self.staging {
            Some(_) => 0,
            None => self.offset,
        }
    }

    /// The byte at `i` of the view.
    pub fn get(&self, ctxt: &Context, i: usize) -> (r: u8)
        requires
            self.wf(ctxt),
            i < self.len_spec(),
        ensures
            r == self.view(ctxt)[i as int],
    {
        ctxt.device.load(self.mapped(), self.base_exec() + i)
    }

    /// Writes the byte at `i` of the view.
    pub fn set(&self, ctxt: &mut Context, i: usize, v: u8)
        requires
            self.wf(old(ctxt)),
            i < self.len_spec(),
        ensures
            self.wf(final(ctxt)),
            final(ctxt).cache == old(ctxt).cache,
            final(ctxt).kept_but(old(ctxt), self.mapped_id()),
            final(ctxt).device.obj(self.mapped_id()) == (crate::device::ObjView {
                data: final(ctxt).device.bytes(self.mapped_id()),
                ..old(ctxt).device.obj(self.mapped_id())
            }),
            self.view(final(ctxt)) == self.view(old(ctxt)).update(i as int, v),
            final(ctxt).attrib_buffers == old(ctxt).attrib_buffers,
            !self.has_staging() ==> final(ctxt).device.bytes(self.buffer_spec()) == splice(
                old(ctxt).device.bytes(self.buffer_spec()),
                self.offset_spec() as int,
                self.view(final(ctxt)),
            ),
            final(ctxt).device.log == old(ctxt).device.log,
    {
        let m = self.mapped();
        let pos = self.base_exec() + i;
        ctxt.device.store(m, pos, v);
        proof {
            assert(self.view(ctxt) =~= self.view(old(ctxt)).update(i as int, v));
            if !self.has_staging() {
                assert(ctxt.device.bytes(self.buffer_spec()) =~= splice(
                    old(ctxt).device.bytes(self.buffer_spec()),
                    self.offset_spec() as int,
                    self.view(ctxt),
                ));
            }
        }
    }

    /// Writes `data` over the whole view.
    pub fn write_all(&self, ctxt: &mut Context, data: &Vec<u8>)
        requires
            self.wf(old(ctxt)),
            data.len() == self.len_spec(),
        ensures
            self.wf(final(ctxt)),
            final(ctxt).cache == old(ctxt).cache,
            final(ctxt).kept_but(old(ctxt), self.mapped_id()),
            final(ctxt).device.obj(self.mapped_id()) == (crate::device::ObjView {
                data: final(ctxt).device.bytes(self.mapped_id()),
                ..old(ctxt).device.obj(self.mapped_id())
            }),
            self.view(final(ctxt)) == data@,
            final(ctxt).device.log == old(ctxt).device.log,
            final(ctxt).attrib_buffers == old(ctxt).attrib_buffers,
            !self.has_staging() ==> final(ctxt).device.bytes(self.buffer_spec()) == splice(
                old(ctxt).device.bytes(self.buffer_spec()),
                self.offset_spec() as int,
                data@,
            ),
    {
        let ghost start = *ctxt;
        let ghost v0 = self.view(ctxt);
        let ghost mid = self.mapped_id();
        let ghost b = self.buffer_spec();
        let mut i: usize = 0;
        while i < self.len
            invariant
                self.wf(ctxt),
                mid == self.mapped_id(),
                b == self.buffer_spec(),
                i <= self.len_spec() == data.len(),
                v0.len() == data.len(),
                self.offset_spec() + self.len_spec() <= start.device.bytes(b).len(),
                self.view(ctxt) == data@.subrange(0, i as int) + v0.subrange(i as int, data.len() as int),
                ctxt.kept_but(&start, mid),
                ctxt.cache == start.cache,
                ctxt.device.log == start.device.log,
                ctxt.attrib_buffers == start.attrib_buffers,
                ctxt.device.obj(mid) == (crate::device::ObjView {
                    data: ctxt.device.bytes(mid),
                    ..start.device.obj(mid)
                }),
                !self.has_staging() ==> ctxt.device.bytes(b) == splice(
                    start.device.bytes(b),
                    self.offset_spec() as int,
                    self.view(ctxt),
                ),
            decreases self.len_spec() - i,
        {
            let ghost before = *ctxt;
            self.set(ctxt, i, data[i]);
            proof {
                assert(self.view(ctxt) =~= data@.subrange(0, i + 1) + v0.subrange(i + 1, data.len() as int));
                assert forall|j: int| 0 <= j < ctxt.device.objects.len() && j != mid - 1 implies
                    #[trigger] ctxt.device.objects@[j]@ == start.device.objects@[j]@ by {
                    assert(before.device.objects@[j]@ == start.device.objects@[j]@);
                }
                assert(ctxt.device.obj(mid).live == start.device.obj(mid).live);
                assert(ctxt.device.obj(mid).mapped == start.device.obj(mid).mapped);
                assert(ctxt.device.obj(mid).sub_data == start.device.obj(mid).sub_data);
                assert(ctxt.device.obj(mid).mappable == start.device.obj(mid).mappable);
                if !self.has_staging() {
                    lemma_splice_twice(start.device.bytes(b), self.offset_spec() as int, self.view(&before), self.view(ctxt));
                }
            }
            i += 1;
        }
        proof {
            assert(data@.subrange(0, data.len() as int) + v0.subrange(data.len() as int, data.len() as int) =~= data@);
        }
    }

    /// Releases the mapping: flushes the written range, and for a staging buffer unmaps it,
    /// copies it back into the buffer and destroys it.
    #[verifier::rlimit(60)]
    #[verifier::spinoff_prover]
    pub fn release(self, ctxt: &mut Context)
        requires
            self.wf(old(ctxt)),
        ensures
            final(ctxt).wf(),
            final(ctxt).serial == old(ctxt).serial,
            final(ctxt).version == old(ctxt).version,
            final(ctxt).extensions == old(ctxt).extensions,
            final(ctxt).caps == old(ctxt).caps,
            final(ctxt).device.limit == old(ctxt).device.limit,
            final(ctxt).device.same_except_two(&old(ctxt).device, self.buffer_spec(), self.staging_spec()),
            self.has_staging() ==> !final(ctxt).device.live(self.staging_spec()),
            final(ctxt).device.live(self.buffer_spec()),
            final(ctxt).device.obj(self.buffer_spec()) == (crate::device::ObjView {
                data: final(ctxt).device.bytes(self.buffer_spec()),
                ..old(ctxt).device.obj(self.buffer_spec())
            }),
            final(ctxt).device.bytes(self.buffer_spec()) == splice(
                old(ctxt).device.bytes(self.buffer_spec()),
                self.offset_spec() as int,
                self.view(old(ctxt)),
            ),
            final(ctxt).attrib_buffers == old(ctxt).attrib_buffers,
            final(ctxt).device.log@ == old(ctxt).device.log@ + self.release_calls(old(ctxt).caps, old(ctxt).cache),
            final(ctxt).cache == self.release_cache(old(ctxt).caps, old(ctxt).cache),
            self.has_staging() ==> forall|t: BufferType| #[trigger] final(ctxt).cache.at(t) != self.staging_spec(),
    {
        let ghost old_dev = ctxt.device;
        let ghost log0 = ctxt.device.log@;
        let m = self.mapped();
        let base = self.base_exec();
        match ctxt.caps.flush {
            Entry::Named => ctxt.device.flush(Addr::Id(m), base, self.len),
            _ => {
                bind_buffer(ctxt, m, self.ty);
                ctxt.device.flush(Addr::Target(self.ty), base, self.len);
            },
        }
        let ghost log1 = ctxt.device.log@;
        match self.staging {
            None => {
                proof {
                    crate::bytes::lemma_splice_same(old_dev.bytes(self.buffer), self.offset as int, self.len as int);
                    assert(ctxt.device.log@ =~= log0 + self.release_calls(old(ctxt).caps, old(ctxt).cache));
                }
            },
            Some(tmp) => {
                match ctxt.caps.unmap {
                    Entry::Named => ctxt.device.unmap(Addr::Id(tmp)),
                    _ => {
                        bind_buffer(ctxt, tmp, self.ty);
                        ctxt.device.unmap(Addr::Target(self.ty));
                    },
                }
                assert(ctxt.device.objects@[self.buffer - 1]@ == old_dev.objects@[self.buffer - 1]@);
                let ghost before_copy = ctxt.device;
                copy_buffer(ctxt, tmp, 0, self.buffer, self.offset, self.len);
                assert(ctxt.device.objects@[tmp - 1]@ == before_copy.objects@[tmp - 1]@);
                destroy_buffer(ctxt, tmp);
                proof {
                    crate::bind_cache::lemma_without_clears(
                        copy_cache(old(ctxt).caps, self.unmapped_cache(old(ctxt).caps, old(ctxt).cache), tmp, self.buffer),
                        tmp,
                    );
                    assert(ctxt.device.log@ =~= log0 + self.release_calls(old(ctxt).caps, old(ctxt).cache));
                }
            },
        }
        proof {
            assert forall|j: u32| j != self.buffer_spec() && j != self.staging_spec() && 1 <= j <= old_dev.objects.len() implies
                (#[trigger] ctxt.device.live(j) == old_dev.live(j)) && (old_dev.live(j) ==> ctxt.device.obj(j)
                == old_dev.obj(j)) by {
                assert(ctxt.device.objects@[j - 1]@ == old_dev.objects@[j - 1]@);
            }
        }
    }
}

/// A pattern written through a mapping of `[offset, offset + pattern.len())` reads back
/// after release, on the persistent and the staging path alike: release leaves the buffer's
/// bytes as its earlier bytes with the view spliced in at `offset`, and that range of the
/// result is the pattern.
pub proof fn lemma_mapped_write_reads_back(before: Seq<u8>, offset: int, pattern: Seq<u8>)
    requires
        0 <= offset,
        offset + pattern.len() <= before.len(),
    ensures
        splice(before, offset, pattern).subrange(offset, offset + pattern.len()) == pattern,
{
    crate::bytes::lemma_splice_read_back(before, offset, pattern);
}

impl Buffer {
    /// Maps `len` bytes from `offset`: through the persistent mapping when the buffer has
    /// one, otherwise through a staging buffer filled with a copy of the range.
    pub fn map(&self, ctxt: &mut Context, offset: usize, len: usize) -> (r: Mapping)
        requires
            self.wf(old(ctxt)),
            offset + len <= self.size_spec(),
            !self.persistent_spec() ==> old(ctxt).caps.can_map() && old(ctxt).caps.copy != Entry::Missing
                && old(ctxt).device.has_room(),
        ensures
            self.wf(final(ctxt)),
            r.wf(final(ctxt)),
            r.buffer_spec() == self.id_spec(),
            r.ty_spec() == self.ty_spec(),
            r.offset_spec() == offset,
            final(ctxt).attrib_buffers == old(ctxt).attrib_buffers,
            !self.persistent_spec() ==> {
                let tmp = r.staging_spec();
                let c0 = old(ctxt).cache;
                let caps = old(ctxt).caps;
                let c1 = create_cache(caps, c0, tmp, BufferType::CopyWriteBuffer, true, true);
                let c2 = copy_cache(caps, c1, self.id_spec(), tmp);
                &&& tmp == old(ctxt).device.fresh_id()
                &&& final(ctxt).device.bytes(tmp).len() == alloc_size(len)
                &&& final(ctxt).device.obj(tmp).mappable
                &&& final(ctxt).device.obj(tmp).mapped
                &&& final(ctxt).device.log@ == old(ctxt).device.log@ + create_calls(
                    caps,
                    c0,
                    tmp,
                    len,
                    BufferType::CopyWriteBuffer,
                    true,
                    true,
                ) + copy_calls(caps, c1, self.id_spec(), tmp, offset, 0, len) + entry_binds(
                    caps.map,
                    c2,
                    self.ty_spec(),
                    tmp,
                ) + seq![Call::MapRange(tmp)]
                &&& final(ctxt).cache == entry_cache(caps.map, c2, self.ty_spec(), tmp)
            },
            r.len_spec() == len,
            r.view(final(ctxt)) == self.contents(old(ctxt)).subrange(offset as int, offset + len),
            final(ctxt).device.bytes(self.id_spec()) == old(ctxt).device.bytes(self.id_spec()),
            self.persistent_spec() ==> !r.has_staging() && *final(ctxt) == *old(ctxt),
            !self.persistent_spec() ==> r.has_staging() && !old(ctxt).device.live(r.staging_spec()),
            final(ctxt).device.same_except(&old(ctxt).device, r.staging_spec()),
            final(ctxt).serial == old(ctxt).serial,
            final(ctxt).version == old(ctxt).version,
            final(ctxt).extensions == old(ctxt).extensions,
            final(ctxt).caps == old(ctxt).caps,
            final(ctxt).device.limit == old(ctxt).device.limit,
    {
        if self.persistent {
            let r = Mapping { buffer: self.id, ty: self.ty, offset, len, staging: None };
            proof {
                assert(r.view(ctxt) =~= self.contents(ctxt).subrange(offset as int, offset + len));
            }
            return r;
        }
        let ghost old_dev = ctxt.device;
        let ghost log0 = ctxt.device.log@;
        let tmp = match create_buffer(ctxt, len, None, BufferType::CopyWriteBuffer, true, true) {
            Ok((tmp, _, _)) => tmp,
            Err(_) => {
                // the staging buffer is no larger than this buffer, whose storage was honoured
                proof {
                    assert(false);
                }
                0
            },
        };
        assert(ctxt.device.live(self.id));
        assert(ctxt.device.obj(self.id) == old_dev.obj(self.id));
        let ghost mid_dev = ctxt.device;
        copy_buffer(ctxt, self.id, offset, tmp, 0, len);
        assert(ctxt.device.objects@[self.id - 1]@ == mid_dev.objects@[self.id - 1]@);
        match ctxt.caps.map {
            Entry::Named => ctxt.device.map(Addr::Id(tmp)),
            _ => {
                bind_buffer(ctxt, tmp, self.ty);
                ctxt.device.map(Addr::Target(self.ty));
            },
        }
        let r = Mapping { buffer: self.id, ty: self.ty, offset, len, staging: Some(tmp) };
        proof {
            assert(ctxt.device.log@ =~= log0 + create_calls(
                old(ctxt).caps,
                old(ctxt).cache,
                tmp,
                len,
                BufferType::CopyWriteBuffer,
                true,
                true,
            ) + copy_calls(
                old(ctxt).caps,
                create_cache(old(ctxt).caps, old(ctxt).cache, tmp, BufferType::CopyWriteBuffer, true, true),
                self.id,
                tmp,
                offset,
                0,
                len,
            ) + entry_binds(
                old(ctxt).caps.map,
                copy_cache(
                    old(ctxt).caps,
                    create_cache(old(ctxt).caps, old(ctxt).cache, tmp, BufferType::CopyWriteBuffer, true, true),
                    self.id,
                    tmp,
                ),
                self.ty,
                tmp,
            ) + seq![Call::MapRange(tmp)]);
            assert(r.view(ctxt) =~= self.contents(old(ctxt)).subrange(offset as int, offset + len));
            assert(ctxt.device.objects@[self.id - 1]@ == old_dev.objects@[self.id - 1]@);
            assert forall|j: u32| j != tmp && 1 <= j <= mid_dev.objects.len() implies
                (#[trigger] ctxt.device.live(j) == mid_dev.live(j)) && ctxt.device.obj(j)
                == mid_dev.obj(j) by {
                assert(ctxt.device.objects@[j - 1]@ == mid_dev.objects@[j - 1]@);
            }
            assert forall|j: u32| j != tmp && 1 <= j <= old_dev.objects.len() implies
                (#[trigger] ctxt.device.live(j) == old_dev.live(j)) && (old_dev.live(j) ==> ctxt.device.obj(j)
                == old_dev.obj(j)) by {
                assert(mid_dev.live(j) == old_dev.live(j));
                assert(ctxt.device.live(j) == mid_dev.live(j));
            }
            assert forall|j: u32| j != tmp && old_dev.objects.len() < j implies !#[trigger] ctxt.device.live(j) by {
                assert(!mid_dev.live(j));
                if j <= mid_dev.objects.len() {
                    assert(ctxt.device.live(j) == mid_dev.live(j));
                }
            }
        }
        r
    }

    /// Writes `data` into the buffer at `offset`: through the persistent mapping, through a
    /// staging buffer copied in for immutable storage, or by a direct sub-range write.
    pub fn upload(&self, ctxt: &mut Context, offset: usize, data: &Vec<u8>)
        requires
            self.wf(old(ctxt)),
            offset + data.len() <= self.size_spec(),
            self.immutable_spec() && !self.persistent_spec() ==> old(ctxt).caps.copy != Entry::Missing
                && old(ctxt).device.has_room(),
        ensures
            self.wf(final(ctxt)),
            self.contents(final(ctxt)) == splice(self.contents(old(ctxt)), offset as int, data@),
            final(ctxt).attrib_buffers == old(ctxt).attrib_buffers,
            self.persistent_spec() ==> final(ctxt).device.log@ == old(ctxt).device.log@ + entry_binds(
                old(ctxt).caps.flush,
                old(ctxt).cache,
                self.ty_spec(),
                self.id_spec(),
            ) + seq![Call::FlushRange(self.id_spec(), offset, data.len())],
            self.immutable_spec() && !self.persistent_spec() ==> {
                let tmp = old(ctxt).device.fresh_id();
                let caps = old(ctxt).caps;
                let c1 = create_cache(caps, old(ctxt).cache, tmp, BufferType::CopyReadBuffer, true, true);
                final(ctxt).device.log@ == old(ctxt).device.log@ + create_calls(
                    caps,
                    old(ctxt).cache,
                    tmp,
                    data.len(),
                    BufferType::CopyReadBuffer,
                    true,
                    true,
                ) + copy_calls(caps, c1, tmp, self.id_spec(), 0, offset, data.len()) + seq![Call::Delete(tmp)]
            },
            !self.immutable_spec() ==> final(ctxt).device.log@ == old(ctxt).device.log@ + (if offset == 0
                && data.len() == self.size_spec() && old(ctxt).caps.invalidate {
                seq![Call::Invalidate(self.id_spec())]
            } else {
                Seq::empty()
            }) + entry_binds(old(ctxt).caps.write, old(ctxt).cache, self.ty_spec(), self.id_spec()) + seq![
                Call::Write(self.id_spec(), offset, data.len()),
            ],
            final(ctxt).device.same_except(&old(ctxt).device, self.id_spec()),
            final(ctxt).serial == old(ctxt).serial,
            final(ctxt).version == old(ctxt).version,
            final(ctxt).extensions == old(ctxt).extensions,
            final(ctxt).caps == old(ctxt).caps,
            final(ctxt).device.limit == old(ctxt).device.limit,
    {
        let ghost start = *ctxt;
        let ghost id = self.id;
        let len = data.len();
        if self.persistent {
            let m = self.map(ctxt, offset, len);
            m.write_all(ctxt, data);
            let ghost before = *ctxt;
            m.release(ctxt);
            proof {
                lemma_splice_same(before.device.bytes(id), offset as int, len as int);
                lemma_splice_prefix(start.device.bytes(id), self.size as int, offset as int, data@);
                assert(ctxt.device.objects@[id - 1]@ == before.device.objects@[id - 1]@);
                assert forall|j: u32| j != id && 1 <= j <= start.device.objects.len() implies
                    (#[trigger] ctxt.device.live(j) == start.device.live(j)) && (start.device.live(j)
                    ==> ctxt.device.obj(j) == start.device.obj(j)) by {
                    assert(before.device.objects@[j - 1]@ == start.device.objects@[j - 1]@);
                    assert(before.device.live(j) == start.device.live(j));
                }
            }
        } else if self.immutable {
            let tmp = match create_buffer(ctxt, len, Some(data), BufferType::CopyReadBuffer, true, true) {
                Ok((tmp, _, _)) => tmp,
                Err(_) => {
                    proof {
                        assert(false);
                    }
                    return;
                },
            };
            let ghost mid = *ctxt;
            assert(ctxt.device.live(id));
            proof {
                assert(initial_bytes(len, Some(data@)).subrange(0, len as int) =~= data@);
            }
            copy_buffer(ctxt, tmp, 0, self.id, offset, len);
            let ghost after_copy = *ctxt;
            assert(ctxt.device.objects@[tmp - 1]@ == mid.device.objects@[tmp - 1]@);
            destroy_buffer(ctxt, tmp);
            proof {
                lemma_splice_prefix(start.device.bytes(id), self.size as int, offset as int, data@);
                assert(ctxt.device.objects@[id - 1]@ == after_copy.device.objects@[id - 1]@);
                assert forall|j: u32| j != id && 1 <= j <= mid.device.objects.len() implies
                    (#[trigger] ctxt.device.live(j) == mid.device.live(j) || j == tmp)
                    && (j != tmp ==> ctxt.device.obj(j) == mid.device.obj(j)) by {
                    assert(after_copy.device.objects@[j - 1]@ == mid.device.objects@[j - 1]@);
                    if j != tmp {
                        assert(ctxt.device.objects@[j - 1]@ == after_copy.device.objects@[j - 1]@);
                    }
                }
                assert forall|j: u32| j != id && 1 <= j <= start.device.objects.len() implies
                    (#[trigger] ctxt.device.live(j) == start.device.live(j)) && (start.device.live(j)
                    ==> ctxt.device.obj(j) == start.device.obj(j)) by {
                    assert(mid.device.live(j) == start.device.live(j) || j == tmp);
                }
                assert forall|j: u32| j != id && start.device.objects.len() < j implies
                    !#[trigger] ctxt.device.live(j) by {
                    if j <= mid.device.objects.len() && j != tmp {
                        assert(ctxt.device.live(j) == mid.device.live(j));
                    }
                }
            }
        } else {
            if offset == 0 && len == self.size && ctxt.caps.invalidate {
                ctxt.device.invalidate(self.id);
            }
            match ctxt.caps.write {
                Entry::Named => ctxt.device.write(Addr::Id(self.id), offset, data),
                _ => {
                    bind_buffer(ctxt, self.id, self.ty);
                    ctxt.device.write(Addr::Target(self.ty), offset, data);
                },
            }
            proof {
                lemma_splice_prefix(start.device.bytes(id), self.size as int, offset as int, data@);
                assert forall|j: u32| j != id && 1 <= j <= start.device.objects.len() implies
                    (#[trigger] ctxt.device.live(j) == start.device.live(j)) && (start.device.live(j)
                    ==> ctxt.device.obj(j) == start.device.obj(j)) by {
                    assert(ctxt.device.objects@[j - 1]@ == start.device.objects@[j - 1]@);
                }
            }
        }
    }

    /// Reads `output.len()` bytes from `offset` into `output`; `Err` when the buffer is not
    /// persistently mapped and the context has no way to read buffers back.
    pub fn read_if_supported(&self, ctxt: &mut Context, offset: usize, output: &mut Vec<u8>) -> (r: Result<(), ()>)
        requires
            self.wf(old(ctxt)),
            offset + old(output).len() <= self.size_spec(),
        ensures
            self.wf(final(ctxt)),
            self.contents(final(ctxt)) == self.contents(old(ctxt)),
            final(ctxt).device.same_except(&old(ctxt).device, self.id_spec()),
            final(ctxt).caps == old(ctxt).caps,
            final(ctxt).device.limit == old(ctxt).device.limit,
            r is Err <==> !self.persistent_spec() && old(ctxt).caps.read == Entry::Missing,
            r is Ok ==> final(output)@ == self.contents(old(ctxt)).subrange(offset as int, offset + old(output).len()),
            r is Err ==> final(output)@ == old(output)@,
            r is Err ==> *final(ctxt) == *old(ctxt),
            final(ctxt).attrib_buffers == old(ctxt).attrib_buffers,
            self.persistent_spec() ==> final(ctxt).device.log@ == old(ctxt).device.log@ + entry_binds(
                old(ctxt).caps.flush,
                old(ctxt).cache,
                self.ty_spec(),
                self.id_spec(),
            ) + seq![Call::FlushRange(self.id_spec(), offset, old(output).len())],
            !self.persistent_spec() && r is Ok ==> final(ctxt).device.log@ == old(ctxt).device.log@ + entry_binds(
                old(ctxt).caps.read,
                old(ctxt).cache,
                self.ty_spec(),
                self.id_spec(),
            ) + seq![Call::Read(self.id_spec(), offset, old(output).len())],
    {
        let ghost start = *ctxt;
        let ghost id = self.id;
        let len = output.len();
        if self.persistent {
            let m = self.map(ctxt, offset, len);
            let mut res: Vec<u8> = Vec::new();
            let mut i: usize = 0;
            while i < len
                invariant
                    i <= len,
                    m.wf(ctxt),
                    m.len_spec() == len,
                    res@ == m.view(ctxt).subrange(0, i as int),
                decreases len - i,
            {
                res.push(m.get(ctxt, i));
                i += 1;
                proof {
                    assert(res@ =~= m.view(ctxt).subrange(0, i as int));
                }
            }
            let ghost before = *ctxt;
            m.release(ctxt);
            *output = res;
            proof {
                assert(res@ =~= m.view(&before));
                assert(m.view(&before) =~= self.contents(&start).subrange(offset as int, offset + len));
                lemma_splice_same(before.device.bytes(id), offset as int, len as int);
                assert(ctxt.device.bytes(id) == start.device.bytes(id));
                assert(self.contents(ctxt) =~= self.contents(&start));
                assert forall|j: u32| j != id && 1 <= j <= start.device.objects.len() implies
                    (#[trigger] ctxt.device.live(j) == start.device.live(j)) && (start.device.live(j)
                    ==> ctxt.device.obj(j) == start.device.obj(j)) by {
                    assert(before.device.live(j) == start.device.live(j));
                }
            }
            Ok(())
        } else {
            let res = match ctxt.caps.read {
                Entry::Named => ctxt.device.read(Addr::Id(self.id), offset, len),
                Entry::Bound => {
                    bind_buffer(ctxt, self.id, self.ty);
                    ctxt.device.read(Addr::Target(self.ty), offset, len)
                },
                Entry::Missing => {
                    return Err(());
                },
            };
            *output = res;
            proof {
                assert(res@ =~= self.contents(&start).subrange(offset as int, offset + len));
            }
            Ok(())
        }
    }

    /// Destroys the buffer: the vertex-attribute bindings that refer to it are dropped, then
    /// every cached binding of it is emptied and its storage deleted.
    pub fn destroy(self, ctxt: &mut Context)
        requires
            self.wf(old(ctxt)),
        ensures
            final(ctxt).wf(),
            final(ctxt).attrib_buffers@ == without_id(old(ctxt).attrib_buffers@, self.id_spec()),
            !final(ctxt).attrib_buffers@.contains(self.id_spec()),
            !final(ctxt).device.live(self.id_spec()),
            final(ctxt).cache == old(ctxt).cache.without(self.id_spec()),
            final(ctxt).kept_but(old(ctxt), self.id_spec()),
    {
        ctxt.purge_buffer(self.id);
        destroy_buffer(ctxt, self.id);
    }
}

} // verus!
