use vstd::prelude::*;
use crate::bind_cache::{BufferType, BindCache};
use crate::bytes::{splice, splice_vec, sub_vec, zeros, zero_seq};

verus! {

/// One buffer object held by the driver.
#[derive(Debug)]
pub struct Object {
    /// The id is in use.
    pub live: bool,
    /// The object's storage.
    pub data: Vec<u8>,
    /// Sub-range writes by the CPU are allowed.
    pub sub_data: bool,
    /// The storage may be mapped into CPU memory.
    pub mappable: bool,
    /// The storage is mapped now.
    pub mapped: bool,
}

/// What an object holds, as plain values.
pub struct ObjView {
    pub live: bool,
    pub data: Seq<u8>,
    pub sub_data: bool,
    pub mappable: bool,
    pub mapped: bool,
}

impl View for Object {
    type V = ObjView;

    open spec fn view(&self) -> ObjView {
        ObjView {
            live: self.live,
            data: self.data@,
            sub_data: self.sub_data,
            mappable: self.mappable,
            mapped: self.mapped,
        }
    }
}

/// How storage is allocated, with the flags or usage hint passed to the driver.
#[derive(Clone, Copy, Debug, PartialEq, Eq, Structural)]
pub enum StorageKind {
    /// Immutable storage: `dynamic_storage` admits sub-range writes, `map_access` admits
    /// mapping for reading and writing, `persistent` lets a mapping last while in use.
    Immutable { dynamic_storage: bool, map_access: bool, persistent: bool },
    /// Mutable storage with a dynamic or static usage hint.
    Mutable { dynamic: bool },
}

impl StorageKind {
    pub open spec fn admits_sub_data(self) -> bool {
        match self {
            StorageKind::Immutable { dynamic_storage, .. } => dynamic_storage,
            StorageKind::Mutable { .. } => true,
        }
    }

    pub open spec fn admits_map(self) -> bool {
        match self {
            StorageKind::Immutable { map_access, .. } => map_access,
            StorageKind::Mutable { .. } => true,
        }
    }

    fn sub_data_exec(&self) -> (r: bool)
        ensures
            r == self.admits_sub_data(),
    {
        match self {
            StorageKind::Immutable { dynamic_storage, .. } => *dynamic_storage,
            StorageKind::Mutable { .. } => true,
        }
    }

    fn map_exec(&self) -> (r: bool)
        ensures
            r == self.admits_map(),
    {
        match self {
            StorageKind::Immutable { map_access, .. } => *map_access,
            StorageKind::Mutable { .. } => true,
        }
    }
}

/// One call made into the driver, as recorded in its log, with its id, range and flags.
#[derive(Clone, Copy, Debug, PartialEq, Eq, Structural)]
pub enum Call {
    Gen(u32),
    /// Id, size and kind of the storage.
    Storage(u32, usize, StorageKind),
    Bind(BufferType, u32),
    Invalidate(u32),
    /// Id, offset and length.
    Write(u32, usize, usize),
    /// Id, offset and length.
    Read(u32, usize, usize),
    /// Source, destination, source offset, destination offset and size.
    CopySubData(u32, u32, usize, usize, usize),
    MapRange(u32),
    /// Id, offset and length of the range declared written.
    FlushRange(u32, usize, usize),
    Unmap(u32),
    Delete(u32),
}

/// The index of the first object at or after `i` that is not live, or the length.
pub open spec fn free_from(objs: Seq<Object>, i: int) -> int
    decreases objs.len() - i,
{
    if i >= objs.len() || i < 0 {
        objs.len() as int
    } else if !objs[i].live {
        i
    } else {
        free_from(objs, i + 1)
    }
}

/// How a call names the buffer it acts on.
#[derive(Clone, Copy, Debug, PartialEq, Eq, Structural)]
pub enum Addr {
    /// By its id.
    Id(u32),
    /// Through whatever is bound at a target.
    Target(BufferType),
}

/// An in-memory driver: the buffer objects, the buffers bound at each target, the largest
/// allocation it honours, and the log of the calls made into it.
#[derive(Debug)]
pub struct Device {
    /// Object `id` is at index `id - 1`.
    pub objects: Vec<Object>,
    pub bound: BindCache,
    pub limit: usize,
    pub log: Vec<Call>,
}

impl Device {
    pub open spec fn id_of(&self, a: Addr) -> u32 {
        match a {
            Addr::Id(i) => i,
            Addr::Target(t) => self.bound.at(t),
        }
    }

    pub open spec fn live(&self, id: u32) -> bool {
        1 <= id <= self.objects.len() && self.objects@[id - 1].live
    }

    pub open spec fn obj(&self, id: u32) -> ObjView {
        self.objects@[id - 1]@
    }

    pub open spec fn bytes(&self, id: u32) -> Seq<u8> {
        self.obj(id).data
    }

    /// The id the next `gen_buffer` hands out: the lowest one not in use.
    pub open spec fn fresh_id(&self) -> u32 {
        (free_from(self.objects@, 0) + 1) as u32
    }

    /// A new id can still be handed out.
    pub open spec fn has_room(&self) -> bool {
        self.objects.len() < u32::MAX
    }

    /// Every live object but `id` is as in `old`, and no id but `id` changed liveness.
    pub open spec fn same_except(&self, old: &Device, id: u32) -> bool {
        &&& old.objects.len() <= self.objects.len()
        &&& forall|j: u32| j != id && 1 <= j <= old.objects.len() ==>
            (#[trigger] self.live(j) == old.live(j)) && (old.live(j) ==> self.obj(j) == old.obj(j))
        &&& forall|j: u32| j != id && old.objects.len() < j ==> !#[trigger] self.live(j)
    }

    /// Like `same_except`, with a second id `b` that may also have changed.
    pub open spec fn same_except_two(&self, old: &Device, a: u32, b: u32) -> bool {
        &&& old.objects.len() <= self.objects.len()
        &&& forall|j: u32| j != a && j != b && 1 <= j <= old.objects.len() ==>
            (#[trigger] self.live(j) == old.live(j)) && (old.live(j) ==> self.obj(j) == old.obj(j))
        &&& forall|j: u32| j != a && j != b && old.objects.len() < j ==> !#[trigger] self.live(j)
    }

    /// Object `id` is live and otherwise as `o` says, and the rest is untouched.
    pub open spec fn only_changed(&self, old: &Device, id: u32) -> bool {
        &&& self.objects.len() == old.objects.len()
        &&& forall|j: int| 0 <= j < self.objects.len() && j != id - 1 ==> #[trigger] self.objects@[j]@
            == old.objects@[j]@
        &&& self.bound == old.bound
        &&& self.limit == old.limit
    }

    /// A driver with no objects that honours allocations of up to `limit` bytes.
    pub fn new(limit: usize) -> (r: Device)
        ensures
            r.objects.len() == 0,
            r.log@.len() == 0,
            r.limit == limit,
            forall|ty: BufferType| r.bound.at(ty) == 0,
    {
        Device { objects: Vec::new(), bound: BindCache::new(), limit, log: Vec::new() }
    }

    fn dead() -> (r: Object)
        ensures
            !r.live && r.data@.len() == 0 && !r.mapped,
    {
        Object { live: false, data: Vec::new(), sub_data: false, mappable: false, mapped: false }
    }

    /// Hands out the lowest id not in use, as an object without storage.
    pub fn gen_buffer(&mut self) -> (r: u32)
        requires
            old(self).has_room(),
        ensures
            r == old(self).fresh_id(),
            r != 0,
            !old(self).live(r),
            final(self).live(r),
            final(self).bytes(r).len() == 0,
            !final(self).obj(r).mapped,
            r <= old(self).objects.len() ==> final(self).only_changed(old(self), r),
            r > old(self).objects.len() ==> r == old(self).objects.len() + 1
                && final(self).objects.len() == r
                && forall|j: int| 0 <= j < old(self).objects.len() ==> #[trigger] final(self).objects@[j]@
                    == old(self).objects@[j]@,
            final(self).bound == old(self).bound,
            final(self).limit == old(self).limit,
            final(self).log@ == old(self).log@.push(Call::Gen(r)),
    {
        let fresh = Object { live: true, data: Vec::new(), sub_data: false, mappable: false, mapped: false };
        let mut i: usize = 0;
        while i < self.objects.len()
            invariant
                i <= self.objects.len(),
                self.objects.len() < u32::MAX,
                self.objects == old(self).objects,
                self.log == old(self).log,
                self.bound == old(self).bound,
                self.limit == old(self).limit,
                fresh.live && fresh.data@.len() == 0 && !fresh.mapped,
                free_from(self.objects@, 0) == free_from(self.objects@, i as int),
                forall|j: int| 0 <= j < i ==> self.objects@[j].live,
            decreases self.objects.len() - i,
        {
            if !self.objects[i].live {
                self.objects.set(i, fresh);
                let id = (i + 1) as u32;
                self.log.push(Call::Gen(id));
                return id;
            }
            i += 1;
        }
        self.objects.push(fresh);
        let id = self.objects.len() as u32;
        self.log.push(Call::Gen(id));
        id
    }

    fn index_of(&self, a: Addr) -> (r: usize)
        requires
            self.live(self.id_of(a)),
        ensures
            r + 1 == self.id_of(a),
    {
        let id = match a {
            Addr::Id(i) => i,
            Addr::Target(t) => self.bound.get(t),
        };
        (id - 1) as usize
    }

    /// Allocates storage of `size` bytes, filled from `init` or with zeros; past the
    /// driver's limit the object is left with no storage at all.
    pub fn storage(&mut self, a: Addr, size: usize, init: Option<&Vec<u8>>, kind: StorageKind)
        requires
            old(self).live(old(self).id_of(a)),
            !old(self).obj(old(self).id_of(a)).mapped,
            init matches Some(d) ==> d.len() >= size,
        ensures
            final(self).only_changed(old(self), old(self).id_of(a)),
            ({
                let o = final(self).obj(old(self).id_of(a));
                &&& o.live && !o.mapped
                &&& o.sub_data == kind.admits_sub_data() && o.mappable == kind.admits_map()
                &&& o.data == if size > old(self).limit {
                    Seq::empty()
                } else {
                    match init {
                        Some(d) => d@.subrange(0, size as int),
                        None => zero_seq(size as nat),
                    }
                }
            }),
            final(self).log@ == old(self).log@.push(Call::Storage(old(self).id_of(a), size, kind)),
    {
        let i = self.index_of(a);
        let data = if size > self.limit {
            Vec::new()
        } else {
            match init {
                Some(d) => sub_vec(d, 0, size),
                None => zeros(size),
            }
        };
        let sub_data = kind.sub_data_exec();
        let mappable = kind.map_exec();
        self.objects.set(i, Object { live: true, data, sub_data, mappable, mapped: false });
        self.log.push(Call::Storage((i + 1) as u32, size, kind));
    }

    /// The size of an object's storage.
    pub fn size_of(&self, a: Addr) -> (r: usize)
        requires
            self.live(self.id_of(a)),
        ensures
            r == self.bytes(self.id_of(a)).len(),
    {
        let i = self.index_of(a);
        self.objects[i].data.len()
    }

    /// Binds `id` at `ty`'s target.
    pub fn bind(&mut self, ty: BufferType, id: u32)
        ensures
            final(self).objects == old(self).objects,
            final(self).limit == old(self).limit,
            final(self).bound == old(self).bound.with(ty, id),
            final(self).log@ == old(self).log@.push(Call::Bind(ty, id)),
    {
        self.bound.set(ty, id);
        self.log.push(Call::Bind(ty, id));
    }

    /// Declares that the object's previous contents may be discarded.
    pub fn invalidate(&mut self, id: u32)
        ensures
            final(self).objects == old(self).objects,
            final(self).limit == old(self).limit,
            final(self).bound == old(self).bound,
            final(self).log@ == old(self).log@.push(Call::Invalidate(id)),
    {
        self.log.push(Call::Invalidate(id));
    }

    /// Writes `data` into the object at `off`.
    pub fn write(&mut self, a: Addr, off: usize, data: &Vec<u8>)
        requires
            old(self).live(old(self).id_of(a)),
            old(self).obj(old(self).id_of(a)).sub_data,
            !old(self).obj(old(self).id_of(a)).mapped,
            off + data.len() <= old(self).bytes(old(self).id_of(a)).len(),
        ensures
            final(self).only_changed(old(self), old(self).id_of(a)),
            final(self).obj(old(self).id_of(a)) == (ObjView {
                data: final(self).obj(old(self).id_of(a)).data,
                ..old(self).obj(old(self).id_of(a))
            }),
            final(self).bytes(old(self).id_of(a)) == splice(old(self).bytes(old(self).id_of(a)), off as int, data@),
            final(self).log@ == old(self).log@.push(Call::Write(old(self).id_of(a), off, data.len())),
    {
        let i = self.index_of(a);
        let nd = splice_vec(&self.objects[i].data, off, data);
        let o = Object {
            live: self.objects[i].live,
            data: nd,
            sub_data: self.objects[i].sub_data,
            mappable: self.objects[i].mappable,
            mapped: self.objects[i].mapped,
        };
        self.objects.set(i, o);
        self.log.push(Call::Write((i + 1) as u32, off, data.len()));
    }

    /// Reads `len` bytes of the object from `off`.
    pub fn read(&mut self, a: Addr, off: usize, len: usize) -> (r: Vec<u8>)
        requires
            old(self).live(old(self).id_of(a)),
            off + len <= old(self).bytes(old(self).id_of(a)).len(),
        ensures
            r@ == old(self).bytes(old(self).id_of(a)).subrange(off as int, off + len),
            final(self).objects == old(self).objects,
            final(self).bound == old(self).bound,
            final(self).limit == old(self).limit,
            final(self).log@ == old(self).log@.push(Call::Read(old(self).id_of(a), off, len)),
    {
        let i = self.index_of(a);
        let r = sub_vec(&self.objects[i].data, off, len);
        self.log.push(Call::Read((i + 1) as u32, off, len));
        r
    }

    /// Copies `size` bytes from `src` at `src_off` to `dst` at `dst_off`.
    pub fn copy(&mut self, src: Addr, dst: Addr, src_off: usize, dst_off: usize, size: usize)
        requires
            old(self).live(old(self).id_of(src)),
            old(self).live(old(self).id_of(dst)),
            src_off + size <= old(self).bytes(old(self).id_of(src)).len(),
            dst_off + size <= old(self).bytes(old(self).id_of(dst)).len(),
        ensures
            final(self).only_changed(old(self), old(self).id_of(dst)),
            final(self).obj(old(self).id_of(dst)) == (ObjView {
                data: final(self).obj(old(self).id_of(dst)).data,
                ..old(self).obj(old(self).id_of(dst))
            }),
            final(self).bytes(old(self).id_of(dst)) == splice(
                old(self).bytes(old(self).id_of(dst)),
                dst_off as int,
                old(self).bytes(old(self).id_of(src)).subrange(src_off as int, src_off + size),
            ),
            final(self).log@ == old(self).log@.push(
                Call::CopySubData(old(self).id_of(src), old(self).id_of(dst), src_off, dst_off, size),
            ),
    {
        let si = self.index_of(src);
        let di = self.index_of(dst);
        let part = sub_vec(&self.objects[si].data, src_off, size);
        let nd = splice_vec(&self.objects[di].data, dst_off, &part);
        let o = Object {
            live: self.objects[di].live,
            data: nd,
            sub_data: self.objects[di].sub_data,
            mappable: self.objects[di].mappable,
            mapped: self.objects[di].mapped,
        };
        self.objects.set(di, o);
        self.log.push(Call::CopySubData((si + 1) as u32, (di + 1) as u32, src_off, dst_off, size));
    }

    fn set_mapped(&mut self, i: usize, mapped: bool)
        requires
            i < old(self).objects.len(),
        ensures
            final(self).objects.len() == old(self).objects.len(),
            forall|j: int| 0 <= j < final(self).objects.len() && j != i ==> #[trigger] final(self).objects@[j]@
                == old(self).objects@[j]@,
            final(self).objects@[i as int]@ == (ObjView { mapped, ..old(self).objects@[i as int]@ }),
            final(self).bound == old(self).bound,
            final(self).limit == old(self).limit,
            final(self).log == old(self).log,
    {
        let d = sub_vec(&self.objects[i].data, 0, self.objects[i].data.len());
        proof {
            assert(d@ =~= self.objects@[i as int].data@);
        }
        let o = Object {
            live: self.objects[i].live,
            data: d,
            sub_data: self.objects[i].sub_data,
            mappable: self.objects[i].mappable,
            mapped,
        };
        self.objects.set(i, o);
    }

    /// Maps the object's storage into CPU memory.
    pub fn map(&mut self, a: Addr)
        requires
            old(self).live(old(self).id_of(a)),
            old(self).obj(old(self).id_of(a)).mappable,
            !old(self).obj(old(self).id_of(a)).mapped,
        ensures
            final(self).only_changed(old(self), old(self).id_of(a)),
            final(self).obj(old(self).id_of(a)) == (ObjView { mapped: true, ..old(self).obj(old(self).id_of(a)) }),
            final(self).log@ == old(self).log@.push(Call::MapRange(old(self).id_of(a))),
    {
        let i = self.index_of(a);
        self.set_mapped(i, true);
        self.log.push(Call::MapRange((i + 1) as u32));
    }

    /// Declares the written bytes of a mapped object visible to the device.
    pub fn flush(&mut self, a: Addr, off: usize, len: usize)
        requires
            old(self).live(old(self).id_of(a)),
            old(self).obj(old(self).id_of(a)).mapped,
            off + len <= old(self).bytes(old(self).id_of(a)).len(),
        ensures
            final(self).objects == old(self).objects,
            final(self).bound == old(self).bound,
            final(self).limit == old(self).limit,
            final(self).log@ == old(self).log@.push(Call::FlushRange(old(self).id_of(a), off, len)),
    {
        let i = self.index_of(a);
        self.log.push(Call::FlushRange((i + 1) as u32, off, len));
    }

    /// Ends the mapping of a mapped object.
    pub fn unmap(&mut self, a: Addr)
        requires
            old(self).live(old(self).id_of(a)),
            old(self).obj(old(self).id_of(a)).mapped,
        ensures
            final(self).only_changed(old(self), old(self).id_of(a)),
            final(self).obj(old(self).id_of(a)) == (ObjView { mapped: false, ..old(self).obj(old(self).id_of(a)) }),
            final(self).log@ == old(self).log@.push(Call::Unmap(old(self).id_of(a))),
    {
        let i = self.index_of(a);
        self.set_mapped(i, false);
        self.log.push(Call::Unmap((i + 1) as u32));
    }

    /// The byte at `pos` of a mapped object, read through its mapping.
    pub fn load(&self, id: u32, pos: usize) -> (r: u8)
        requires
            self.live(id),
            self.obj(id).mapped,
            pos < self.bytes(id).len(),
        ensures
            r == self.bytes(id)[pos as int],
    {
        self.objects[(id - 1) as usize].data[pos]
    }

    /// Writes the byte at `pos` of a mapped object through its mapping.
    pub fn store(&mut self, id: u32, pos: usize, v: u8)
        requires
            old(self).live(id),
            old(self).obj(id).mapped,
            pos < old(self).bytes(id).len(),
        ensures
            final(self).only_changed(old(self), id),
            final(self).obj(id) == (ObjView { data: final(self).obj(id).data, ..old(self).obj(id) }),
            final(self).bytes(id) == old(self).bytes(id).update(pos as int, v),
            final(self).log == old(self).log,
    {
        let i = (id - 1) as usize;
        let mut one: Vec<u8> = Vec::new();
        one.push(v);
        let nd = splice_vec(&self.objects[i].data, pos, &one);
        proof {
            assert(nd@ =~= self.objects@[i as int].data@.update(pos as int, v));
        }
        let o = Object {
            live: true,
            data: nd,
            sub_data: self.objects[i].sub_data,
            mappable: self.objects[i].mappable,
            mapped: true,
        };
        self.objects.set(i, o);
    }

    /// Deletes an object; every target that held it is emptied.
    pub fn delete(&mut self, id: u32)
        requires
            old(self).live(id),
        ensures
            final(self).objects.len() == old(self).objects.len(),
            forall|j: int| 0 <= j < final(self).objects.len() && j != id - 1 ==> #[trigger] final(self).objects@[j]@
                == old(self).objects@[j]@,
            !final(self).live(id),
            final(self).bound == old(self).bound.without(id),
            final(self).limit == old(self).limit,
            final(self).log@ == old(self).log@.push(Call::Delete(id)),
    {
        self.objects.set((id - 1) as usize, Device::dead());
        self.bound.clear(id);
        self.log.push(Call::Delete(id));
    }
}

} // verus!
