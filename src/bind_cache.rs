use vstd::prelude::*;

verus! {

/// The logical role of a buffer; each role has exactly one bind target.
#[derive(Clone, Copy, Debug, PartialEq, Eq, Structural)]
pub enum BufferType {
    ArrayBuffer,
    PixelPackBuffer,
    PixelUnpackBuffer,
    UniformBuffer,
    CopyReadBuffer,
    CopyWriteBuffer,
}

pub const ARRAY_BUFFER: u32 = 0x8892;
pub const PIXEL_PACK_BUFFER: u32 = 0x88EB;
pub const PIXEL_UNPACK_BUFFER: u32 = 0x88EC;
pub const UNIFORM_BUFFER: u32 = 0x8A11;
pub const COPY_READ_BUFFER: u32 = 0x8F36;
pub const COPY_WRITE_BUFFER: u32 = 0x8F37;

pub open spec fn target_token(ty: BufferType) -> u32 {
    match ty {
        BufferType::ArrayBuffer => ARRAY_BUFFER,
        BufferType::PixelPackBuffer => PIXEL_PACK_BUFFER,
        BufferType::PixelUnpackBuffer => PIXEL_UNPACK_BUFFER,
        BufferType::UniformBuffer => UNIFORM_BUFFER,
        BufferType::CopyReadBuffer => COPY_READ_BUFFER,
        BufferType::CopyWriteBuffer => COPY_WRITE_BUFFER,
    }
}

impl BufferType {
    /// The driver's token for this type's bind target.
    pub fn target(&self) -> (r: u32)
        ensures
            r == target_token(*self),
    {
        match self {
            BufferType::ArrayBuffer => ARRAY_BUFFER,
            BufferType::PixelPackBuffer => PIXEL_PACK_BUFFER,
            BufferType::PixelUnpackBuffer => PIXEL_UNPACK_BUFFER,
            BufferType::UniformBuffer => UNIFORM_BUFFER,
            BufferType::CopyReadBuffer => COPY_READ_BUFFER,
            BufferType::CopyWriteBuffer => COPY_WRITE_BUFFER,
        }
    }
}

/// The buffer id occupying each of the six bind targets; 0 means none.
#[derive(Clone, Copy, Debug, PartialEq, Eq, Structural)]
pub struct BindCache {
    pub array_buffer: u32,
    pub pixel_pack_buffer: u32,
    pub pixel_unpack_buffer: u32,
    pub uniform_buffer: u32,
    pub copy_read_buffer: u32,
    pub copy_write_buffer: u32,
}

impl BindCache {
    pub open spec fn at(&self, ty: BufferType) -> u32 {
        match ty {
            BufferType::ArrayBuffer => self.array_buffer,
            BufferType::PixelPackBuffer => self.pixel_pack_buffer,
            BufferType::PixelUnpackBuffer => self.pixel_unpack_buffer,
            BufferType::UniformBuffer => self.uniform_buffer,
            BufferType::CopyReadBuffer => self.copy_read_buffer,
            BufferType::CopyWriteBuffer => self.copy_write_buffer,
        }
    }

    /// The cache with `ty` now holding `id` and every other target unchanged.
    pub open spec fn with(&self, ty: BufferType, id: u32) -> BindCache {
        match ty {
            BufferType::ArrayBuffer => BindCache { array_buffer: id, ..*self },
            BufferType::PixelPackBuffer => BindCache { pixel_pack_buffer: id, ..*self },
            BufferType::PixelUnpackBuffer => BindCache { pixel_unpack_buffer: id, ..*self },
            BufferType::UniformBuffer => BindCache { uniform_buffer: id, ..*self },
            BufferType::CopyReadBuffer => BindCache { copy_read_buffer: id, ..*self },
            BufferType::CopyWriteBuffer => BindCache { copy_write_buffer: id, ..*self },
        }
    }

    /// The cache with every target that held `id` emptied.
    pub open spec fn without(&self, id: u32) -> BindCache {
        BindCache {
            array_buffer: if self.array_buffer == id { 0 } else { self.array_buffer },
            pixel_pack_buffer: if self.pixel_pack_buffer == id { 0 } else { self.pixel_pack_buffer },
            pixel_unpack_buffer: if self.pixel_unpack_buffer == id { 0 } else { self.pixel_unpack_buffer },
            uniform_buffer: if self.uniform_buffer == id { 0 } else { self.uniform_buffer },
            copy_read_buffer: if self.copy_read_buffer == id { 0 } else { self.copy_read_buffer },
            copy_write_buffer: if self.copy_write_buffer == id { 0 } else { self.copy_write_buffer },
        }
    }

    /// The first target, in declaration order, that holds `id`.
    pub open spec fn first_holding(&self, id: u32) -> Option<BufferType> {
        if self.array_buffer == id {
            Some(BufferType::ArrayBuffer)
        } else if self.pixel_pack_buffer == id {
            Some(BufferType::PixelPackBuffer)
        } else if self.pixel_unpack_buffer == id {
            Some(BufferType::PixelUnpackBuffer)
        } else if self.uniform_buffer == id {
            Some(BufferType::UniformBuffer)
        } else if self.copy_read_buffer == id {
            Some(BufferType::CopyReadBuffer)
        } else if self.copy_write_buffer == id {
            Some(BufferType::CopyWriteBuffer)
        } else {
            None
        }
    }

    /// A cache with nothing bound.
    pub fn new() -> (r: BindCache)
        ensures
            forall|ty: BufferType| r.at(ty) == 0,
    {
        BindCache {
            array_buffer: 0,
            pixel_pack_buffer: 0,
            pixel_unpack_buffer: 0,
            uniform_buffer: 0,
            copy_read_buffer: 0,
            copy_write_buffer: 0,
        }
    }

    /// The id recorded at `ty`'s target.
    pub fn get(&self, ty: BufferType) -> (r: u32)
        ensures
            r == self.at(ty),
    {
        match ty {
            BufferType::ArrayBuffer => self.array_buffer,
            BufferType::PixelPackBuffer => self.pixel_pack_buffer,
            BufferType::PixelUnpackBuffer => self.pixel_unpack_buffer,
            BufferType::UniformBuffer => self.uniform_buffer,
            BufferType::CopyReadBuffer => self.copy_read_buffer,
            BufferType::CopyWriteBuffer => self.copy_write_buffer,
        }
    }

    /// Records `id` at `ty`'s target.
    pub fn set(&mut self, ty: BufferType, id: u32)
        ensures
            *final(self) == old(self).with(ty, id),
    {
        match ty {
            BufferType::ArrayBuffer => self.array_buffer = id,
            BufferType::PixelPackBuffer => self.pixel_pack_buffer = id,
            BufferType::PixelUnpackBuffer => self.pixel_unpack_buffer = id,
            BufferType::UniformBuffer => self.uniform_buffer = id,
            BufferType::CopyReadBuffer => self.copy_read_buffer = id,
            BufferType::CopyWriteBuffer => self.copy_write_buffer = id,
        }
    }

    /// Empties every target that holds `id`.
    pub fn clear(&mut self, id: u32)
        ensures
            *final(self) == old(self).without(id),
    {
        if self.array_buffer == id {
            self.array_buffer = 0;
        }
        if self.pixel_pack_buffer == id {
            self.pixel_pack_buffer = 0;
        }
        if self.pixel_unpack_buffer == id {
            self.pixel_unpack_buffer = 0;
        }
        if self.uniform_buffer == id {
            self.uniform_buffer = 0;
        }
        if self.copy_read_buffer == id {
            self.copy_read_buffer = 0;
        }
        if self.copy_write_buffer == id {
            self.copy_write_buffer = 0;
        }
    }

    /// The first target, in declaration order, that holds `id`.
    pub fn find_bind_point(&self, id: u32) -> (r: Option<BufferType>)
        ensures
            r == self.first_holding(id),
    {
        if self.array_buffer == id {
            Some(BufferType::ArrayBuffer)
        } else if self.pixel_pack_buffer == id {
            Some(BufferType::PixelPackBuffer)
        } else if self.pixel_unpack_buffer == id {
            Some(BufferType::PixelUnpackBuffer)
        } else if self.uniform_buffer == id {
            Some(BufferType::UniformBuffer)
        } else if self.copy_read_buffer == id {
            Some(BufferType::CopyReadBuffer)
        } else if self.copy_write_buffer == id {
            Some(BufferType::CopyWriteBuffer)
        } else {
            None
        }
    }
}

/// Emptying the targets that held `id` leaves no target holding it, so a later buffer that
/// is handed the same id is never taken as bound already; other targets keep their ids.
pub proof fn lemma_without_clears(c: BindCache, id: u32)
    requires
        id != 0,
    ensures
        forall|ty: BufferType| #[trigger] c.without(id).at(ty) != id,
        forall|ty: BufferType| c.at(ty) != id ==> #[trigger] c.without(id).at(ty) == c.at(ty),
{
}

} // verus!
