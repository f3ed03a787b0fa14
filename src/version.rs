use vstd::prelude::*;

verus! {

/// The flavour of the graphics API a context speaks.
#[derive(Clone, Copy, Debug, PartialEq, Eq, Structural)]
pub enum Api {
    Gl,
    GlEs,
}

/// An API version. Versions of different flavours are not comparable.
#[derive(Clone, Copy, Debug, PartialEq, Eq, Structural)]
pub struct Version {
    pub api: Api,
    pub major: u8,
    pub minor: u8,
}

/// `v` is of flavour `api` and at least `major.minor`.
pub open spec fn ver_at_least(v: Version, api: Api, major: u8, minor: u8) -> bool {
    v.api == api && (v.major > major || (v.major == major && v.minor >= minor))
}

impl Version {
    /// True when this version has flavour `api` and is at least `major.minor`.
    pub fn at_least(&self, api: Api, major: u8, minor: u8) -> (r: bool)
        ensures
            r == ver_at_least(*self, api, major, minor),
    {
        self.api == api && (self.major > major || (self.major == major && self.minor >= minor))
    }
}

/// The optional extensions a context may advertise that matter to buffers.
#[derive(Clone, Copy, Debug, PartialEq, Eq, Structural)]
pub struct Extensions {
    pub arb_direct_state_access: bool,
    pub ext_direct_state_access: bool,
    pub arb_buffer_storage: bool,
    pub arb_invalidate_subdata: bool,
    pub arb_vertex_buffer_object: bool,
    pub arb_map_buffer_range: bool,
    pub arb_copy_buffer: bool,
    pub nv_copy_buffer: bool,
}

impl Extensions {
    /// A set of extensions with none advertised.
    pub fn none() -> (r: Extensions)
        ensures
            !r.arb_direct_state_access && !r.ext_direct_state_access && !r.arb_buffer_storage
                && !r.arb_invalidate_subdata && !r.arb_vertex_buffer_object
                && !r.arb_map_buffer_range && !r.arb_copy_buffer && !r.nv_copy_buffer,
    {
        Extensions {
            arb_direct_state_access: false,
            ext_direct_state_access: false,
            arb_buffer_storage: false,
            arb_invalidate_subdata: false,
            arb_vertex_buffer_object: false,
            arb_map_buffer_range: false,
            arb_copy_buffer: false,
            nv_copy_buffer: false,
        }
    }
}

} // verus!
