use gpu_buffer::{
    bind_buffer, copy_buffer, Api, Buffer, BufferCreationError, BufferType, Call, Context, Device,
    Entry, Extensions, StorageEntry, StorageKind, Version,
};

fn gl(major: u8, minor: u8) -> Version {
    Version { api: Api::Gl, major, minor }
}

fn gles(major: u8, minor: u8) -> Version {
    Version { api: Api::GlEs, major, minor }
}

fn context(version: Version, limit: usize) -> Context {
    Context::new(7, version, Extensions::none(), Device::new(limit)).unwrap()
}

fn count(ctxt: &Context, f: fn(&Call) -> bool) -> usize {
    ctxt.device.log.iter().filter(|c| f(c)).count()
}

fn is_gen(c: &Call) -> bool {
    matches!(c, Call::Gen(_))
}

fn is_delete(c: &Call) -> bool {
    matches!(c, Call::Delete(_))
}

fn is_bind(c: &Call) -> bool {
    matches!(c, Call::Bind(_, _))
}

fn live_ids(ctxt: &Context) -> Vec<u32> {
    let mut v = Vec::new();
    for (i, o) in ctxt.device.objects.iter().enumerate() {
        if o.live {
            v.push(i as u32 + 1);
        }
    }
    v
}

fn pattern(n: usize) -> Vec<u8> {
    (0..n).map(|i| (i * 7 + 3) as u8).collect()
}

fn write_through_mapping(b: &Buffer, ctxt: &mut Context, offset: usize, data: &[u8]) {
    let m = b.map(ctxt, offset, data.len());
    assert_eq!(m.len(), data.len());
    for (i, v) in data.iter().enumerate() {
        m.set(ctxt, i, *v);
    }
    for (i, v) in data.iter().enumerate() {
        assert_eq!(m.get(ctxt, i), *v);
    }
    m.release(ctxt);
}

fn read_back(b: &Buffer, ctxt: &mut Context, offset: usize, len: usize) -> Vec<u8> {
    let mut out = vec![0u8; len];
    b.read_if_supported(ctxt, offset, &mut out).unwrap();
    out
}

#[test]
fn capabilities_of_a_modern_context() {
    let c = context(gl(4, 5), 4096);
    assert_eq!(c.caps.storage, StorageEntry::NamedImmutable);
    assert_eq!(c.caps.write, Entry::Named);
    assert_eq!(c.caps.read, Entry::Named);
    assert_eq!(c.caps.map, Entry::Named);
    assert_eq!(c.caps.flush, Entry::Named);
    assert_eq!(c.caps.unmap, Entry::Named);
    assert_eq!(c.caps.copy, Entry::Named);
    assert!(c.caps.invalidate);
}

#[test]
fn capabilities_of_older_contexts() {
    let c = context(gl(3, 3), 4096);
    assert_eq!(c.caps.storage, StorageEntry::BoundMutable);
    assert_eq!(c.caps.write, Entry::Bound);
    assert_eq!(c.caps.read, Entry::Bound);
    assert_eq!(c.caps.map, Entry::Bound);
    assert_eq!(c.caps.copy, Entry::Bound);
    assert!(!c.caps.invalidate);

    let c = context(gl(4, 4), 4096);
    assert_eq!(c.caps.storage, StorageEntry::BoundImmutable);

    let c = context(gles(2, 0), 4096);
    assert_eq!(c.caps.storage, StorageEntry::BoundMutable);
    assert_eq!(c.caps.read, Entry::Missing);
    assert_eq!(c.caps.map, Entry::Missing);
    assert_eq!(c.caps.copy, Entry::Missing);

    let mut e = Extensions::none();
    e.ext_direct_state_access = true;
    let c = Context::new(1, gl(2, 1), e, Device::new(16)).unwrap();
    assert_eq!(c.caps.write, Entry::Named);
    assert_eq!(c.caps.copy, Entry::Named);
    assert_eq!(c.caps.read, Entry::Bound);
}

#[test]
fn contexts_without_baseline_are_refused() {
    assert!(Context::new(1, gl(1, 1), Extensions::none(), Device::new(16)).is_none());
    assert!(Context::new(1, gles(1, 1), Extensions::none(), Device::new(16)).is_none());
    let mut e = Extensions::none();
    e.arb_vertex_buffer_object = true;
    assert!(Context::new(1, gl(1, 1), e, Device::new(16)).is_some());
    // immutable storage with no way to map it still serves static buffers
    let mut e = Extensions::none();
    e.arb_buffer_storage = true;
    let mut c = Context::new(1, gl(2, 1), e, Device::new(16)).unwrap();
    assert_eq!(c.caps.map, Entry::Missing);
    let b = Buffer::empty(&mut c, BufferType::ArrayBuffer, 4, false).unwrap();
    assert!(!b.uses_persistent_mapping());
}

#[test]
fn persistent_mapping_write_reads_back() {
    let mut c = context(gl(4, 5), 4096);
    let b = Buffer::empty(&mut c, BufferType::ArrayBuffer, 64, true).unwrap();
    assert!(b.uses_persistent_mapping());
    let p = pattern(8);
    write_through_mapping(&b, &mut c, 16, &p);
    assert_eq!(read_back(&b, &mut c, 16, 8), p);
    assert_eq!(read_back(&b, &mut c, 0, 16), vec![0u8; 16]);
    assert_eq!(read_back(&b, &mut c, 24, 40), vec![0u8; 40]);
}

#[test]
fn staging_mapping_write_reads_back_on_mutable_storage() {
    let mut c = context(gl(3, 3), 4096);
    let data = pattern(32);
    let b = Buffer::new(&mut c, &data, BufferType::UniformBuffer, false).unwrap();
    assert!(!b.uses_persistent_mapping());
    let p = vec![9u8, 8, 7, 6];
    write_through_mapping(&b, &mut c, 4, &p);
    assert_eq!(read_back(&b, &mut c, 4, 4), p);
    let mut expected = data.clone();
    expected[4..8].copy_from_slice(&p);
    assert_eq!(read_back(&b, &mut c, 0, 32), expected);
    // the staging buffer is gone again
    assert_eq!(live_ids(&c), vec![b.get_id()]);
}

#[test]
fn staging_mapping_write_reads_back_on_immutable_storage() {
    let mut c = context(gl(4, 5), 4096);
    let b = Buffer::new(&mut c, &pattern(16), BufferType::ArrayBuffer, false).unwrap();
    assert!(!b.uses_persistent_mapping());
    let p = vec![1u8, 2, 3];
    write_through_mapping(&b, &mut c, 10, &p);
    assert_eq!(read_back(&b, &mut c, 10, 3), p);
    assert_eq!(live_ids(&c), vec![b.get_id()]);
}

#[test]
fn mapping_sees_current_contents() {
    let mut c = context(gl(3, 0), 4096);
    let data = pattern(10);
    let b = Buffer::new(&mut c, &data, BufferType::ArrayBuffer, true).unwrap();
    let m = b.map(&mut c, 2, 5);
    for i in 0..5 {
        assert_eq!(m.get(&c, i), data[i + 2]);
    }
    m.release(&mut c);
    assert_eq!(read_back(&b, &mut c, 0, 10), data);
}

#[test]
fn empty_buffer_of_size_zero() {
    let mut c = context(gl(4, 5), 4096);
    let b = Buffer::empty(&mut c, BufferType::ArrayBuffer, 0, false).unwrap();
    assert_eq!(b.get_size(), 0);
    // one byte is allocated behind the scenes
    let id = b.get_id() as usize;
    assert_eq!(c.device.objects[id - 1].data.len(), 1);
    let b2 = Buffer::new(&mut c, &Vec::new(), BufferType::ArrayBuffer, true).unwrap();
    assert_eq!(b2.get_size(), 0);
}

#[test]
fn size_mismatch_is_out_of_memory() {
    let mut c = context(gl(3, 3), 100);
    let before = live_ids(&c);
    let r = Buffer::empty(&mut c, BufferType::ArrayBuffer, 200, false);
    assert_eq!(r.unwrap_err(), BufferCreationError::OutOfMemory);
    assert_eq!(live_ids(&c), before);
    assert_eq!(c.cache.array_buffer, 0);
    assert_eq!(c.device.bound.array_buffer, 0);
    // a later creation sees nothing of the failed one
    let b = Buffer::empty(&mut c, BufferType::ArrayBuffer, 100, false).unwrap();
    assert_eq!(live_ids(&c), vec![b.get_id()]);
    assert_eq!(read_back(&b, &mut c, 0, 100), vec![0u8; 100]);

    let mut c = context(gl(4, 5), 8);
    let r = Buffer::new(&mut c, &pattern(9), BufferType::ArrayBuffer, true);
    assert_eq!(r.unwrap_err(), BufferCreationError::OutOfMemory);
    assert!(live_ids(&c).is_empty());
    assert_eq!(c.device.log.last(), Some(&Call::Delete(1)));
}

#[test]
fn binding_a_cached_id_makes_no_call() {
    let mut c = context(gl(3, 3), 4096);
    let b = Buffer::empty(&mut c, BufferType::CopyReadBuffer, 4, false).unwrap();
    let id = b.get_id();
    let t = bind_buffer(&mut c, id, BufferType::ArrayBuffer);
    assert_eq!(t, 0x8892);
    let binds = count(&c, is_bind);
    let t = bind_buffer(&mut c, id, BufferType::ArrayBuffer);
    assert_eq!(t, 0x8892);
    assert_eq!(count(&c, is_bind), binds);

    let other = Buffer::empty(&mut c, BufferType::CopyReadBuffer, 4, false).unwrap();
    let binds = count(&c, is_bind);
    bind_buffer(&mut c, other.get_id(), BufferType::ArrayBuffer);
    assert_eq!(count(&c, is_bind), binds + 1);
    assert_eq!(c.cache.array_buffer, other.get_id());
    assert_eq!(c.device.bound.array_buffer, other.get_id());
}

#[test]
fn destroying_clears_cached_bindings() {
    let mut c = context(gl(3, 3), 4096);
    let b = Buffer::empty(&mut c, BufferType::ArrayBuffer, 8, false).unwrap();
    let id = b.get_id();
    bind_buffer(&mut c, id, BufferType::CopyWriteBuffer);
    bind_buffer(&mut c, id, BufferType::UniformBuffer);
    assert_eq!(c.cache.array_buffer, id);
    b.destroy(&mut c);
    assert_eq!(c.cache.array_buffer, 0);
    assert_eq!(c.cache.copy_write_buffer, 0);
    assert_eq!(c.cache.uniform_buffer, 0);
    assert!(live_ids(&c).is_empty());

    // the driver hands the id out again; binding it must reach the driver
    let b2 = Buffer::empty(&mut c, BufferType::PixelPackBuffer, 8, false).unwrap();
    assert_eq!(b2.get_id(), id);
    let binds = count(&c, is_bind);
    bind_buffer(&mut c, id, BufferType::ArrayBuffer);
    assert_eq!(count(&c, is_bind), binds + 1);
}

fn check_copy(version: Version) {
    let mut c = context(version, 4096);
    let src = Buffer::new(&mut c, &pattern(16), BufferType::ArrayBuffer, false).unwrap();
    let dst = Buffer::empty(&mut c, BufferType::UniformBuffer, 16, false).unwrap();
    copy_buffer(&mut c, src.get_id(), 2, dst.get_id(), 8, 6);
    let mut expected = vec![0u8; 16];
    expected[8..14].copy_from_slice(&pattern(16)[2..8]);
    assert_eq!(read_back(&dst, &mut c, 0, 16), expected);
    assert_eq!(read_back(&src, &mut c, 0, 16), pattern(16));
}

#[test]
fn copy_between_buffers() {
    check_copy(gl(4, 5));
    check_copy(gl(3, 3));
}

#[test]
fn copy_keeps_source_when_it_holds_the_copy_write_target() {
    let mut c = context(gl(3, 3), 4096);
    let src = Buffer::new(&mut c, &pattern(8), BufferType::CopyWriteBuffer, false).unwrap();
    let dst = Buffer::empty(&mut c, BufferType::CopyReadBuffer, 8, false).unwrap();
    // the source sits at the copy-write target; the destination is bound nowhere
    bind_buffer(&mut c, 0, BufferType::CopyReadBuffer);
    assert_eq!(c.cache.copy_write_buffer, src.get_id());
    copy_buffer(&mut c, src.get_id(), 0, dst.get_id(), 0, 8);
    assert_eq!(read_back(&dst, &mut c, 0, 8), pattern(8));
}

#[test]
fn copy_within_one_buffer_uses_prior_contents() {
    let mut c = context(gl(4, 5), 4096);
    let b = Buffer::new(&mut c, &pattern(8), BufferType::ArrayBuffer, false).unwrap();
    copy_buffer(&mut c, b.get_id(), 0, b.get_id(), 2, 4);
    let p = pattern(8);
    let expected = vec![p[0], p[1], p[0], p[1], p[2], p[3], p[6], p[7]];
    assert_eq!(read_back(&b, &mut c, 0, 8), expected);
}

#[test]
fn scenario_dynamic_buffer_maps_persistently() {
    let mut c = context(gl(4, 5), 4096);
    let b = Buffer::empty(&mut c, BufferType::ArrayBuffer, 1024, true).unwrap();
    assert!(b.uses_persistent_mapping());
    let gens = count(&c, is_gen);
    let m = b.map(&mut c, 0, 256);
    m.release(&mut c);
    let m = b.map(&mut c, 0, 256);
    m.release(&mut c);
    assert_eq!(count(&c, is_gen), gens);
    assert_eq!(live_ids(&c), vec![b.get_id()]);
}

#[test]
fn scenario_static_upload_uses_one_staging_buffer() {
    let mut c = context(gl(4, 5), 4096);
    let b = Buffer::empty(&mut c, BufferType::ArrayBuffer, 1024, false).unwrap();
    assert!(!b.uses_persistent_mapping());
    let gens = count(&c, is_gen);
    let deletes = count(&c, is_delete);
    let data = pattern(1024);
    b.upload(&mut c, 0, &data);
    assert_eq!(count(&c, is_gen), gens + 1);
    assert_eq!(count(&c, is_delete), deletes + 1);
    assert_eq!(live_ids(&c), vec![b.get_id()]);
    assert_eq!(read_back(&b, &mut c, 0, 1024), data);
}

#[test]
fn scenario_legacy_context_cannot_read_back() {
    let mut c = context(gles(2, 0), 4096);
    let b = Buffer::new(&mut c, &pattern(8), BufferType::ArrayBuffer, false).unwrap();
    let mut out = vec![5u8; 4];
    assert_eq!(b.read_if_supported(&mut c, 0, &mut out), Err(()));
    assert_eq!(out, vec![5u8; 4]);
}

#[test]
fn upload_to_mutable_storage() {
    let mut c = context(gl(4, 3), 4096);
    let b = Buffer::empty(&mut c, BufferType::ArrayBuffer, 8, true).unwrap();
    b.upload(&mut c, 0, &pattern(8));
    assert!(c.device.log.contains(&Call::Invalidate(b.get_id())));
    assert_eq!(read_back(&b, &mut c, 0, 8), pattern(8));
    let before = c.device.log.len();
    b.upload(&mut c, 6, &vec![42u8, 43]);
    assert!(!c.device.log[before..].contains(&Call::Invalidate(b.get_id())));
    let mut expected = pattern(8);
    expected[6] = 42;
    expected[7] = 43;
    assert_eq!(read_back(&b, &mut c, 0, 8), expected);
}

#[test]
fn upload_through_persistent_mapping() {
    let mut c = context(gl(4, 5), 4096);
    let b = Buffer::empty(&mut c, BufferType::ArrayBuffer, 8, true).unwrap();
    let gens = count(&c, is_gen);
    b.upload(&mut c, 3, &vec![1u8, 2]);
    assert_eq!(count(&c, is_gen), gens);
    assert_eq!(read_back(&b, &mut c, 0, 8), vec![0u8, 0, 0, 1, 2, 0, 0, 0]);
}

#[test]
fn upload_through_bound_immutable_storage() {
    let mut c = context(gl(4, 4), 4096);
    let b = Buffer::empty(&mut c, BufferType::PixelUnpackBuffer, 6, false).unwrap();
    b.upload(&mut c, 1, &vec![7u8, 7, 7]);
    assert_eq!(read_back(&b, &mut c, 0, 6), vec![0u8, 7, 7, 7, 0, 0]);
    assert_eq!(live_ids(&c), vec![b.get_id()]);
}

#[test]
fn set_type_keeps_the_buffer() {
    let mut c = context(gl(4, 5), 4096);
    let b = Buffer::new(&mut c, &pattern(4), BufferType::ArrayBuffer, false).unwrap();
    let id = b.get_id();
    let b = b.set_type(BufferType::UniformBuffer).ok().unwrap();
    assert_eq!(b.get_type(), BufferType::UniformBuffer);
    assert_eq!(b.get_id(), id);
    assert_eq!(b.get_size(), 4);
}

#[test]
fn destroying_purges_attribute_bindings() {
    let mut c = context(gl(4, 5), 4096);
    let a = Buffer::empty(&mut c, BufferType::ArrayBuffer, 4, false).unwrap();
    let b = Buffer::empty(&mut c, BufferType::ArrayBuffer, 4, false).unwrap();
    let (ia, ib) = (a.get_id(), b.get_id());
    c.attrib_buffers = vec![ia, ib, ia, ib];
    a.destroy(&mut c);
    assert_eq!(c.attrib_buffers, vec![ib, ib]);
    assert_eq!(live_ids(&c), vec![ib]);
    assert_eq!(c.device.log.last(), Some(&Call::Delete(ia)));
}

fn new_calls(c: &Context, from: usize) -> Vec<Call> {
    c.device.log[from..].to_vec()
}

#[test]
fn buffers_record_their_context() {
    let mut c = context(gl(4, 5), 64);
    let b = Buffer::empty(&mut c, BufferType::ArrayBuffer, 4, false).unwrap();
    assert_eq!(b.get_context(), 7);
}

#[test]
fn direct_copy_makes_no_bind() {
    let mut c = context(gl(4, 5), 4096);
    let src = Buffer::new(&mut c, &pattern(8), BufferType::ArrayBuffer, false).unwrap();
    let dst = Buffer::empty(&mut c, BufferType::ArrayBuffer, 8, false).unwrap();
    let cache = c.cache;
    let from = c.device.log.len();
    copy_buffer(&mut c, src.get_id(), 1, dst.get_id(), 2, 5);
    assert_eq!(new_calls(&c, from), vec![Call::CopySubData(src.get_id(), dst.get_id(), 1, 2, 5)]);
    assert_eq!(c.cache, cache);
}

#[test]
fn bound_copy_binds_only_uncached_operands() {
    let mut c = context(gl(3, 3), 4096);
    let src = Buffer::new(&mut c, &pattern(8), BufferType::ArrayBuffer, false).unwrap();
    let dst = Buffer::empty(&mut c, BufferType::UniformBuffer, 8, false).unwrap();
    // both are cached where creation bound them
    let from = c.device.log.len();
    copy_buffer(&mut c, src.get_id(), 0, dst.get_id(), 0, 8);
    assert_eq!(new_calls(&c, from), vec![Call::CopySubData(src.get_id(), dst.get_id(), 0, 0, 8)]);
    // neither is cached any more
    bind_buffer(&mut c, 0, BufferType::ArrayBuffer);
    bind_buffer(&mut c, 0, BufferType::UniformBuffer);
    let from = c.device.log.len();
    copy_buffer(&mut c, src.get_id(), 0, dst.get_id(), 0, 8);
    assert_eq!(
        new_calls(&c, from),
        vec![
            Call::Bind(BufferType::CopyReadBuffer, src.get_id()),
            Call::Bind(BufferType::CopyWriteBuffer, dst.get_id()),
            Call::CopySubData(src.get_id(), dst.get_id(), 0, 0, 8),
        ]
    );
    assert_eq!(c.cache.pixel_pack_buffer, 0);
}

#[test]
fn staging_release_flushes_unmaps_copies_back_and_deletes() {
    let mut c = context(gl(4, 5), 4096);
    let b = Buffer::new(&mut c, &pattern(16), BufferType::ArrayBuffer, false).unwrap();
    let from = c.device.log.len();
    let m = b.map(&mut c, 4, 6);
    let calls = new_calls(&c, from);
    let tmp = match calls[0] {
        Call::Gen(t) => t,
        _ => panic!("the staging buffer is generated first"),
    };
    assert_eq!(
        calls,
        vec![
            Call::Gen(tmp),
            Call::Storage(tmp, 6, StorageKind::Immutable {
                dynamic_storage: true,
                map_access: true,
                persistent: false,
            }),
            Call::CopySubData(b.get_id(), tmp, 4, 0, 6),
            Call::MapRange(tmp),
        ]
    );
    let from = c.device.log.len();
    m.release(&mut c);
    assert_eq!(
        new_calls(&c, from),
        vec![
            Call::FlushRange(tmp, 0, 6),
            Call::Unmap(tmp),
            Call::CopySubData(tmp, b.get_id(), 0, 4, 6),
            Call::Delete(tmp),
        ]
    );
}

#[test]
fn staging_release_leaves_no_cached_staging_id() {
    let mut c = context(gl(3, 3), 4096);
    let b = Buffer::new(&mut c, &pattern(16), BufferType::UniformBuffer, false).unwrap();
    let m = b.map(&mut c, 0, 8);
    m.release(&mut c);
    for id in [c.cache.array_buffer, c.cache.pixel_pack_buffer, c.cache.pixel_unpack_buffer,
        c.cache.uniform_buffer, c.cache.copy_read_buffer, c.cache.copy_write_buffer] {
        assert!(id == 0 || id == b.get_id());
    }
}

#[test]
fn persistent_release_flushes_mapped_range_only() {
    let mut c = context(gl(4, 5), 4096);
    let b = Buffer::empty(&mut c, BufferType::ArrayBuffer, 64, true).unwrap();
    let from = c.device.log.len();
    let m = b.map(&mut c, 16, 8);
    m.release(&mut c);
    assert_eq!(new_calls(&c, from), vec![Call::FlushRange(b.get_id(), 16, 8)]);
    let from = c.device.log.len();
    let mut out = vec![0u8; 4];
    b.read_if_supported(&mut c, 8, &mut out).unwrap();
    assert_eq!(new_calls(&c, from), vec![Call::FlushRange(b.get_id(), 8, 4)]);
}

#[test]
fn failed_creation_deletes_once_and_maps_nothing() {
    let mut c = context(gl(4, 5), 8);
    let from = c.device.log.len();
    assert!(Buffer::empty(&mut c, BufferType::ArrayBuffer, 16, true).is_err());
    let calls = new_calls(&c, from);
    assert_eq!(calls.last(), Some(&Call::Delete(1)));
    assert_eq!(calls.iter().filter(|x| matches!(x, Call::Delete(_))).count(), 1);
    assert!(!calls.iter().any(|x| matches!(x, Call::MapRange(_))));
}

#[test]
fn persistent_creation_maps_once() {
    let mut c = context(gl(4, 5), 4096);
    let from = c.device.log.len();
    let b = Buffer::empty(&mut c, BufferType::ArrayBuffer, 32, true).unwrap();
    let id = b.get_id();
    assert_eq!(
        new_calls(&c, from),
        vec![
            Call::Gen(id),
            Call::Storage(id, 32, StorageKind::Immutable {
                dynamic_storage: false,
                map_access: true,
                persistent: true,
            }),
            Call::MapRange(id),
        ]
    );
}

#[test]
fn mutable_storage_records_usage_hint() {
    let mut c = context(gl(3, 3), 4096);
    let d = Buffer::empty(&mut c, BufferType::ArrayBuffer, 4, true).unwrap();
    assert!(c.device.log.contains(&Call::Storage(d.get_id(), 4, StorageKind::Mutable { dynamic: true })));
    let s = Buffer::empty(&mut c, BufferType::ArrayBuffer, 0, false).unwrap();
    assert!(c.device.log.contains(&Call::Storage(s.get_id(), 1, StorageKind::Mutable { dynamic: false })));
}

#[test]
fn mutable_upload_invalidates_only_whole_writes_then_writes_once() {
    let mut e = Extensions::none();
    e.arb_invalidate_subdata = true;
    let mut c2 = Context::new(2, gl(3, 3), e, Device::new(64)).unwrap();
    let b = Buffer::empty(&mut c2, BufferType::ArrayBuffer, 8, false).unwrap();
    let from = c2.device.log.len();
    b.upload(&mut c2, 0, &pattern(8));
    assert_eq!(
        new_calls(&c2, from),
        vec![Call::Invalidate(b.get_id()), Call::Write(b.get_id(), 0, 8)]
    );
    let from = c2.device.log.len();
    b.upload(&mut c2, 2, &pattern(3));
    assert_eq!(new_calls(&c2, from), vec![Call::Write(b.get_id(), 2, 3)]);
}
