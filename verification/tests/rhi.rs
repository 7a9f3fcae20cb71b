use shiloh::rhi::{
    BufferDesc, BufferUsage, DeviceError, HandleAllocator, NativeDevice, NullDevice, TextureDesc,
    TextureFormat, TextureUsage, WebGlDevice, WgpuDevice,
};

fn buffer(size: u64) -> BufferDesc {
    BufferDesc { size, usage: BufferUsage { bits: BufferUsage::VERTEX }, label: None }
}

fn texture(width: u32, height: u32) -> TextureDesc {
    TextureDesc {
        width,
        height,
        depth_or_layers: 1,
        mip_levels: 1,
        format: TextureFormat::Rgba8Unorm,
        usage: TextureUsage { bits: TextureUsage::SAMPLED },
        label: Some("albedo"),
    }
}

#[test]
fn usage_bits() {
    let vb = BufferUsage { bits: BufferUsage::VERTEX };
    let both = vb.union(BufferUsage { bits: BufferUsage::COPY_DST });
    assert_eq!(both.bits, 33);
    assert!(both.contains(vb));
    assert!(!vb.contains(both));
    let t = TextureUsage { bits: TextureUsage::RENDER_TARGET }.union(TextureUsage { bits: TextureUsage::SAMPLED });
    assert_eq!(t.bits, 5);
    assert!(t.contains(TextureUsage { bits: TextureUsage::SAMPLED }));
}

#[test]
fn allocator_reuses_slots_with_new_generation() {
    let mut a = HandleAllocator::new();
    assert_eq!(a.allocate(), Some((0, 0)));
    assert_eq!(a.allocate(), Some((1, 0)));
    assert!(a.free(0, 0));
    assert!(!a.free(0, 0));
    assert!(!a.free(7, 0));
    assert_eq!(a.allocate(), Some((0, 1)));
    assert!(!a.free(0, 0));
    assert!(a.free(0, 1));
}

#[test]
fn null_device_creates_and_destroys() {
    let mut d = NullDevice::new();
    assert_eq!(d.info().name, "Shiloh Null Device");
    assert_eq!(d.info().backend, "null");
    assert!(d.info().is_software);
    match d.create_buffer(&buffer(0)) {
        Err(DeviceError::InvalidDescriptor(m)) => assert_eq!(m, "buffer size must be > 0"),
        other => panic!("unexpected {other:?}"),
    }
    let b0 = d.create_buffer(&buffer(64)).unwrap();
    let b1 = d.create_buffer(&buffer(64)).unwrap();
    assert_ne!(b0, b1);
    d.destroy_buffer(b0);
    let b2 = d.create_buffer(&buffer(16)).unwrap();
    assert_eq!(b2.index, b0.index);
    assert_ne!(b2.generation, b0.generation);
    match d.create_texture(&texture(0, 4)) {
        Err(DeviceError::InvalidDescriptor(m)) => assert_eq!(m, "texture extent must be > 0"),
        other => panic!("unexpected {other:?}"),
    }
    let t = d.create_texture(&texture(4, 4)).unwrap();
    d.destroy_texture(t);
}

#[test]
fn stub_devices_refuse_resources() {
    let n = NativeDevice::stub_for_platform();
    assert_eq!(n.info().backend, "native");
    assert_eq!(n.info().name, "Shiloh Native (stub)");
    assert!(matches!(n.create_buffer(&buffer(4)), Err(DeviceError::Backend(_))));
    assert!(matches!(n.create_texture(&texture(4, 4)), Err(DeviceError::Backend(_))));
    let w = WebGlDevice::stub();
    assert_eq!(w.info().backend, "webgl");
    match w.create_buffer(&buffer(4)) {
        Err(DeviceError::Backend(m)) => assert_eq!(m, "webgl backend not wired yet"),
        other => panic!("unexpected {other:?}"),
    }
    let g = WgpuDevice::stub();
    assert_eq!(g.info().backend, "wgpu");
    assert_eq!(g.info().name, "wgpu (stub)");
    match g.create_texture(&texture(4, 4)) {
        Err(DeviceError::Backend(m)) => assert_eq!(m, "wgpu backend not fully wired yet"),
        other => panic!("unexpected {other:?}"),
    }
}
