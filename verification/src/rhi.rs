//! Render hardware interface: backend-neutral buffer / texture descriptors,
//! generational handles, and the devices behind them (a null device for
//! headless tooling and the placeholder native, WebGL and wgpu devices).

use vstd::prelude::*;

verus! {

/// Texture / buffer formats.
#[derive(Debug, Clone, Copy, PartialEq, Eq, Structural, Hash)]
pub enum TextureFormat {
    Rgba8Unorm,
    Rgba8UnormSrgb,
    Bgra8Unorm,
    Depth32Float,
    Depth24PlusStencil8,
}

/// Ways a buffer may be used, as a bit set of the `BufferUsage::*` bits.
#[derive(Debug, Clone, Copy, PartialEq, Eq, Structural, Hash)]
pub struct BufferUsage {
    pub bits: u32,
}

impl BufferUsage {
    pub const VERTEX: u32 = 1;
    pub const INDEX: u32 = 2;
    pub const UNIFORM: u32 = 4;
    pub const STORAGE: u32 = 8;
    pub const COPY_SRC: u32 = 16;
    pub const COPY_DST: u32 = 32;

    /// Both sets of usages.
    pub fn union(self, other: BufferUsage) -> (r: BufferUsage)
        ensures
            r.bits == self.bits | other.bits,
    {
        BufferUsage { bits: self.bits | other.bits }
    }

    /// Every usage of `other` is in `self`.
    pub fn contains(self, other: BufferUsage) -> (r: bool)
        ensures
            r == (self.bits & other.bits == other.bits),
    {
        self.bits & other.bits == other.bits
    }
}

/// Ways a texture may be used, as a bit set of the `TextureUsage::*` bits.
#[derive(Debug, Clone, Copy, PartialEq, Eq, Structural, Hash)]
pub struct TextureUsage {
    pub bits: u32,
}

impl TextureUsage {
    pub const SAMPLED: u32 = 1;
    pub const STORAGE: u32 = 2;
    pub const RENDER_TARGET: u32 = 4;
    pub const DEPTH_STENCIL: u32 = 8;
    pub const COPY_SRC: u32 = 16;
    pub const COPY_DST: u32 = 32;

    /// Both sets of usages.
    pub fn union(self, other: TextureUsage) -> (r: TextureUsage)
        ensures
            r.bits == self.bits | other.bits,
    {
        TextureUsage { bits: self.bits | other.bits }
    }

    /// Every usage of `other` is in `self`.
    pub fn contains(self, other: TextureUsage) -> (r: bool)
        ensures
            r == (self.bits & other.bits == other.bits),
    {
        self.bits & other.bits == other.bits
    }
}

/// Marker for buffer handles.
#[derive(Debug, Clone, Copy, Default)]
pub struct BufferTag;

/// Marker for texture handles.
#[derive(Debug, Clone, Copy, Default)]
pub struct TextureTag;

/// A GPU buffer: a slot index and the slot's generation when it was handed out.
#[derive(Debug, Clone, Copy, PartialEq, Eq, Structural, Hash)]
pub struct BufferHandle {
    pub index: u32,
    pub generation: u32,
}

/// A GPU texture: a slot index and the slot's generation when it was handed out.
#[derive(Debug, Clone, Copy, PartialEq, Eq, Structural, Hash)]
pub struct TextureHandle {
    pub index: u32,
    pub generation: u32,
}

#[derive(Debug, Clone)]
pub struct BufferDesc {
    pub size: u64,
    pub usage: BufferUsage,
    pub label: Option<&'static str>,
}

#[derive(Debug, Clone)]
pub struct TextureDesc {
    pub width: u32,
    pub height: u32,
    pub depth_or_layers: u32,
    pub mip_levels: u32,
    pub format: TextureFormat,
    pub usage: TextureUsage,
    pub label: Option<&'static str>,
}

/// Why a device refused a request.
#[derive(Debug)]
pub enum DeviceError {
    OutOfMemory,
    InvalidDescriptor(&'static str),
    Backend(String),
}

/// Name and kind of a device.
#[derive(Debug, Clone)]
pub struct DeviceInfo {
    pub name: String,
    pub backend: &'static str,
    pub is_software: bool,
}

// ---------------------------------------------------------------------------
// Generational slot allocator.

/// Hands out `(index, generation)` pairs: freed slots are reused, with their
/// generation advanced so that a stale handle never matches a live one.
pub struct HandleAllocator {
    generations: Vec<u32>,
    live: Vec<bool>,
    free: Vec<u32>,
}

impl HandleAllocator {
    /// Current generation of every slot.
    pub closed spec fn generations(&self) -> Seq<u32> {
        self.generations@
    }

    /// Whether each slot is handed out.
    pub closed spec fn live(&self) -> Seq<bool> {
        self.live@
    }

    /// Freed slots, the most recently freed last.
    pub closed spec fn free_slots(&self) -> Seq<u32> {
        self.free@
    }

    /// The handle the next allocation gives: the most recently freed slot
    /// with its current generation, else a new slot with generation 0, or
    /// none when all `2^32` slots are taken.
    pub open spec fn next_handle(&self) -> Option<(u32, u32)> {
        if self.free_slots().len() > 0 {
            let i = self.free_slots().last();
            Some((i, self.generations()[i as int]))
        } else if self.live().len() <= u32::MAX {
            Some((self.live().len() as u32, 0u32))
        } else {
            None
        }
    }

    /// Well-formed: one generation and one live flag per slot, and the free
    /// list holds exactly the slots that are not live, each once.
    pub closed spec fn wf(&self) -> bool {
        &&& self.generations@.len() == self.live@.len()
        &&& self.live@.len() <= u32::MAX + 1
        &&& self.free@.no_duplicates()
        &&& forall|k: int| 0 <= k < self.free@.len() ==> (#[trigger] self.free@[k] as int) < self.live@.len()
        &&& forall|i: int| 0 <= i < self.live@.len() ==> (!#[trigger] self.live@[i] <==> self.free@.contains(i as u32))
    }

    /// Whether `(index, generation)` names a handed-out slot.
    pub open spec fn is_live(&self, index: u32, generation: u32) -> bool {
        &&& (index as int) < self.live().len()
        &&& self.live()[index as int]
        &&& self.generations()[index as int] == generation
    }

    /// No slots.
    pub fn new() -> (a: Self)
        ensures
            a.wf(),
            a.live() == Seq::<bool>::empty(),
            a.generations() == Seq::<u32>::empty(),
            a.free_slots() == Seq::<u32>::empty(),
    {
        HandleAllocator { generations: Vec::new(), live: Vec::new(), free: Vec::new() }
    }

    /// Hand out a slot that is not live: a freed one if any, else a new one.
    /// `None` only when all `2^32` slots are live.
    pub fn allocate(&mut self) -> (r: Option<(u32, u32)>)
        requires
            old(self).wf(),
        ensures
            final(self).wf(),
            r == old(self).next_handle(),
            old(self).free_slots().len() > 0 ==> final(self).free_slots() == old(self).free_slots().drop_last(),
            old(self).free_slots().len() == 0 ==> final(self).free_slots() == old(self).free_slots(),
            match r {
                Some((index, generation)) => {
                    &&& (index as int) < final(self).live().len()
                    &&& (index as int) < old(self).live().len() ==> !old(self).live()[index as int]
                    &&& final(self).is_live(index, generation)
                    &&& forall|i: int| 0 <= i < old(self).live().len() && i != index ==> final(self).live()[i] == old(self).live()[i] && final(self).generations()[i] == old(self).generations()[i]
                    &&& (index as int) < old(self).live().len() ==> final(self).live().len() == old(self).live().len()
                    &&& (index as int) >= old(self).live().len() ==> index == old(self).live().len() && final(self).live().len() == old(self).live().len() + 1
                },
                None => {
                    &&& final(self).live() == old(self).live()
                    &&& final(self).generations() == old(self).generations()
                    &&& forall|i: int| 0 <= i < old(self).live().len() ==> old(self).live()[i]
                },
            },
    {
        match self.free.pop() {
            Some(index) => {
                proof {
                    assert(self.free@.no_duplicates());
                }
                self.live.set(index as usize, true);
                proof {
                    assert forall|i: int| 0 <= i < self.live@.len() implies (!#[trigger] self.live@[i] <==> self.free@.contains(i as u32)) by {
                        if i == index as int {
                            assert(!self.free@.contains(index)) by {
                                let old_free = old(self).free@;
                                assert(old_free[old_free.len() - 1] == index);
                                if self.free@.contains(index) {
                                    let k = choose|k: int| 0 <= k < self.free@.len() && self.free@[k] == index;
                                    assert(old_free[k] == index);
                                }
                            }
                        } else {
                            let old_free = old(self).free@;
                            assert(old(self).live@[i] == self.live@[i]);
                            if old_free.contains(i as u32) {
                                let k = choose|k: int| 0 <= k < old_free.len() && old_free[k] == i as u32;
                                assert(k != old_free.len() - 1);
                                assert(self.free@[k] == i as u32);
                            }
                            if self.free@.contains(i as u32) {
                                let k = choose|k: int| 0 <= k < self.free@.len() && self.free@[k] == i as u32;
                                assert(old_free[k] == i as u32);
                            }
                        }
                    }
                }
                let generation = self.generations[index as usize];
                Some((index, generation))
            },
            None => {
                let n = self.live.len();
                if n > u32::MAX as usize {
                    assert forall|i: int| 0 <= i < old(self).live().len() implies old(self).live()[i] by {
                        assert(!old(self).free@.contains(i as u32));
                    }
                    return None;
                }
                self.live.push(true);
                self.generations.push(0);
                proof {
                    assert forall|i: int| 0 <= i < self.live@.len() implies (!#[trigger] self.live@[i] <==> self.free@.contains(i as u32)) by {
                        if i < n {
                            assert(self.live@[i] == old(self).live@[i]);
                        }
                    }
                }
                Some((n as u32, 0))
            },
        }
    }

    /// Return a live slot; a handle that is not live (already freed, or of an
    /// older generation) is ignored.
    pub fn free(&mut self, index: u32, generation: u32) -> (freed: bool)
        requires
            old(self).wf(),
        ensures
            final(self).wf(),
            freed == old(self).is_live(index, generation),
            freed ==> final(self).live() == old(self).live().update(index as int, false)
                && final(self).generations() == old(self).generations().update(
                index as int,
                (if generation == u32::MAX { 0 } else { (generation + 1) as u32 }),
            ),
            !freed ==> final(self).live() == old(self).live() && final(self).generations()
                == old(self).generations(),
            freed ==> final(self).free_slots() == old(self).free_slots().push(index),
            !freed ==> final(self).free_slots() == old(self).free_slots(),
    {
        let i = index as usize;
        if i < self.live.len() && self.live[i] && self.generations[i] == generation {
            self.live.set(i, false);
            let next = if generation == u32::MAX { 0 } else { generation + 1 };
            self.generations.set(i, next);
            proof {
                assert(!old(self).free@.contains(index));
            }
            self.free.push(index);
            proof {
                assert forall|j: int| 0 <= j < self.live@.len() implies (!#[trigger] self.live@[j] <==> self.free@.contains(j as u32)) by {
                    if j != i as int {
                        assert(self.live@[j] == old(self).live@[j]);
                        if self.free@.contains(j as u32) {
                            let k = choose|k: int| 0 <= k < self.free@.len() && self.free@[k] == j as u32;
                            if k < old(self).free@.len() {
                                assert(old(self).free@[k] == j as u32);
                            } else {
                                assert(self.free@[k] == index);
                            }
                        }
                        if old(self).free@.contains(j as u32) {
                            let k = choose|k: int| 0 <= k < old(self).free@.len() && old(self).free@[k] == j as u32;
                            assert(self.free@[k] == j as u32);
                        }
                    } else {
                        assert(self.free@[self.free@.len() - 1] == index);
                    }
                }
                assert(self.free@.no_duplicates()) by {
                    assert forall|a: int, b: int| 0 <= a < b < self.free@.len() implies self.free@[a] != self.free@[b] by {
                        if b == self.free@.len() - 1 {
                            assert(old(self).free@[a] == self.free@[a]);
                        } else {
                            assert(old(self).free@[a] == self.free@[a]);
                            assert(old(self).free@[b] == self.free@[b]);
                        }
                    }
                }
            }
            true
        } else {
            false
        }
    }
}

// ---------------------------------------------------------------------------
// Devices.

/// Software / no-op GPU device for headless tools and CI.
pub struct NullDevice {
    info: DeviceInfo,
    buffers: HandleAllocator,
    textures: HandleAllocator,
}

impl NullDevice {
    pub closed spec fn wf(&self) -> bool {
        self.buffers.wf() && self.textures.wf()
    }

    /// Whether `h` names a buffer created and not yet destroyed.
    pub closed spec fn buffer_live(&self, h: BufferHandle) -> bool {
        self.buffers.is_live(h.index, h.generation)
    }

    /// Whether `h` names a texture created and not yet destroyed.
    pub closed spec fn texture_live(&self, h: TextureHandle) -> bool {
        self.textures.is_live(h.index, h.generation)
    }

    pub closed spec fn info_view(&self) -> DeviceInfo {
        self.info
    }

    /// The slots of the device's buffers.
    pub closed spec fn buffer_slots(&self) -> HandleAllocator {
        self.buffers
    }

    /// The slots of the device's textures.
    pub closed spec fn texture_slots(&self) -> HandleAllocator {
        self.textures
    }

    /// A null device with no buffers or textures.
    pub fn new() -> (d: Self)
        ensures
            d.wf(),
            d.info_view().name@ == "Shiloh Null Device"@,
            d.info_view().backend@ == "null"@,
            d.info_view().is_software,
            forall|h: BufferHandle| !d.buffer_live(h),
            forall|h: TextureHandle| !d.texture_live(h),
    {
        NullDevice {
            info: DeviceInfo {
                name: String::from_str("Shiloh Null Device"),
                backend: "null",
                is_software: true,
            },
            buffers: HandleAllocator::new(),
            textures: HandleAllocator::new(),
        }
    }

    pub fn info(&self) -> (r: &DeviceInfo)
        ensures
            *r == self.info_view(),
    {
        &self.info
    }

    /// A buffer of zero size is refused; otherwise a handle not live before
    /// and live now, or `OutOfMemory` when every handle slot is in use.
    pub fn create_buffer(&mut self, desc: &BufferDesc) -> (r: Result<BufferHandle, DeviceError>)
        requires
            old(self).wf(),
        ensures
            final(self).wf(),
            final(self).info_view() == old(self).info_view(),
            desc.size == 0 ==> (r matches Err(DeviceError::InvalidDescriptor(m)) && m@
                == "buffer size must be > 0"@),
            r matches Ok(h) ==> !old(self).buffer_live(h) && final(self).buffer_live(h),
            r matches Ok(h) ==> forall|g: BufferHandle| g != h ==> (final(self).buffer_live(g) == old(self).buffer_live(g)),
            r is Err ==> forall|g: BufferHandle| final(self).buffer_live(g) == old(self).buffer_live(g),
            desc.size != 0 && r is Err ==> r matches Err(DeviceError::OutOfMemory),
            desc.size != 0 ==> match old(self).buffer_slots().next_handle() {
                Some(p) => r matches Ok(h) && h.index == p.0 && h.generation == p.1,
                None => r is Err,
            },
            forall|t: TextureHandle| final(self).texture_live(t) == old(self).texture_live(t),
    {
        if desc.size == 0 {
            return Err(DeviceError::InvalidDescriptor("buffer size must be > 0"));
        }
        match self.buffers.allocate() {
            Some((index, generation)) => {
                let h = BufferHandle { index, generation };
                assert forall|g: BufferHandle| g != h implies (self.buffer_live(g) == old(self).buffer_live(g)) by {
                    if g.index == index {
                        assert(g.generation != generation);
                    }
                }
                Ok(h)
            },
            None => Err(DeviceError::OutOfMemory),
        }
    }

    /// A texture with zero width or height is refused; otherwise as for buffers.
    pub fn create_texture(&mut self, desc: &TextureDesc) -> (r: Result<TextureHandle, DeviceError>)
        requires
            old(self).wf(),
        ensures
            final(self).wf(),
            final(self).info_view() == old(self).info_view(),
            (desc.width == 0 || desc.height == 0) ==> (r matches Err(DeviceError::InvalidDescriptor(m))
                && m@ == "texture extent must be > 0"@),
            r matches Ok(h) ==> !old(self).texture_live(h) && final(self).texture_live(h),
            r matches Ok(h) ==> forall|g: TextureHandle| g != h ==> (final(self).texture_live(g) == old(self).texture_live(g)),
            r is Err ==> forall|g: TextureHandle| final(self).texture_live(g) == old(self).texture_live(g),
            desc.width != 0 && desc.height != 0 && r is Err ==> r matches Err(DeviceError::OutOfMemory),
            desc.width != 0 && desc.height != 0 ==> match old(self).texture_slots().next_handle() {
                Some(p) => r matches Ok(h) && h.index == p.0 && h.generation == p.1,
                None => r is Err,
            },
            forall|b: BufferHandle| final(self).buffer_live(b) == old(self).buffer_live(b),
    {
        if desc.width == 0 || desc.height == 0 {
            return Err(DeviceError::InvalidDescriptor("texture extent must be > 0"));
        }
        match self.textures.allocate() {
            Some((index, generation)) => {
                let h = TextureHandle { index, generation };
                assert forall|g: TextureHandle| g != h implies (self.texture_live(g) == old(self).texture_live(g)) by {
                    if g.index == index {
                        assert(g.generation != generation);
                    }
                }
                Ok(h)
            },
            None => Err(DeviceError::OutOfMemory),
        }
    }

    /// Destroy a live buffer; other handles are ignored.
    pub fn destroy_buffer(&mut self, handle: BufferHandle)
        requires
            old(self).wf(),
        ensures
            final(self).wf(),
            final(self).info_view() == old(self).info_view(),
            !final(self).buffer_live(handle),
            forall|g: BufferHandle| g.index != handle.index ==> (final(self).buffer_live(g) == old(self).buffer_live(g)),
            forall|t: TextureHandle| final(self).texture_live(t) == old(self).texture_live(t),
    {
        let _ = self.buffers.free(handle.index, handle.generation);
    }

    /// Destroy a live texture; other handles are ignored.
    pub fn destroy_texture(&mut self, handle: TextureHandle)
        requires
            old(self).wf(),
        ensures
            final(self).wf(),
            final(self).info_view() == old(self).info_view(),
            !final(self).texture_live(handle),
            forall|g: TextureHandle| g.index != handle.index ==> (final(self).texture_live(g) == old(self).texture_live(g)),
            forall|b: BufferHandle| final(self).buffer_live(b) == old(self).buffer_live(b),
    {
        let _ = self.textures.free(handle.index, handle.generation);
    }
}

/// Placeholder native (Vulkan / D3D12 / Metal) device: reports itself and
/// refuses every resource until the backend is wired.
pub struct NativeDevice {
    info: DeviceInfo,
}

/// Placeholder WebGL device.
pub struct WebGlDevice {
    info: DeviceInfo,
}

/// Placeholder wgpu device.
pub struct WgpuDevice {
    info: DeviceInfo,
}

impl NativeDevice {
    pub closed spec fn info_view(&self) -> DeviceInfo {
        self.info
    }

    pub fn stub_for_platform() -> (d: Self)
        ensures
            d.info_view().name@ == "Shiloh Native (stub)"@,
            d.info_view().backend@ == "native"@,
            !d.info_view().is_software,
    {
        NativeDevice {
            info: DeviceInfo {
                name: String::from_str("Shiloh Native (stub)"),
                backend: "native",
                is_software: false,
            },
        }
    }

    pub fn info(&self) -> (r: &DeviceInfo)
        ensures
            *r == self.info_view(),
    {
        &self.info
    }

    /// Always refused: the backend is not wired yet.
    pub fn create_buffer(&self, desc: &BufferDesc) -> (r: Result<BufferHandle, DeviceError>)
        ensures
            r matches Err(DeviceError::Backend(m)) && m@
                == "native backend not wired yet — use wgpu extension or null for now"@,
    {
        Err(DeviceError::Backend(String::from_str("native backend not wired yet — use wgpu extension or null for now")))
    }

    /// Always refused: the backend is not wired yet.
    pub fn create_texture(&self, desc: &TextureDesc) -> (r: Result<TextureHandle, DeviceError>)
        ensures
            r matches Err(DeviceError::Backend(m)) && m@
                == "native backend not wired yet — use wgpu extension or null for now"@,
    {
        Err(DeviceError::Backend(String::from_str("native backend not wired yet — use wgpu extension or null for now")))
    }
}

impl WebGlDevice {
    pub closed spec fn info_view(&self) -> DeviceInfo {
        self.info
    }

    pub fn stub() -> (d: Self)
        ensures
            d.info_view().name@ == "Shiloh WebGL (stub)"@,
            d.info_view().backend@ == "webgl"@,
            !d.info_view().is_software,
    {
        WebGlDevice {
            info: DeviceInfo {
                name: String::from_str("Shiloh WebGL (stub)"),
                backend: "webgl",
                is_software: false,
            },
        }
    }

    pub fn info(&self) -> (r: &DeviceInfo)
        ensures
            *r == self.info_view(),
    {
        &self.info
    }

    /// Always refused: the backend is not wired yet.
    pub fn create_buffer(&self, desc: &BufferDesc) -> (r: Result<BufferHandle, DeviceError>)
        ensures
            r matches Err(DeviceError::Backend(m)) && m@ == "webgl backend not wired yet"@,
    {
        Err(DeviceError::Backend(String::from_str("webgl backend not wired yet")))
    }

    /// Always refused: the backend is not wired yet.
    pub fn create_texture(&self, desc: &TextureDesc) -> (r: Result<TextureHandle, DeviceError>)
        ensures
            r matches Err(DeviceError::Backend(m)) && m@ == "webgl backend not wired yet"@,
    {
        Err(DeviceError::Backend(String::from_str("webgl backend not wired yet")))
    }
}

impl WgpuDevice {
    pub closed spec fn info_view(&self) -> DeviceInfo {
        self.info
    }

    pub fn stub() -> (d: Self)
        ensures
            d.info_view().name@ == "wgpu (stub)"@,
            d.info_view().backend@ == "wgpu"@,
            !d.info_view().is_software,
    {
        WgpuDevice {
            info: DeviceInfo { name: String::from_str("wgpu (stub)"), backend: "wgpu", is_software: false },
        }
    }

    pub fn info(&self) -> (r: &DeviceInfo)
        ensures
            *r == self.info_view(),
    {
        &self.info
    }

    /// Always refused: the backend is not fully wired yet.
    pub fn create_buffer(&self, desc: &BufferDesc) -> (r: Result<BufferHandle, DeviceError>)
        ensures
            r matches Err(DeviceError::Backend(m)) && m@ == "wgpu backend not fully wired yet"@,
    {
        Err(DeviceError::Backend(String::from_str("wgpu backend not fully wired yet")))
    }

    /// Always refused: the backend is not fully wired yet.
    pub fn create_texture(&self, desc: &TextureDesc) -> (r: Result<TextureHandle, DeviceError>)
        ensures
            r matches Err(DeviceError::Backend(m)) && m@ == "wgpu backend not fully wired yet"@,
    {
        Err(DeviceError::Backend(String::from_str("wgpu backend not fully wired yet")))
    }
}

} // verus!
