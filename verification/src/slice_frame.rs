//! The data side of a slice-renderer frame: how a frame's instances are
//! packed into one buffer and which part of it each batch is drawn from, how
//! instance and HUD buffers grow, the pixels of the built-in albedo textures,
//! and how a rendered texture read back row by row becomes tightly packed
//! RGBA8 pixels.

use vstd::prelude::*;

verus! {

// ---------------------------------------------------------------------------
// Instance batches.

/// Bytes of one packed instance (a 4x4 matrix of `f32`).
pub const INSTANCE_BYTES: u64 = 64;

/// The instance batches of a frame, one per mesh.
#[derive(Debug, Clone, Copy, PartialEq, Eq, Structural)]
pub enum InstanceBatch {
    Cube,
    Sphere,
    /// The optional imported mesh.
    Extra,
    Foliage,
    Rock,
    Mountain,
    Ground,
    Prop0,
    Prop1,
    Prop2,
    Prop3,
}

/// The instances of one frame, batch by batch.
#[derive(Debug, Clone)]
pub struct FrameInstances<T> {
    pub cube: Vec<T>,
    pub sphere: Vec<T>,
    pub extra: Vec<T>,
    pub foliage: Vec<T>,
    pub rock: Vec<T>,
    pub mountain: Vec<T>,
    pub ground: Vec<T>,
    pub prop0: Vec<T>,
    pub prop1: Vec<T>,
    pub prop2: Vec<T>,
    pub prop3: Vec<T>,
}

/// The instances of batch `b`.
pub open spec fn batch_instances<T>(f: FrameInstances<T>, b: InstanceBatch) -> Seq<T> {
    match b {
        InstanceBatch::Cube => f.cube@,
        InstanceBatch::Sphere => f.sphere@,
        InstanceBatch::Extra => f.extra@,
        InstanceBatch::Foliage => f.foliage@,
        InstanceBatch::Rock => f.rock@,
        InstanceBatch::Mountain => f.mountain@,
        InstanceBatch::Ground => f.ground@,
        InstanceBatch::Prop0 => f.prop0@,
        InstanceBatch::Prop1 => f.prop1@,
        InstanceBatch::Prop2 => f.prop2@,
        InstanceBatch::Prop3 => f.prop3@,
    }
}

/// The instance buffer of a frame: cubes, spheres, the extra mesh, foliage,
/// rocks, mountains, ground, then the four prop slots.
pub open spec fn packed_instances<T>(f: FrameInstances<T>) -> Seq<T> {
    f.cube@ + f.sphere@ + f.extra@ + f.foliage@ + f.rock@ + f.mountain@ + f.ground@ + f.prop0@
        + f.prop1@ + f.prop2@ + f.prop3@
}

/// The order in which the shadow and main passes draw the batches: cubes,
/// spheres, the extra mesh, ground, mountains, rocks, foliage, then the props.
pub open spec fn draw_order() -> Seq<InstanceBatch> {
    seq![
        InstanceBatch::Cube,
        InstanceBatch::Sphere,
        InstanceBatch::Extra,
        InstanceBatch::Ground,
        InstanceBatch::Mountain,
        InstanceBatch::Rock,
        InstanceBatch::Foliage,
        InstanceBatch::Prop0,
        InstanceBatch::Prop1,
        InstanceBatch::Prop2,
        InstanceBatch::Prop3,
    ]
}

/// Instances the passes step over before drawing the `k`-th batch of
/// [`draw_order`]: the sizes of the batches drawn before it.
pub open spec fn drawn_before<T>(f: FrameInstances<T>, k: int) -> nat
    decreases k,
{
    if k <= 0 {
        0
    } else {
        drawn_before(f, k - 1) + batch_instances(f, draw_order()[k - 1]).len()
    }
}

/// One draw of a pass: the batch, the byte offset into the instance buffer
/// its instances are read from, and how many are drawn.
#[derive(Debug, Clone, Copy, PartialEq, Eq, Structural)]
pub struct DrawRange {
    pub batch: InstanceBatch,
    pub offset: u64,
    pub count: u32,
}

fn draw_order_array() -> (r: [InstanceBatch; 11])
    ensures
        r@ == draw_order(),
{
    [
        InstanceBatch::Cube,
        InstanceBatch::Sphere,
        InstanceBatch::Extra,
        InstanceBatch::Ground,
        InstanceBatch::Mountain,
        InstanceBatch::Rock,
        InstanceBatch::Foliage,
        InstanceBatch::Prop0,
        InstanceBatch::Prop1,
        InstanceBatch::Prop2,
        InstanceBatch::Prop3,
    ]
}

proof fn lemma_drawn_before_total<T>(f: FrameInstances<T>, k: int)
    requires
        0 <= k <= 11,
    ensures
        drawn_before(f, k) <= drawn_before(f, 11),
        drawn_before(f, 11) == packed_instances(f).len(),
    decreases 11 - k,
{
    reveal_with_fuel(drawn_before, 12);
    if k < 11 {
        lemma_drawn_before_total(f, k + 1);
    }
}

/// `src` copied onto the end of `out`.
fn append_copies<T: Copy>(out: &mut Vec<T>, src: &Vec<T>)
    ensures
        final(out)@ == old(out)@ + src@,
{
    let ghost start = out@;
    let mut i: usize = 0;
    while i < src.len()
        invariant
            i <= src@.len(),
            out@ == start + src@.take(i as int),
        decreases src.len() - i,
    {
        out.push(src[i]);
        proof {
            assert(src@.take(i + 1) =~= src@.take(i as int).push(src@[i as int]));
        }
        i += 1;
    }
    proof {
        assert(src@.take(src@.len() as int) =~= src@);
    }
}

impl<T> FrameInstances<T> {
    /// The instances of batch `b`.
    pub fn batch(&self, b: InstanceBatch) -> (r: &Vec<T>)
        ensures
            r@ == batch_instances(*self, b),
    {
        match b {
            InstanceBatch::Cube => &self.cube,
            InstanceBatch::Sphere => &self.sphere,
            InstanceBatch::Extra => &self.extra,
            InstanceBatch::Foliage => &self.foliage,
            InstanceBatch::Rock => &self.rock,
            InstanceBatch::Mountain => &self.mountain,
            InstanceBatch::Ground => &self.ground,
            InstanceBatch::Prop0 => &self.prop0,
            InstanceBatch::Prop1 => &self.prop1,
            InstanceBatch::Prop2 => &self.prop2,
            InstanceBatch::Prop3 => &self.prop3,
        }
    }

    /// The draws of the shadow and main passes, in [`draw_order`]: each
    /// batch's size, read from the buffer at 64 bytes per instance stepped
    /// over (see [`drawn_before`]).
    pub fn draw_ranges(&self) -> (r: Vec<DrawRange>)
        requires
            forall|b: InstanceBatch| (#[trigger] batch_instances(*self, b)).len() <= u32::MAX,
            packed_instances(*self).len() * INSTANCE_BYTES <= u64::MAX,
        ensures
            r@.len() == 11,
            forall|k: int|
                0 <= k < 11 ==> {
                    &&& (#[trigger] r@[k]).batch == draw_order()[k]
                    &&& r@[k].count == batch_instances(*self, draw_order()[k]).len()
                    &&& r@[k].offset == INSTANCE_BYTES * drawn_before(*self, k)
                },
    {
        let order = draw_order_array();
        let mut out: Vec<DrawRange> = Vec::new();
        let mut offset: u64 = 0;
        let mut k: usize = 0;
        proof {
            lemma_drawn_before_total(*self, 0);
        }
        while k < 11
            invariant
                k <= 11,
                order@ == draw_order(),
                forall|b: InstanceBatch| (#[trigger] batch_instances(*self, b)).len() <= u32::MAX,
                packed_instances(*self).len() * INSTANCE_BYTES <= u64::MAX,
                offset == INSTANCE_BYTES * drawn_before(*self, k as int),
                out@.len() == k,
                forall|j: int|
                    0 <= j < k ==> {
                        &&& (#[trigger] out@[j]).batch == draw_order()[j]
                        &&& out@[j].count == batch_instances(*self, draw_order()[j]).len()
                        &&& out@[j].offset == INSTANCE_BYTES * drawn_before(*self, j)
                    },
            decreases 11 - k,
        {
            let b = order[k];
            let list = self.batch(b);
            let count = list.len() as u32;
            proof {
                assert(batch_instances(*self, b).len() <= u32::MAX);
                lemma_drawn_before_total(*self, k + 1);
                assert(drawn_before(*self, k + 1) == drawn_before(*self, k as int) + count);
                assert(INSTANCE_BYTES * drawn_before(*self, k + 1) <= packed_instances(*self).len()
                    * INSTANCE_BYTES) by (nonlinear_arith)
                    requires
                        drawn_before(*self, k + 1) <= packed_instances(*self).len(),
                ;
            }
            out.push(DrawRange { batch: b, offset, count });
            offset = offset + count as u64 * INSTANCE_BYTES;
            k += 1;
        }
        out
    }
}

impl<T: Copy> FrameInstances<T> {
    /// The frame's instance buffer (see [`packed_instances`]).
    pub fn pack(&self) -> (r: Vec<T>)
        ensures
            r@ == packed_instances(*self),
    {
        let mut out: Vec<T> = Vec::new();
        append_copies(&mut out, &self.cube);
        append_copies(&mut out, &self.sphere);
        append_copies(&mut out, &self.extra);
        append_copies(&mut out, &self.foliage);
        append_copies(&mut out, &self.rock);
        append_copies(&mut out, &self.mountain);
        append_copies(&mut out, &self.ground);
        append_copies(&mut out, &self.prop0);
        append_copies(&mut out, &self.prop1);
        append_copies(&mut out, &self.prop2);
        append_copies(&mut out, &self.prop3);
        proof {
            assert(out@ =~= packed_instances(*self));
        }
        out
    }
}

/// How many of the foliage, rock, mountain and ground batches hold instances.
pub open spec fn scenery_batches_in_use<T>(f: FrameInstances<T>) -> nat {
    (if f.foliage@.len() > 0 { 1nat } else { 0nat }) + (if f.rock@.len() > 0 { 1nat } else { 0nat })
        + (if f.mountain@.len() > 0 { 1nat } else { 0nat }) + (if f.ground@.len() > 0 { 1nat } else { 0nat })
}

/// Where batch `b` starts in the instance buffer.
pub open spec fn packed_start<T>(f: FrameInstances<T>, b: InstanceBatch) -> nat {
    let c = f.cube@.len();
    let s = c + f.sphere@.len();
    let e = s + f.extra@.len();
    let fo = e + f.foliage@.len();
    let r = fo + f.rock@.len();
    let m = r + f.mountain@.len();
    let g = m + f.ground@.len();
    let p0 = g + f.prop0@.len();
    let p1 = p0 + f.prop1@.len();
    let p2 = p1 + f.prop2@.len();
    match b {
        InstanceBatch::Cube => 0,
        InstanceBatch::Sphere => c,
        InstanceBatch::Extra => s,
        InstanceBatch::Foliage => e,
        InstanceBatch::Rock => fo,
        InstanceBatch::Mountain => r,
        InstanceBatch::Ground => m,
        InstanceBatch::Prop0 => g,
        InstanceBatch::Prop1 => p0,
        InstanceBatch::Prop2 => p1,
        InstanceBatch::Prop3 => p2,
    }
}

proof fn lemma_packed_batch<T>(f: FrameInstances<T>, b: InstanceBatch)
    ensures
        packed_start(f, b) + batch_instances(f, b).len() <= packed_instances(f).len(),
        packed_instances(f).subrange(
            packed_start(f, b) as int,
            (packed_start(f, b) + batch_instances(f, b).len()) as int,
        ) == batch_instances(f, b),
{
    let p = packed_instances(f);
    let x = batch_instances(f, b);
    let st = packed_start(f, b) as int;
    assert(p.subrange(st, st + x.len()) =~= x);
}

/// Each draw of the shadow and main passes reads exactly the instances packed
/// for its batch, provided at most one of the foliage, rock, mountain and
/// ground batches holds instances: the passes step over those four batches
/// in another order than the buffer holds them.
pub proof fn law_draws_read_own_batch<T>(f: FrameInstances<T>, k: int)
    requires
        0 <= k < 11,
        scenery_batches_in_use(f) <= 1,
    ensures
        ({
            let b = draw_order()[k];
            let start = drawn_before(f, k) as int;
            packed_instances(f).subrange(start, start + batch_instances(f, b).len() as int)
                == batch_instances(f, b)
        }),
{
    reveal_with_fuel(drawn_before, 12);
    let b = draw_order()[k];
    lemma_packed_batch(f, b);
    let x = batch_instances(f, b);
    if x.len() > 0 {
        assert(drawn_before(f, k) == packed_start(f, b));
    } else {
        lemma_drawn_before_total(f, k);
        let start = drawn_before(f, k) as int;
        assert(packed_instances(f).subrange(start, start) =~= x);
    }
}

// ---------------------------------------------------------------------------
// Buffer growth.

/// The smallest power of two that is at least `n` (1 for 0 and 1).
pub open spec fn next_pow2(n: nat) -> nat
    decreases n,
{
    if n <= 1 {
        1
    } else {
        2 * next_pow2(((n + 1) / 2) as nat)
    }
}

/// `2^k`.
pub open spec fn pow2(k: nat) -> nat
    decreases k,
{
    if k == 0 {
        1
    } else {
        2 * pow2((k - 1) as nat)
    }
}

/// [`next_pow2`] gives a power of two, at least `n`, and no larger than any
/// power of two that is at least `n`.
pub proof fn lemma_next_pow2(n: nat, k: nat)
    ensures
        exists|j: nat| next_pow2(n) == pow2(j),
        n <= next_pow2(n),
        n <= pow2(k) ==> next_pow2(n) <= pow2(k),
    decreases n,
{
    if n <= 1 {
        assert(next_pow2(n) == pow2(0));
        if n <= pow2(k) {
            lemma_pow2_positive(k);
        }
    } else {
        let h = ((n + 1) / 2) as nat;
        if k > 0 {
            lemma_next_pow2(h, (k - 1) as nat);
        } else {
            lemma_next_pow2(h, 0);
        }
        let j = choose|j: nat| next_pow2(h) == pow2(j);
        assert(next_pow2(n) == pow2(j + 1));
    }
}

proof fn lemma_pow2_positive(k: nat)
    ensures
        pow2(k) >= 1,
    decreases k,
{
    if k > 0 {
        lemma_pow2_positive((k - 1) as nat);
    }
}

/// `u32::next_power_of_two` for values whose result fits.
pub fn next_power_of_two(n: u32) -> (p: u32)
    requires
        n <= 0x8000_0000,
    ensures
        p == next_pow2(n as nat),
    decreases n,
{
    if n <= 1 {
        1
    } else {
        let h: u32 = n / 2 + n % 2;
        proof {
            assert(h == (n + 1) / 2);
            assert(0x8000_0000nat == pow2(31)) by {
                reveal_with_fuel(pow2, 32);
            }
            lemma_next_pow2(n as nat, 31);
            assert(next_pow2(n as nat) == 2 * next_pow2(h as nat));
        }
        let q = next_power_of_two(h);
        2 * q
    }
}

/// Capacity, in elements, a growable GPU buffer has after a frame that needs
/// `needed` of them: unchanged when it already holds them, else the next power
/// of two, and at least 64.
pub open spec fn grown_capacity_for(needed: nat, capacity: nat) -> nat {
    if needed > capacity {
        if next_pow2(needed) < 64 {
            64
        } else {
            next_pow2(needed)
        }
    } else {
        capacity
    }
}

/// The capacity of the instance (or HUD) buffer after a frame that needs
/// `needed` elements (see [`grown_capacity_for`]).
pub fn grown_capacity(needed: u32, capacity: u32) -> (r: u32)
    requires
        needed <= 0x8000_0000,
    ensures
        r == grown_capacity_for(needed as nat, capacity as nat),
        needed <= r,
{
    if needed > capacity {
        let p = next_power_of_two(needed);
        proof {
            lemma_next_pow2(needed as nat, 0);
        }
        if p < 64 {
            64
        } else {
            p
        }
    } else {
        capacity
    }
}

// ---------------------------------------------------------------------------
// Built-in albedo textures.

/// Side of the checker albedo texture, in pixels.
pub const CHECKER_SIZE: u32 = 64;

/// Byte `c` (R, G, B, A) of pixel `(x, y)` of the checker albedo: 8-pixel
/// squares alternating light (220) and dark (40) grey, opaque.
pub open spec fn checker_byte(x: int, y: int, c: int) -> u8 {
    if c == 3 {
        255
    } else if (x / 8 + y / 8) % 2 == 0 {
        220
    } else {
        40
    }
}

/// The RGBA8 pixels of the 64 x 64 checker albedo, row by row.
pub fn checker_albedo_pixels() -> (r: Vec<u8>)
    ensures
        r@.len() == 64 * 64 * 4,
        forall|x: int, y: int, c: int|
            0 <= x < 64 && 0 <= y < 64 && 0 <= c < 4 ==> #[trigger] r@[(y * 64 + x) * 4 + c]
                == checker_byte(x, y, c),
{
    let n = CHECKER_SIZE;
    assert(n == 64);
    let mut out: Vec<u8> = Vec::new();
    let mut y: u32 = 0;
    while y < n
        invariant
            n == 64,
            y <= 64,
            out@.len() == y * 256,
            forall|px: int, py: int, c: int|
                0 <= px < 64 && 0 <= py < y && 0 <= c < 4 ==> #[trigger] out@[py * 256 + px * 4 + c]
                    == checker_byte(px, py, c),
        decreases 64 - y,
    {
        let mut x: u32 = 0;
        while x < n
            invariant
                n == 64,
                y < 64,
                x <= 64,
                out@.len() == y * 256 + x * 4,
                forall|px: int, py: int, c: int|
                    0 <= px < 64 && 0 <= py < y && 0 <= c < 4 ==> #[trigger] out@[py * 256 + px * 4
                        + c] == checker_byte(px, py, c),
                forall|px: int, c: int|
                    0 <= px < x && 0 <= c < 4 ==> #[trigger] out@[y * 256 + px * 4 + c]
                        == checker_byte(px, y as int, c),
            decreases 64 - x,
        {
            let check = (x / 8 + y / 8) % 2 == 0;
            let v: u8 = if check { 220 } else { 40 };
            let ghost before = out@;
            out.push(v);
            out.push(v);
            out.push(v);
            out.push(255);
            proof {
                assert forall|px: int, py: int, c: int|
                    0 <= px < 64 && 0 <= py < y && 0 <= c < 4 implies #[trigger] out@[py * 256 + px * 4
                        + c] == checker_byte(px, py, c) by {
                    assert(out@[py * 256 + px * 4 + c] == before[py * 256 + px * 4 + c]);
                }
                assert forall|px: int, c: int|
                    0 <= px < x + 1 && 0 <= c < 4 implies #[trigger] out@[y * 256 + px * 4 + c]
                        == checker_byte(px, y as int, c) by {
                    if px < x {
                        assert(out@[y * 256 + px * 4 + c] == before[y * 256 + px * 4 + c]);
                    }
                }
            }
            x += 1;
        }
        y += 1;
    }
    proof {
        assert forall|x: int, y: int, c: int|
            0 <= x < 64 && 0 <= y < 64 && 0 <= c < 4 implies #[trigger] out@[(y * 64 + x) * 4 + c]
                == checker_byte(x, y, c) by {
            assert((y * 64 + x) * 4 + c == y * 256 + x * 4 + c);
        }
    }
    out
}

/// The RGBA8 pixels of the flat 4 x 4 albedo: `rgba` sixteen times.
pub fn solid_albedo_pixels(rgba: [u8; 4]) -> (r: Vec<u8>)
    ensures
        r@.len() == 64,
        forall|i: int| 0 <= i < 64 ==> #[trigger] r@[i] == rgba[i % 4],
{
    let mut out: Vec<u8> = Vec::new();
    let mut k: usize = 0;
    while k < 16
        invariant
            k <= 16,
            out@.len() == 4 * k,
            forall|i: int| 0 <= i < 4 * k ==> #[trigger] out@[i] == rgba[i % 4],
        decreases 16 - k,
    {
        let ghost before = out@;
        out.push(rgba[0]);
        out.push(rgba[1]);
        out.push(rgba[2]);
        out.push(rgba[3]);
        proof {
            assert forall|i: int| 0 <= i < 4 * (k + 1) implies #[trigger] out@[i] == rgba[i % 4] by {
                if i < 4 * k {
                    assert(out@[i] == before[i]);
                } else {
                    assert(i % 4 == i - 4 * k);
                }
            }
        }
        k += 1;
    }
    out
}

// ---------------------------------------------------------------------------
// Readback.

/// Row pitch a texture-to-buffer copy must use.
pub const COPY_BYTES_PER_ROW_ALIGNMENT: u32 = 256;

/// Bytes of one row of `width` RGBA8 pixels, rounded up to the copy alignment.
pub open spec fn padded_row_bytes(width: nat) -> nat {
    ((width * 4 + 255) / 256 * 256) as nat
}

/// Bytes per row of a readback buffer for a texture `width` pixels wide.
pub fn padded_bytes_per_row(width: u32) -> (r: u32)
    requires
        width * 4 + 256 <= u32::MAX,
    ensures
        r == padded_row_bytes(width as nat),
        width * 4 <= r,
        r % 256 == 0,
{
    let unpadded: u32 = width * 4;
    let align = COPY_BYTES_PER_ROW_ALIGNMENT;
    assert(align == 256);
    (unpadded + align - 1) / align * align
}

/// The first `unpadded` bytes of each of the first `rows` rows of `data`,
/// whose rows start every `padded` bytes, one after another.
pub open spec fn unpadded_rows(data: Seq<u8>, padded: int, unpadded: int, rows: nat) -> Seq<u8>
    decreases rows,
{
    if rows == 0 {
        Seq::empty()
    } else {
        let start = (rows - 1) * padded;
        unpadded_rows(data, padded, unpadded, (rows - 1) as nat) + data.subrange(start, start + unpadded)
    }
}

proof fn lemma_row_ends(padded: int, unpadded: int, row: int, height: int)
    requires
        0 <= unpadded <= padded,
        0 <= row < height,
    ensures
        0 <= row * padded,
        row * padded + unpadded <= padded * height,
{
    assert(row * padded + padded <= padded * height) by (nonlinear_arith)
        requires
            0 <= row < height,
            0 <= padded,
    ;
    assert(0 <= row * padded) by (nonlinear_arith)
        requires
            0 <= row,
            0 <= padded,
    ;
}

/// Pixels of a `height`-row readback whose rows start every `padded` bytes
/// and hold `unpadded` bytes of pixels each, packed row after row.
pub fn unpad_rows(data: &[u8], padded: u32, unpadded: u32, height: u32) -> (r: Vec<u8>)
    requires
        unpadded <= padded,
        padded * height <= data@.len(),
        padded * height <= u32::MAX,
    ensures
        r@ == unpadded_rows(data@, padded as int, unpadded as int, height as nat),
{
    let mut out: Vec<u8> = Vec::new();
    let mut row: u32 = 0;
    while row < height
        invariant
            row <= height,
            unpadded <= padded,
            padded * height <= data@.len(),
            padded * height <= u32::MAX,
            out@ == unpadded_rows(data@, padded as int, unpadded as int, row as nat),
        decreases height - row,
    {
        proof {
            lemma_row_ends(padded as int, unpadded as int, row as int, height as int);
        }
        let start: u32 = row * padded;
        let ghost before = out@;
        let mut c: u32 = 0;
        while c < unpadded
            invariant
                c <= unpadded,
                start as int + unpadded as int <= data@.len(),
                start as int + unpadded as int <= u32::MAX,
                out@ == before + data@.subrange(start as int, start + c),
            decreases unpadded - c,
        {
            out.push(data[(start + c) as usize]);
            proof {
                assert(data@.subrange(start as int, start + c + 1)
                    =~= data@.subrange(start as int, start + c).push(data@[start + c]));
            }
            c += 1;
        }
        row += 1;
        proof {
            assert(((row - 1) as int) * (padded as int) == start as int);
        }
    }
    out
}

/// `px` with the first and third byte of every whole four-byte pixel
/// exchanged (BGRA to RGBA, or back); trailing bytes of a partial pixel stay.
pub open spec fn red_blue_swapped(px: Seq<u8>) -> Seq<u8> {
    Seq::new(
        px.len(),
        |i: int|
            if i < px.len() - px.len() % 4 {
                if i % 4 == 0 {
                    px[i + 2]
                } else if i % 4 == 2 {
                    px[i - 2]
                } else {
                    px[i]
                }
            } else {
                px[i]
            },
    )
}

/// Exchange the red and blue byte of every whole pixel of `px`.
pub fn swap_red_blue(px: &mut Vec<u8>)
    ensures
        final(px)@ == red_blue_swapped(old(px)@),
{
    let ghost orig = px@;
    let n = px.len();
    let whole: usize = n - n % 4;
    let mut i: usize = 0;
    while i < whole
        invariant
            n == orig.len(),
            whole == n - n % 4,
            i % 4 == 0,
            i <= whole,
            px@.len() == n,
            forall|j: int|
                0 <= j < i ==> #[trigger] px@[j] == red_blue_swapped(orig)[j],
            forall|j: int| i <= j < n ==> #[trigger] px@[j] == orig[j],
        decreases whole - i,
    {
        let b0 = px[i];
        let b2 = px[i + 2];
        px.set(i, b2);
        px.set(i + 2, b0);
        proof {
            assert forall|j: int| 0 <= j < i + 4 implies #[trigger] px@[j] == red_blue_swapped(orig)[j] by {
                if j >= i {
                    assert(j % 4 == j - i);
                }
            }
        }
        i += 4;
    }
    proof {
        assert(px@ =~= red_blue_swapped(orig));
    }
}

} // verus!
