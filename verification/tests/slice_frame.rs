use shiloh::slice_frame::{
    checker_albedo_pixels, grown_capacity, next_power_of_two, padded_bytes_per_row,
    solid_albedo_pixels, swap_red_blue, unpad_rows, DrawRange, FrameInstances, InstanceBatch,
};

fn frame(sizes: [usize; 11]) -> FrameInstances<u32> {
    // Instance values name their batch (hundreds) and position (units).
    let list = |b: usize| (0..sizes[b]).map(|i| (b * 100 + i) as u32).collect::<Vec<u32>>();
    FrameInstances {
        cube: list(0),
        sphere: list(1),
        extra: list(2),
        foliage: list(3),
        rock: list(4),
        mountain: list(5),
        ground: list(6),
        prop0: list(7),
        prop1: list(8),
        prop2: list(9),
        prop3: list(10),
    }
}

#[test]
fn pack_concatenates_in_buffer_order() {
    let f = frame([2, 1, 0, 1, 0, 0, 0, 0, 1, 0, 0]);
    assert_eq!(f.pack(), vec![0, 1, 100, 300, 800]);
}

#[test]
fn draw_ranges_follow_draw_order() {
    let f = frame([2, 1, 0, 0, 3, 0, 0, 1, 0, 0, 0]);
    let r = f.draw_ranges();
    let batches: Vec<InstanceBatch> = r.iter().map(|d| d.batch).collect();
    assert_eq!(
        batches,
        vec![
            InstanceBatch::Cube,
            InstanceBatch::Sphere,
            InstanceBatch::Extra,
            InstanceBatch::Ground,
            InstanceBatch::Mountain,
            InstanceBatch::Rock,
            InstanceBatch::Foliage,
            InstanceBatch::Prop0,
            InstanceBatch::Prop1,
            InstanceBatch::Prop2,
            InstanceBatch::Prop3,
        ]
    );
    assert_eq!(r[1], DrawRange { batch: InstanceBatch::Sphere, offset: 2 * 64, count: 1 });
    assert_eq!(r[5], DrawRange { batch: InstanceBatch::Rock, offset: 3 * 64, count: 3 });
    assert_eq!(r[7], DrawRange { batch: InstanceBatch::Prop0, offset: 6 * 64, count: 1 });
    // With one scenery batch in use, each draw reads its own instances.
    let packed = f.pack();
    let rock = &r[5];
    let start = (rock.offset / 64) as usize;
    assert_eq!(&packed[start..start + rock.count as usize], &f.rock[..]);
}

#[test]
fn draw_offsets_differ_from_packing_with_two_scenery_batches() {
    // One foliage and one ground instance: the ground draw reads the slot
    // the foliage instance was packed into.
    let f = frame([0, 0, 0, 1, 0, 0, 1, 0, 0, 0, 0]);
    let packed = f.pack();
    assert_eq!(packed, vec![300, 600]);
    let r = f.draw_ranges();
    assert_eq!(r[3], DrawRange { batch: InstanceBatch::Ground, offset: 0, count: 1 });
    assert_eq!(r[6], DrawRange { batch: InstanceBatch::Foliage, offset: 64, count: 1 });
    assert_eq!(packed[0], 300);
}

#[test]
fn capacity_grows_to_powers_of_two() {
    assert_eq!(next_power_of_two(0), 1);
    assert_eq!(next_power_of_two(1), 1);
    assert_eq!(next_power_of_two(5), 8);
    assert_eq!(next_power_of_two(64), 64);
    assert_eq!(next_power_of_two(0x8000_0000), 0x8000_0000);
    assert_eq!(grown_capacity(10, 0), 64);
    assert_eq!(grown_capacity(100, 64), 128);
    assert_eq!(grown_capacity(100, 512), 512);
    assert_eq!(grown_capacity(512, 512), 512);
    assert_eq!(grown_capacity(513, 512), 1024);
}

#[test]
fn readback_rows_are_unpadded() {
    assert_eq!(padded_bytes_per_row(64), 256);
    assert_eq!(padded_bytes_per_row(65), 512);
    assert_eq!(padded_bytes_per_row(0), 0);
    let data: Vec<u8> = (0..12u8).collect();
    // Two rows with a 6-byte pitch holding 4 bytes each.
    assert_eq!(unpad_rows(&data, 6, 4, 2), vec![0, 1, 2, 3, 6, 7, 8, 9]);
    assert_eq!(unpad_rows(&data, 6, 0, 2), Vec::<u8>::new());
}

#[test]
fn bgra_pixels_become_rgba() {
    let mut px = vec![1, 2, 3, 4, 5, 6, 7, 8, 9, 10];
    swap_red_blue(&mut px);
    assert_eq!(px, vec![3, 2, 1, 4, 7, 6, 5, 8, 9, 10]);
}

#[test]
fn checker_albedo_alternates_eight_pixel_squares() {
    let px = checker_albedo_pixels();
    assert_eq!(px.len(), 64 * 64 * 4);
    let at = |x: usize, y: usize| &px[(y * 64 + x) * 4..(y * 64 + x) * 4 + 4];
    assert_eq!(at(0, 0), &[220, 220, 220, 255]);
    assert_eq!(at(7, 7), &[220, 220, 220, 255]);
    assert_eq!(at(8, 0), &[40, 40, 40, 255]);
    assert_eq!(at(0, 8), &[40, 40, 40, 255]);
    assert_eq!(at(8, 8), &[220, 220, 220, 255]);
    assert_eq!(at(63, 63), &[220, 220, 220, 255]);
}

#[test]
fn solid_albedo_repeats_colour() {
    let px = solid_albedo_pixels([235, 235, 235, 255]);
    assert_eq!(px.len(), 64);
    assert!(px.chunks(4).all(|p| p == [235, 235, 235, 255]));
}
