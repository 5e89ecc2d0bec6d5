use procmesh::pattern::rotated_rows;

fn palette() -> Vec<u8> {
    vec![
        255, 102, 159, 255, 255, 159, 102, 255, 236, 255, 102, 255, 121, 255, 102, 255, 102, 255,
        198, 255, 102, 198, 255, 255, 121, 102, 255, 255, 236, 102, 255, 255,
    ]
}

#[test]
fn eight_rows_of_the_debug_palette() {
    let pal = palette();
    let data = rotated_rows(&pal, 8, 4);
    assert_eq!(data.len(), 8 * 32);
    // row 0 is the palette itself
    assert_eq!(&data[0..32], &pal[..]);
    // each later row is the previous one rotated right by four bytes
    for r in 1..8 {
        for j in 0..32 {
            assert_eq!(data[r * 32 + j], data[(r - 1) * 32 + (j + 32 - 4) % 32]);
        }
    }
    // spot value: the first byte of row 1 comes four bytes from the end
    assert_eq!(data[32], pal[28]);
    assert_eq!(data[32], 236);
}

#[test]
fn rotation_wraps_past_a_full_cycle() {
    let pal: Vec<u8> = (0..5).collect();
    let data = rotated_rows(&pal, 7, 2);
    assert_eq!(data.len(), 35);
    for r in 0..7 {
        for j in 0..5 {
            let src = ((j as i64 - 2 * r as i64).rem_euclid(5)) as usize;
            assert_eq!(data[r * 5 + j], pal[src]);
        }
    }
}

#[test]
fn zero_step_repeats_the_palette() {
    let pal: Vec<u8> = vec![9, 8, 7];
    let data = rotated_rows(&pal, 3, 0);
    assert_eq!(data, vec![9, 8, 7, 9, 8, 7, 9, 8, 7]);
}
