use raytracer::texture::ImageTexture;

fn two_by_two() -> ImageTexture {
    // top row: red, green; bottom row: blue, white
    let px = vec![[255, 0, 0], [0, 255, 0], [0, 0, 255], [255, 255, 255]];
    ImageTexture::from_pixels(px, 2, 2).unwrap()
}

#[test]
fn from_pixels_stores_rows_bottom_up() {
    let t = two_by_two();
    assert_eq!(t.width, 2);
    assert_eq!(t.height, 2);
    assert_eq!(t.bytes_per_scanline, 2);
    assert_eq!(t.data, vec![[0, 0, 255], [255, 255, 255], [255, 0, 0], [0, 255, 0]]);
}

#[test]
fn from_pixels_rejects_wrong_count() {
    let px = vec![[0, 0, 0]; 3];
    assert!(ImageTexture::from_pixels(px, 2, 2).is_none());
}

#[test]
fn from_pixels_rejects_width_past_scanline_range() {
    assert!(ImageTexture::from_pixels(Vec::new(), 2_147_483_648, 0).is_none());
}

#[test]
fn texel_reads_row_from_bottom() {
    let t = two_by_two();
    assert_eq!(t.texel(0, 0), Some([0, 0, 255]));
    assert_eq!(t.texel(1, 1), Some([0, 255, 0]));
}

#[test]
fn texel_clamps_out_of_range_coordinates() {
    let t = two_by_two();
    assert_eq!(t.texel(5, 9), Some([0, 255, 0]));
    assert_eq!(t.texel(-3, -1), Some([0, 0, 255]));
    assert_eq!(t.texel(2, 0), Some([255, 255, 255]));
}

#[test]
fn texel_of_empty_texture_is_none() {
    assert_eq!(ImageTexture::empty().texel(0, 0), None);
    let t = ImageTexture::from_pixels(Vec::new(), 0, 4).unwrap();
    assert_eq!(t.texel(1, 1), None);
}
