use raytracer::schedule::{
    concat_bands, identity_order, pixel_coords, place_pixels, row_span, shuffled_pixel_order,
    worker_pixels,
};

#[test]
fn row_span_splits_evenly_and_last_takes_rest() {
    assert_eq!(row_span(500, 8, 0), (0, 62));
    assert_eq!(row_span(500, 8, 3), (186, 248));
    assert_eq!(row_span(500, 8, 7), (434, 500));
}

#[test]
fn row_spans_tile_the_frame() {
    let height = 37;
    let total = 5;
    let mut next = 0;
    for k in 0..total {
        let (b, e) = row_span(height, total, k);
        assert_eq!(b, next);
        assert!(b <= e);
        next = e;
    }
    assert_eq!(next, height);
}

#[test]
fn row_span_more_workers_than_rows() {
    assert_eq!(row_span(3, 8, 0), (0, 0));
    assert_eq!(row_span(3, 8, 7), (0, 3));
}

#[test]
fn pixel_coords_is_column_then_row() {
    assert_eq!(pixel_coords(7, 3), (1, 2));
    assert_eq!(pixel_coords(0, 5), (0, 0));
    assert_eq!(pixel_coords(4, 5), (4, 0));
}

#[test]
fn identity_order_counts_up() {
    assert_eq!(identity_order(4), vec![0, 1, 2, 3]);
    assert!(identity_order(0).is_empty());
}

#[test]
fn shuffled_order_is_a_permutation() {
    let order = shuffled_pixel_order(20, 10);
    assert_eq!(order.len(), 200);
    let mut sorted = order.clone();
    sorted.sort();
    assert_eq!(sorted, (0..200).collect::<Vec<usize>>());
}

#[test]
fn shuffled_order_is_not_left_in_place() {
    let order = shuffled_pixel_order(30, 30);
    assert_ne!(order, (0..900).collect::<Vec<usize>>());
}

#[test]
fn shuffled_order_of_empty_frame() {
    assert!(shuffled_pixel_order(0, 10).is_empty());
}

#[test]
fn worker_pixels_follow_the_order() {
    let order = vec![5, 0, 3, 1, 4, 2];
    assert_eq!(worker_pixels(&order, 3, 1, 2), vec![(1, 0), (1, 1), (2, 0)]);
    assert_eq!(worker_pixels(&order, 3, 0, 1), vec![(2, 1), (0, 0), (0, 1)]);
    assert!(worker_pixels(&order, 3, 1, 1).is_empty());
}

#[test]
fn place_pixels_inverts_the_order() {
    let order = vec![2, 0, 3, 1];
    let computed = vec![[20, 0, 0], [0, 0, 0], [30, 0, 0], [10, 0, 0]];
    let image = place_pixels(&order, &computed);
    assert_eq!(image, vec![[0, 0, 0], [10, 0, 0], [20, 0, 0], [30, 0, 0]]);
}

#[test]
fn concat_bands_keeps_worker_order() {
    let parts = vec![vec![[1, 1, 1]], vec![], vec![[2, 2, 2], [3, 3, 3]]];
    assert_eq!(concat_bands(parts), vec![[1, 1, 1], [2, 2, 2], [3, 3, 3]]);
    assert!(concat_bands(Vec::new()).is_empty());
}

#[test]
fn full_frame_round_trip() {
    let (w, h, total) = (7usize, 5usize, 3usize);
    let order = shuffled_pixel_order(w, h);
    let mut parts = Vec::new();
    for k in 0..total {
        let (b, e) = row_span(h, total, k);
        let band: Vec<[u8; 3]> = worker_pixels(&order, w, b, e)
            .into_iter()
            .map(|(x, y)| [x as u8, y as u8, 9])
            .collect();
        parts.push(band);
    }
    let image = place_pixels(&order, &concat_bands(parts));
    for y in 0..h {
        for x in 0..w {
            assert_eq!(image[y * w + x], [x as u8, y as u8, 9]);
        }
    }
}
