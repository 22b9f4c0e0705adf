use kindle_dash::radar::{
    color_distance_sq, nearest_intensity, remap_colors_to_grayscale_fuzzy, right_square_origin,
    zoom_crop_origin, RgbRaster,
};

#[test]
fn pure_and_near_green_classify_to_190() {
    assert_eq!(nearest_intensity((0, 255, 0)), 190);
    assert_eq!(nearest_intensity((1, 254, 1)), 190);
}

#[test]
fn anchor_colors_map_to_their_intensities() {
    let anchors: [((u8, u8, u8), u8); 10] = [
        ((205, 255, 255), 255),
        ((0, 0, 254), 242),
        ((129, 243, 255), 230),
        ((0, 255, 0), 190),
        ((255, 255, 75), 160),
        ((255, 218, 0), 140),
        ((255, 181, 0), 120),
        ((255, 0, 0), 80),
        ((231, 0, 129), 60),
        ((181, 0, 181), 40),
    ];
    let mut data = Vec::new();
    for (c, _) in anchors.iter() {
        data.extend_from_slice(&[c.0, c.1, c.2]);
    }
    let img = RgbRaster { width: 5, height: 2, data };
    let out = remap_colors_to_grayscale_fuzzy(&img);
    let expected: Vec<u8> = anchors.iter().map(|a| a.1).collect();
    assert_eq!(out.data, expected);
}

#[test]
fn classify_keeps_dimensions_and_is_repeatable() {
    let img = RgbRaster {
        width: 2,
        height: 3,
        data: vec![0, 0, 0, 255, 255, 255, 10, 200, 10, 250, 10, 10, 128, 128, 128, 200, 0, 190],
    };
    let a = remap_colors_to_grayscale_fuzzy(&img);
    let b = remap_colors_to_grayscale_fuzzy(&img);
    assert_eq!(a.width, 2);
    assert_eq!(a.height, 3);
    assert_eq!(a.data.len(), 6);
    assert_eq!(a, b);
    assert_eq!(a.data[2], 190);
    assert_eq!(a.data[3], 80);
}

#[test]
fn far_colors_still_get_nearest_anchor() {
    // Black is nearest to dark blue: 254^2 against 255^2 for red.
    assert_eq!(nearest_intensity((0, 0, 0)), 242);
    // White is nearest to light teal.
    assert_eq!(nearest_intensity((255, 255, 255)), 255);
}

#[test]
fn empty_raster() {
    let out = remap_colors_to_grayscale_fuzzy(&RgbRaster { width: 0, height: 7, data: vec![] });
    assert_eq!((out.width, out.height, out.data.len()), (0, 7, 0));
}

#[test]
fn color_distance_values() {
    assert_eq!(color_distance_sq((0, 0, 0), (255, 255, 255)), 195075);
    assert_eq!(color_distance_sq((1, 254, 1), (0, 255, 0)), 3);
    assert_eq!(color_distance_sq((9, 9, 9), (9, 9, 9)), 0);
}

#[test]
fn crop_origins() {
    assert_eq!(right_square_origin(800, 600), (200, 0));
    assert_eq!(right_square_origin(500, 600), (0, 0));
    assert_eq!(zoom_crop_origin(1000, 800, 670, 180, 400), (470, 0));
    assert_eq!(zoom_crop_origin(1000, 800, 990, 790, 400), (600, 400));
    assert_eq!(zoom_crop_origin(300, 300, 10, 10, 400), (0, 0));
}
