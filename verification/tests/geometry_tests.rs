use wallpaper_state::geometry::{
    centered_crop, crop_candidates_for, end_crop, start_crop, AspectRatio, Geometry,
};

#[test]
fn centered_crop_of_a_wide_image() {
    // 1920x1080 cropped to 4:3: full height, width 1440, centered
    let g = centered_crop(1920, 1080, &AspectRatio(4, 3));
    assert_eq!(g, Geometry { x: 240, y: 0, w: 1440, h: 1080 });
}

#[test]
fn centered_crop_of_a_tall_image() {
    // 1000x2000 cropped to 1:1: full width, height 1000, centered
    let g = centered_crop(1000, 2000, &AspectRatio(1, 1));
    assert_eq!(g, Geometry { x: 0, y: 500, w: 1000, h: 1000 });
}

#[test]
fn aligned_crops_of_a_wide_image() {
    let ratio = AspectRatio(1, 1);
    assert_eq!(start_crop(1920, 1080, &ratio), Geometry { x: 0, y: 0, w: 1080, h: 1080 });
    assert_eq!(end_crop(1920, 1080, &ratio), Geometry { x: 840, y: 0, w: 1080, h: 1080 });
}

#[test]
fn aligned_crops_of_a_tall_image() {
    let ratio = AspectRatio(1, 1);
    assert_eq!(start_crop(1000, 2000, &ratio), Geometry { x: 0, y: 0, w: 1000, h: 1000 });
    assert_eq!(end_crop(1000, 2000, &ratio), Geometry { x: 0, y: 1000, w: 1000, h: 1000 });
}

#[test]
fn exact_fit_needs_no_offset() {
    // the image already has the target ratio
    let g = centered_crop(1600, 900, &AspectRatio(16, 9));
    assert_eq!(g, Geometry { x: 0, y: 0, w: 1600, h: 900 });
}

#[test]
fn candidates_come_start_center_end() {
    let cands = crop_candidates_for(1920, 1080, &AspectRatio(1, 1));
    assert_eq!(
        cands,
        vec![
            Geometry { x: 0, y: 0, w: 1080, h: 1080 },
            Geometry { x: 420, y: 0, w: 1080, h: 1080 },
            Geometry { x: 840, y: 0, w: 1080, h: 1080 },
        ]
    );
}

#[test]
fn rounding_truncates_the_fitted_edge() {
    // 1080 * 1440 / 2560 = 607.5, truncated to 607
    let g = centered_crop(1920, 1080, &AspectRatio(1440, 2560));
    assert_eq!(g, Geometry { x: 656, y: 0, w: 607, h: 1080 });
}
