use wallpaper_state::geometry::{AspectRatio, Geometry};
use wallpaper_state::store::{filename, WallpapersCsv};
use wallpaper_state::wallinfo::WallInfo;

fn record(name: &str, w: u32, h: u32) -> WallInfo {
    WallInfo { filename: name.to_string(), width: w, height: h, geometries: Vec::new() }
}

#[test]
fn filename_takes_the_part_after_the_last_slash() {
    assert_eq!(filename("/walls/sub/c.jpg"), "c.jpg");
    assert_eq!(filename("walls/c.jpg"), "c.jpg");
    assert_eq!(filename("c.jpg"), "c.jpg");
    assert_eq!(filename("walls/"), "");
    assert_eq!(filename(""), "");
}

#[test]
fn get_finds_a_record_by_name() {
    let mut csv = WallpapersCsv::new();
    csv.insert(record("a.jpg", 1920, 1080));
    csv.insert(record("b.jpg", 1600, 900));
    let found = csv.get("b.jpg").expect("b.jpg is in the store");
    assert_eq!(found.filename, "b.jpg");
    assert_eq!(found.width, 1600);
    assert!(csv.get("missing.jpg").is_none());
}

#[test]
fn get_returns_the_earliest_record_for_a_name() {
    let mut csv = WallpapersCsv::new();
    csv.insert(record("a.jpg", 1920, 1080));
    csv.insert(record("a.jpg", 640, 480));
    let found = csv.get("a.jpg").unwrap();
    assert_eq!(found.width, 1920);
}

#[test]
fn record_lookup_falls_back_to_the_centered_crop() {
    let info = record("a.jpg", 1920, 1080);
    let g = info.get_geometry(&AspectRatio(4, 3));
    assert_eq!(g, Geometry { x: 240, y: 0, w: 1440, h: 1080 });
}

#[test]
fn record_set_geometry_is_read_back() {
    let mut info = record("a.jpg", 1920, 1080);
    let g = Geometry { x: 7, y: 8, w: 90, h: 100 };
    info.set_geometry(&AspectRatio(16, 9), &g);
    assert_eq!(info.get_geometry(&AspectRatio(16, 9)), g);
    // an unrelated ratio still falls back to its own centered crop
    assert_eq!(
        info.get_geometry(&AspectRatio(4, 3)),
        Geometry { x: 240, y: 0, w: 1440, h: 1080 }
    );
}

#[test]
fn record_set_geometry_replaces_the_saved_entry() {
    let mut info = record("a.jpg", 1920, 1080);
    let first = Geometry { x: 1, y: 1, w: 10, h: 10 };
    let second = Geometry { x: 2, y: 2, w: 20, h: 20 };
    info.set_geometry(&AspectRatio(16, 9), &first);
    info.set_geometry(&AspectRatio(16, 9), &second);
    assert_eq!(info.geometries.len(), 1);
    assert_eq!(info.get_geometry(&AspectRatio(16, 9)), second);
}

#[test]
fn record_keeps_one_entry_per_ratio() {
    let mut info = record("a.jpg", 1920, 1080);
    let wide = Geometry { x: 0, y: 0, w: 1920, h: 1080 };
    let square = Geometry { x: 420, y: 0, w: 1080, h: 1080 };
    info.set_geometry(&AspectRatio(16, 9), &wide);
    info.set_geometry(&AspectRatio(1, 1), &square);
    assert_eq!(info.geometries.len(), 2);
    assert_eq!(info.get_geometry(&AspectRatio(16, 9)), wide);
    assert_eq!(info.get_geometry(&AspectRatio(1, 1)), square);
}

#[test]
fn clone_carries_the_whole_record() {
    let mut info = record("a.jpg", 1920, 1080);
    info.set_geometry(&AspectRatio(16, 9), &Geometry { x: 0, y: 0, w: 1920, h: 1080 });
    let copy = info.clone();
    assert_eq!(copy, info);
}

#[test]
fn default_record_is_empty() {
    let info = WallInfo::default();
    assert_eq!(info.filename, "");
    assert_eq!(info.width, 0);
    assert_eq!(info.height, 0);
    assert!(info.geometries.is_empty());
}
