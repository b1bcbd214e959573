use adwapach::model::{Fitting, Wallpaper};
use adwapach::thumbnail::{
    crop_square, make_thumbnail, Thumbnail, ThumbnailCache, PLACEHOLDER_SIDE, THUMBNAIL_BOUND,
};

fn png_bytes(width: u32, height: u32, pixel: [u8; 4]) -> Vec<u8> {
    let img = image::RgbaImage::from_pixel(width, height, image::Rgba(pixel));
    let mut bytes: Vec<u8> = Vec::new();
    image::DynamicImage::ImageRgba8(img)
        .write_to(&mut std::io::Cursor::new(&mut bytes), image::ImageFormat::Png)
        .unwrap();
    bytes
}

fn tiny_thumb(original_w: u32, original_h: u32) -> Thumbnail {
    Thumbnail::new(vec![0u8; 4], 1, original_w, original_h)
}

#[test]
fn crop_square_takes_centered_square() {
    // A 4x2 image: the largest centered square has side 2 and starts at
    // column (4 - 2) / 2 = 1.
    let mut px: Vec<u8> = Vec::new();
    for p in 0..8u8 {
        px.extend_from_slice(&[p, p, p, p]);
    }
    let (out, side) = crop_square(&px, 4, 2);
    assert_eq!(side, 2);
    let expected: Vec<u8> = [1u8, 2, 5, 6]
        .iter()
        .flat_map(|&p| [p, p, p, p])
        .collect();
    assert_eq!(out, expected);
}

#[test]
fn crop_square_wide_single_row() {
    // 2x1: side 1, offset 0, so the crop is the first pixel.
    let px = vec![1u8, 2, 3, 4, 5, 6, 7, 8];
    let (out, side) = crop_square(&px, 2, 1);
    assert_eq!(side, 1);
    assert_eq!(out, vec![1u8, 2, 3, 4]);
}

#[test]
fn crop_square_of_square_is_identity() {
    let px: Vec<u8> = (0u8..16).collect();
    let (out, side) = crop_square(&px, 2, 2);
    assert_eq!(side, 2);
    assert_eq!(out, px);
}

#[test]
fn make_thumbnail_records_original_size_and_is_square() {
    let data = png_bytes(300, 200, [10, 20, 30, 255]);
    let t = make_thumbnail(&data);
    assert_eq!(t.original_size(), (300, 200));
    // Scaled to fit 512x512 preserving 3:2, then center-cropped square.
    assert!(t.side() >= 1 && t.side() <= THUMBNAIL_BOUND);
    assert_eq!(t.side(), 341);
    assert_eq!(t.pixels().len(), (4 * t.side() * t.side()) as usize);
}

#[test]
fn make_thumbnail_small_image_is_scaled_up() {
    let data = png_bytes(2, 2, [1, 2, 3, 255]);
    let t = make_thumbnail(&data);
    assert_eq!(t.original_size(), (2, 2));
    assert_eq!(t.side(), THUMBNAIL_BOUND);
    assert_eq!(t.pixels().len(), (4 * t.side() * t.side()) as usize);
}

#[test]
fn make_thumbnail_of_garbage_is_placeholder() {
    let data = vec![0xDEu8, 0xAD, 0xBE, 0xEF, 0x00, 0x01, 0x02];
    let t = make_thumbnail(&data);
    assert_eq!(t.original_size(), (0, 0));
    assert_eq!(t.side(), PLACEHOLDER_SIDE);
    assert_eq!(t.pixels().len(), (4 * PLACEHOLDER_SIDE * PLACEHOLDER_SIDE) as usize);
    assert!(t.pixels().iter().all(|&b| b == 0));
}

#[test]
fn collect_unmet_lists_uncached_wallpapers() {
    let a = Wallpaper::new("a.png".to_string(), Fitting::Cover);
    let b = Wallpaper::new("b.png".to_string(), Fitting::Cover);
    let mut cache = ThumbnailCache::new();
    let only_a = vec![a.clone()];
    cache.complete_pass(&only_a, vec![(a.id(), tiny_thumb(8, 8))]);

    let wallpapers = vec![a.clone(), b.clone()];
    let unmet = cache.collect_unmet(&wallpapers);
    assert_eq!(unmet, vec![1]);
}

#[test]
fn reconciliation_pass_keys_cache_by_live_ids() {
    // The cache holds a thumbnail for a wallpaper that is gone; the live
    // list has one cached and one new entry. After the pass the key set
    // is exactly the live id set: no stale keys, no missing ones.
    let stale = Wallpaper::new("old.png".to_string(), Fitting::Cover);
    let a = Wallpaper::new("a.png".to_string(), Fitting::Cover);
    let b = Wallpaper::new("b.png".to_string(), Fitting::Cover);

    let mut cache = ThumbnailCache::new();
    let old_list = vec![stale.clone(), a.clone()];
    cache.complete_pass(
        &old_list,
        vec![(stale.id(), tiny_thumb(1, 1)), (a.id(), tiny_thumb(2, 2))],
    );
    assert_eq!(cache.len(), 2);

    let live = vec![a.clone(), b.clone()];
    let unmet = cache.collect_unmet(&live);
    assert_eq!(unmet, vec![1]);
    let loaded: Vec<(u128, Thumbnail)> =
        unmet.iter().map(|&j| (live[j].id(), tiny_thumb(3, 3))).collect();
    cache.complete_pass(&live, loaded);

    assert_eq!(cache.len(), 2);
    assert!(cache.contains(a.id()));
    assert!(cache.contains(b.id()));
    assert!(!cache.contains(stale.id()));
    // The entry that was already cached is untouched.
    assert_eq!(cache.get(a.id()).unwrap().original_size(), (2, 2));
    assert_eq!(cache.get(b.id()).unwrap().original_size(), (3, 3));
}

#[test]
fn later_loaded_entry_wins() {
    let a = Wallpaper::new("a.png".to_string(), Fitting::Cover);
    let live = vec![a.clone()];
    let mut cache = ThumbnailCache::new();
    cache.complete_pass(
        &live,
        vec![(a.id(), tiny_thumb(1, 1)), (a.id(), tiny_thumb(9, 9))],
    );
    assert_eq!(cache.len(), 1);
    assert_eq!(cache.get(a.id()).unwrap().original_size(), (9, 9));
}

#[test]
fn empty_pass_empties_cache() {
    let a = Wallpaper::new("a.png".to_string(), Fitting::Cover);
    let mut cache = ThumbnailCache::new();
    cache.complete_pass(&vec![a.clone()], vec![(a.id(), tiny_thumb(1, 1))]);
    assert_eq!(cache.len(), 1);
    cache.complete_pass(&Vec::new(), Vec::new());
    assert_eq!(cache.len(), 0);
    assert!(!cache.contains(a.id()));
}
