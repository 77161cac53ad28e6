use glam::{DAffine2, DVec2};
use raster_nodes::fingerprint::fingerprint;
use raster_nodes::frame::image_frame;
use raster_nodes::image::Image;
use raster_nodes::imaginate::{cache_key, ImaginateCache};
use raster_nodes::pixel::{Luma, Rgba};
use std::hash::Hasher;

fn bytes(width: u32, height: u32, data: &[u8]) -> Image<u8> {
    Image { width, height, data: data.to_vec() }
}

fn fx(words: &[u64]) -> u64 {
    let mut hasher = rustc_hash::FxHasher::default();
    for word in words {
        hasher.write_u64(*word);
    }
    hasher.finish()
}

#[test]
fn fingerprint_hashes_size_and_pixels() {
    assert_eq!(fingerprint(&7u8), fx(&[7]));
    assert_ne!(fingerprint(&7u8), 7);
    assert_eq!(fingerprint(&70000u32), fx(&[70000]));
    assert_eq!(fingerprint(&bytes(2, 1, &[5, 6])), fx(&[2, 1, 5, 6]));
    assert_eq!(fingerprint(&Rgba { red: 1u8, green: 2, blue: 3, alpha: 4 }), fx(&[1, 2, 3, 4]));
    assert_eq!(fingerprint(&Luma { l: 9u32 }), fx(&[9]));
}

/// The hash as a number, for pointers of 64 bits.
fn fed(state: u64, number: u64) -> u64 {
    (state.rotate_left(5) ^ number).wrapping_mul(0x517c_c1b7_2722_0a95)
}

#[test]
fn fingerprint_turns_mixes_and_multiplies() {
    if usize::BITS == 64 {
        assert_eq!(fingerprint(&1u8), 0x517c_c1b7_2722_0a95);
        assert_eq!(fingerprint(&bytes(2, 1, &[5])), fed(fed(fed(0, 2), 1), 5));
    }
    assert_eq!(fingerprint(&bytes(0, 0, &[])), 0);
}

#[test]
fn key_ignores_the_place() {
    let here = image_frame(bytes(2, 1, &[5, 6]), DAffine2::IDENTITY);
    let there = image_frame(bytes(2, 1, &[5, 6]), DAffine2::from_scale(DVec2::splat(3.)));
    assert_eq!(cache_key(&here), cache_key(&there));
    let tall = image_frame(bytes(1, 2, &[5, 6]), DAffine2::IDENTITY);
    assert_ne!(cache_key(&here), cache_key(&tall));
    let other = image_frame(bytes(2, 1, &[5, 7]), DAffine2::IDENTITY);
    assert_ne!(cache_key(&here), cache_key(&other));
}

#[test]
fn nothing_generated_shows_nothing() {
    let mut cache: ImaginateCache<u8> = ImaginateCache::new();
    let place = DAffine2::from_scale(DVec2::splat(2.));
    let shown = cache.resolve(5, place, None);
    assert_eq!(shown.image, Image::default());
    assert_eq!(shown.transform, place);
}

#[test]
fn generated_image_is_shown_again() {
    let mut cache = ImaginateCache::new();
    let place = DAffine2::IDENTITY;
    let image = bytes(1, 2, &[8, 9]);
    let shown = cache.resolve(5, place, Some(image.clone()));
    assert_eq!(shown.image, image);
    assert_eq!(cache.resolve(5, place, None).image, image);
    assert_eq!(cache.resolve(6, place, None).image, Image::default());
}

#[test]
fn later_image_is_shown() {
    let mut cache = ImaginateCache::new();
    let place = DAffine2::IDENTITY;
    cache.resolve(1, place, Some(bytes(1, 1, &[1])));
    cache.resolve(2, place, Some(bytes(1, 1, &[2])));
    cache.resolve(1, place, Some(bytes(1, 1, &[3])));
    assert_eq!(cache.resolve(1, place, None).image, bytes(1, 1, &[3]));
    assert_eq!(cache.resolve(2, place, None).image, bytes(1, 1, &[2]));
}
