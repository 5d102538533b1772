use image::imageops::FilterType;
use image::{ColorType, DynamicImage, RgbImage};
use repost_detector::cache::RecencyCache;
use repost_detector::images::{
    find_similar_or_record, get_similar_image_posted_recently, match_percentage, passes,
};
use repost_detector::limits::{DEFAULT_MOSAIC_SIZE, DEFAULT_SIMILARITY_THRESHOLD, MAX_RECENT_IMAGES};
use repost_detector::mosaic::{make_mosaic, Mosaic};
use repost_detector::raster::Raster;

fn solid_raster(width: u32, height: u32, colour: [u8; 3]) -> Raster {
    let mut data = vec![];
    for _ in 0..width * height {
        data.extend_from_slice(&colour);
    }
    Raster::new(width, height, data).unwrap()
}

fn solid_mosaic(side: u32, colour: [u8; 3]) -> Mosaic {
    let mut data = vec![];
    for _ in 0..side * side {
        data.extend_from_slice(&colour);
    }
    Mosaic::new(side, data).unwrap()
}

fn noise(width: u32, height: u32, seed: u32) -> Vec<u8> {
    let mut data = vec![];
    let mut state = seed;
    for _ in 0..3 * width * height {
        state = state.wrapping_mul(1_664_525).wrapping_add(1_013_904_223);
        data.push((state >> 24) as u8);
    }
    data
}

fn sides(cache: &RecencyCache<Mosaic>) -> Vec<u32> {
    (0..cache.len()).map(|i| cache.get(i).side()).collect()
}

const RED: [u8; 3] = [255, 0, 0];
const BLUE: [u8; 3] = [0, 0, 255];

#[test]
fn an_identical_image_is_a_full_match() {
    let mut recents = RecencyCache::new(MAX_RECENT_IMAGES);
    recents.push_front(solid_mosaic(9, RED));
    let score = get_similar_image_posted_recently(
        solid_raster(9, 9, RED),
        &mut recents,
        DEFAULT_SIMILARITY_THRESHOLD,
        DEFAULT_MOSAIC_SIZE,
    );
    assert_eq!(score, 1_000_000);
    assert_eq!(recents.len(), 1);
    assert_eq!(match_percentage(score), "100.00");
}

#[test]
fn a_different_image_is_no_match_and_is_recorded() {
    let mut recents = RecencyCache::new(MAX_RECENT_IMAGES);
    recents.push_front(solid_mosaic(9, RED));
    let score = get_similar_image_posted_recently(solid_raster(9, 9, BLUE), &mut recents, 95, 9);
    assert_eq!(score, 0);
    assert_eq!(recents.len(), 2);
    assert_eq!(recents.get(0).data(), solid_mosaic(9, BLUE).data());
    assert_eq!(recents.get(1).data(), solid_mosaic(9, RED).data());
}

#[test]
fn the_first_image_is_recorded_and_found_again() {
    let mut recents = RecencyCache::new(50);
    let data = noise(64, 48, 7);
    let first = Raster::new(64, 48, data.clone()).unwrap();
    let again = Raster::new(64, 48, data).unwrap();
    assert_eq!(get_similar_image_posted_recently(first, &mut recents, 95, 9), 0);
    assert_eq!(recents.len(), 1);
    assert_eq!(
        get_similar_image_posted_recently(again, &mut recents, 95, 9),
        1_000_000
    );
    assert_eq!(recents.len(), 1);
}

#[test]
fn every_cached_mosaic_is_looked_at() {
    let mut recents = RecencyCache::new(50);
    recents.push_front(solid_mosaic(9, RED));
    recents.push_front(solid_mosaic(9, BLUE));
    recents.push_front(solid_mosaic(9, [0, 255, 0]));
    let score = find_similar_or_record(solid_mosaic(9, RED), &mut recents, 95);
    assert_eq!(score, 1_000_000);
    assert_eq!(recents.len(), 3);
}

#[test]
fn the_newest_match_gives_the_score() {
    let mut recents = RecencyCache::new(50);
    recents.push_front(solid_mosaic(2, [10, 10, 10]));
    recents.push_front(solid_mosaic(2, [13, 13, 13]));
    let score = find_similar_or_record(solid_mosaic(2, [10, 10, 10]), &mut recents, 95);
    assert_eq!(score, 988_236);
    let score = find_similar_or_record(solid_mosaic(2, [10, 10, 10]), &mut recents, 99);
    assert_eq!(score, 1_000_000);
    assert_eq!(recents.len(), 2);
}

#[test]
fn a_score_must_exceed_the_threshold() {
    assert!(passes(950_001, 95));
    assert!(!passes(950_000, 95));
    assert!(!passes(949_999, 95));
    assert!(passes(1_000_000, 99));
    assert!(!passes(990_000, 99));
    assert!(passes(1, 0));
    assert!(!passes(0, 0));
    assert!(!passes(1_000_000, 100));
    assert!(!passes(u32::MAX, u32::MAX));

    let mut recents = RecencyCache::new(50);
    recents.push_front(Mosaic::new(2, vec![0; 12]).unwrap());
    // scores 949 984 against the cached mosaic
    let below = Mosaic::new(2, [2u8, 22, 0].repeat(4)).unwrap();
    assert_eq!(find_similar_or_record(below, &mut recents, 95), 0);
    assert_eq!(recents.len(), 2);
    let again = Mosaic::new(2, [2u8, 22, 0].repeat(4)).unwrap();
    let mut recents = RecencyCache::new(50);
    recents.push_front(Mosaic::new(2, vec![0; 12]).unwrap());
    assert_eq!(find_similar_or_record(again, &mut recents, 94), 949_984);
    assert_eq!(recents.len(), 1);
}

#[test]
fn mosaics_of_another_size_are_passed_over() {
    let mut recents = RecencyCache::new(50);
    assert_eq!(
        get_similar_image_posted_recently(solid_raster(30, 30, RED), &mut recents, 95, 9),
        0
    );
    assert_eq!(
        get_similar_image_posted_recently(solid_raster(30, 30, RED), &mut recents, 95, 10),
        0
    );
    assert_eq!(sides(&recents), vec![10, 9]);
    assert_eq!(
        get_similar_image_posted_recently(solid_raster(30, 30, RED), &mut recents, 95, 9),
        1_000_000
    );
    assert_eq!(sides(&recents), vec![10, 9]);
}

#[test]
fn the_image_cache_drops_the_oldest_mosaic() {
    let mut recents = RecencyCache::new(MAX_RECENT_IMAGES);
    for step in 0..51u32 {
        let grey = (step * 5) as u8;
        let score = find_similar_or_record(solid_mosaic(2, [grey, 0, 255 - grey]), &mut recents, 99);
        assert_eq!(score, 0);
    }
    assert_eq!(recents.len(), 50);
    assert_eq!(recents.get(49).data(), solid_mosaic(2, [5, 0, 250]).data());
    assert_eq!(
        find_similar_or_record(solid_mosaic(2, [0, 0, 255]), &mut recents, 99),
        0
    );
}

#[test]
fn the_same_image_gives_the_same_mosaic() {
    let data = noise(40, 25, 3);
    for size in 2..=12 {
        let one = make_mosaic(Raster::new(40, 25, data.clone()).unwrap(), size);
        let two = make_mosaic(Raster::new(40, 25, data.clone()).unwrap(), size);
        assert_eq!(one.side(), size);
        assert_eq!(one.data().len() as u32, 3 * size * size);
        assert_eq!(one.data(), two.data());
    }
}

#[test]
fn the_mosaic_is_the_image_resampled_with_the_gaussian_filter() {
    let data = noise(33, 17, 11);
    let mosaic = make_mosaic(Raster::new(33, 17, data.clone()).unwrap(), 9);
    let source = DynamicImage::ImageRgb8(RgbImage::from_raw(33, 17, data.clone()).unwrap());
    let expected = source.resize_exact(9, 9, FilterType::Gaussian).to_rgb8().into_raw();
    assert_eq!(mosaic.data(), &expected);
    assert_ne!(mosaic.data(), &data);
}

#[test]
fn the_mosaic_of_a_plain_image_is_plain() {
    let mosaic = make_mosaic(solid_raster(100, 37, [12, 200, 99]), 12);
    assert_eq!(mosaic.data(), solid_mosaic(12, [12, 200, 99]).data());
}

#[test]
fn small_and_narrow_images_are_stretched() {
    let tiny = make_mosaic(solid_raster(1, 1, RED), 9);
    assert_eq!(tiny.data(), solid_mosaic(9, RED).data());
    let narrow = make_mosaic(solid_raster(1, 500, BLUE), 4);
    assert_eq!(narrow.data(), solid_mosaic(4, BLUE).data());

    let mut data = vec![];
    for _ in 0..10 {
        for x in 0..200 {
            let value = if x < 100 { 0 } else { 255 };
            data.extend_from_slice(&[value, value, value]);
        }
    }
    let halves = make_mosaic(Raster::new(200, 10, data).unwrap(), 2);
    assert_eq!(halves.side(), 2);
    let pixels = halves.data();
    assert!(pixels[0] < 64 && pixels[3] > 192);
    assert!(pixels[6] < 64 && pixels[9] > 192);
}

#[test]
fn a_raster_needs_pixels_and_three_bytes_for_each() {
    assert!(Raster::new(1, 1, vec![0; 3]).is_some());
    assert!(Raster::new(0, 1, vec![]).is_none());
    assert!(Raster::new(1, 0, vec![]).is_none());
    assert!(Raster::new(0, 0, vec![]).is_none());
    assert!(Raster::new(2, 2, vec![0; 11]).is_none());
    assert!(Raster::new(2, 2, vec![0; 13]).is_none());
    assert!(Raster::new(u32::MAX, u32::MAX, vec![0; 3]).is_none());
    let raster = Raster::new(3, 2, (0..18).collect()).unwrap();
    assert_eq!(raster.width(), 3);
    assert_eq!(raster.height(), 2);
    assert_eq!(raster.data(), &(0..18).collect::<Vec<u8>>());
    assert_eq!(raster.into_parts(), (3, 2, (0..18).collect()));
}

#[test]
fn a_decoded_image_is_found_again() {
    let data = noise(20, 20, 5);
    let mut bytes = vec![];
    image::codecs::png::PngEncoder::new(&mut bytes)
        .encode(&data, 20, 20, ColorType::Rgb8)
        .unwrap();
    let mut recents = RecencyCache::new(50);
    for expected in [0, 1_000_000] {
        let rgb = image::load_from_memory(&bytes).unwrap().into_rgb8();
        let (width, height) = rgb.dimensions();
        let image = Raster::new(width, height, rgb.into_raw()).unwrap();
        assert_eq!(image.data(), &data);
        assert_eq!(
            get_similar_image_posted_recently(image, &mut recents, 95, 9),
            expected
        );
    }
    assert_eq!(recents.len(), 1);
}

#[test]
fn a_decoded_image_without_pixels_is_no_raster() {
    let mut farbfeld = b"farbfeld".to_vec();
    farbfeld.extend_from_slice(&[0, 0, 0, 0, 0, 0, 0, 0]);
    let rgb = image::load_from_memory(&farbfeld).unwrap().into_rgb8();
    let (width, height) = rgb.dimensions();
    assert_eq!((width, height), (0, 0));
    assert!(Raster::new(width, height, rgb.into_raw()).is_none());
}

#[test]
fn the_cache_grows_by_one_at_most_and_stays_within_its_limit() {
    let mut recents = RecencyCache::new(3);
    for step in 0..10u32 {
        let before = recents.len();
        let shade = (step * 25) as u8;
        let score = get_similar_image_posted_recently(
            solid_raster(5, 5, [shade, 255 - shade, 0]),
            &mut recents,
            99,
            4,
        );
        assert_eq!(score, 0);
        assert!(recents.len() <= 3);
        assert!(recents.len() <= before + 1);
    }
    assert_eq!(recents.len(), 3);
    assert_eq!(recents.get(0).data(), solid_mosaic(4, [225, 30, 0]).data());
    assert_eq!(recents.get(1).data(), solid_mosaic(4, [200, 55, 0]).data());
    assert_eq!(recents.get(2).data(), solid_mosaic(4, [175, 80, 0]).data());
}

#[test]
fn percentages_have_two_decimals() {
    assert_eq!(match_percentage(0), "0.00");
    assert_eq!(match_percentage(987_654), "98.77");
    assert_eq!(match_percentage(987_649), "98.76");
    assert_eq!(match_percentage(950_001), "95.00");
    assert_eq!(match_percentage(999_950), "100.00");
    assert_eq!(match_percentage(999_949), "99.99");
    assert_eq!(match_percentage(1_000_000), "100.00");
    assert_eq!(match_percentage(50), "0.01");
    assert_eq!(match_percentage(49), "0.00");
}
