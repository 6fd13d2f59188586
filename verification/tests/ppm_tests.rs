//! Raster buffer and filter tests.

use pathtracer::ppm::Ppm;
use pathtracer::vec3::V3;

#[test]
fn median_filter_test() {
    let before_filter = vec![1, 0, 0, 1, 4, 0, 1, 1, 0, 0, 7, 0, 0, 3, 255, 1, 5, 0, 0, 2, 0, 0, 8, 0, 1, 6, 0];
    let correct_filter = vec![1, 0, 0, 1, 4, 0, 1, 1, 0, 0, 7, 0, 1, 4, 0, 1, 5, 0, 0, 2, 0, 0, 8, 0, 1, 6, 0];
    let ppm_after_filter = Ppm::new_from_vec(3, 3, before_filter.clone()).unwrap().median_filter(1);
    let ppm_correct_filter = Ppm::new_from_vec(3, 3, correct_filter).unwrap();

    assert_eq!(ppm_after_filter, ppm_correct_filter);
}

#[test]
fn ppm_set_get_roundtrip() {
    let mut p = Ppm::new(4, 4);
    assert!(p.set_pixel(1, 2, V3::new(10, 20, 30)));
    let c = p.get_pixel(1, 2).unwrap();
    assert_eq!((c.x, c.y, c.z), (10, 20, 30));
    assert!(p.get_pixel(0, 4).is_none());
}

#[test]
fn ppm_new_from_vec_rejects_bad_size() {
    let r = Ppm::new_from_vec(2, 2, vec![0u8; 5]);
    assert_eq!(r.unwrap_err(), "Invalid rgb vector size.");
}

#[test]
fn ppm_rgba_appends_alpha() {
    let mut p = Ppm::new_from_vec(1, 2, vec![1, 2, 3, 4, 5, 6]).unwrap();
    assert_eq!(p.get_rgba(), vec![1, 2, 3, 255, 4, 5, 6, 255]);
}
