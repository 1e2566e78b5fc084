use geotz::index::{GeoPoint, SpatialIndex};

fn point(lat: i64, lng: i64, label: &str) -> GeoPoint {
    GeoPoint { latitude: lat, longitude: lng, label: Some(label.as_bytes().to_vec()) }
}

fn query(lat: i64, lng: i64) -> GeoPoint {
    GeoPoint { latitude: lat, longitude: lng, label: None }
}

fn dist2(a: &GeoPoint, b: &GeoPoint) -> i128 {
    let dx = (a.latitude - b.latitude) as i128;
    let dy = (a.longitude - b.longitude) as i128;
    dx * dx + dy * dy
}

fn label_of(p: &GeoPoint) -> String {
    String::from_utf8(p.label.clone().expect("a label")).expect("text")
}

#[test]
fn empty_index_has_no_neighbour() {
    let index = SpatialIndex::new();
    assert_eq!(index.len(), 0);
    assert!(index.nearest_neighbor(&query(0, 0)).is_none());
    assert_eq!(index.nearest_index(1, 2), None);
}

#[test]
fn two_points_each_win_on_their_side() {
    let mut index = SpatialIndex::new();
    index.insert(point(10_000_000, 10_000_000, "Zone/A"));
    index.insert(point(-10_000_000, -10_000_000, "Zone/B"));
    assert_eq!(index.len(), 2);
    let a = index.nearest_neighbor(&query(9_000_000, 9_000_000)).expect("a point");
    assert_eq!(label_of(a), "Zone/A");
    let b = index.nearest_neighbor(&query(-9_000_000, -9_000_000)).expect("a point");
    assert_eq!(label_of(b), "Zone/B");
    assert_eq!(index.nearest_index(9_000_000, 9_000_000), Some(0));
    assert_eq!(index.nearest_index(-9_000_000, -9_000_000), Some(1));
}

#[test]
fn single_point_answers_every_query() {
    let mut index = SpatialIndex::new();
    index.insert(point(0, 0, "Zone/X"));
    for (lat, lng) in [(0, 0), (90_000_000, 180_000_000), (-90_000_000, -180_000_000), (12_345_678, -98_765_432)] {
        let p = index.nearest_neighbor(&query(lat, lng)).expect("a point");
        assert_eq!(label_of(p), "Zone/X");
    }
}

#[test]
fn neighbour_is_a_minimizer_over_many_points() {
    let mut index = SpatialIndex::new();
    let mut stored = Vec::new();
    let mut seed: i64 = 12345;
    for i in 0..300 {
        seed = (seed * 1_103_515_245 + 12_345) % 2_147_483_648;
        let lat = seed % 180_000_001 - 90_000_000;
        seed = (seed * 1_103_515_245 + 12_345) % 2_147_483_648;
        let lng = seed % 360_000_001 - 180_000_000;
        let p = point(lat, lng, &format!("Z/{}", i));
        stored.push(p.clone());
        index.insert(p);
    }
    assert_eq!(index.len(), 300);
    for k in 0..60 {
        seed = (seed * 1_103_515_245 + 12_345) % 2_147_483_648;
        let lat = seed % 180_000_001 - 90_000_000;
        seed = (seed * 1_103_515_245 + 12_345) % 2_147_483_648;
        let lng = seed % 360_000_001 - 180_000_000;
        let q = query(lat, lng);
        let found = index.nearest_neighbor(&q).expect("a point");
        let best = stored.iter().map(|p| dist2(p, &q)).min().expect("points");
        assert_eq!(dist2(found, &q), best, "query {}", k);
        let i = index.nearest_index(lat, lng).expect("a place");
        assert_eq!(dist2(index.point(i), &q), best);
    }
}

#[test]
fn query_at_a_stored_point_has_distance_zero() {
    let mut index = SpatialIndex::new();
    index.insert(point(1_000_000, 2_000_000, "A"));
    index.insert(point(1_000_001, 2_000_000, "B"));
    index.insert(point(-45_000_000, 170_000_000, "C"));
    let q = query(1_000_001, 2_000_000);
    let p = index.nearest_neighbor(&q).expect("a point");
    assert_eq!(dist2(p, &q), 0);
    assert_eq!(label_of(p), "B");
}

#[test]
fn points_at_the_corners_are_handled() {
    let mut index = SpatialIndex::new();
    index.insert(point(90_000_000, 180_000_000, "NE"));
    index.insert(point(-90_000_000, -180_000_000, "SW"));
    index.insert(point(90_000_000, -180_000_000, "NW"));
    index.insert(point(-90_000_000, 180_000_000, "SE"));
    let p = index.nearest_neighbor(&query(-89_000_000, 179_000_000)).expect("a point");
    assert_eq!(label_of(p), "SE");
    let p = index.nearest_neighbor(&query(90_000_000, -180_000_000)).expect("a point");
    assert_eq!(label_of(p), "NW");
}

#[test]
fn duplicate_coordinates_are_both_kept() {
    let mut index = SpatialIndex::new();
    index.insert(point(5, 5, "first"));
    index.insert(point(5, 5, "second"));
    assert_eq!(index.len(), 2);
    assert_eq!(label_of(index.point(0)), "first");
    assert_eq!(label_of(index.point(1)), "second");
    let p = index.nearest_neighbor(&query(6, 6)).expect("a point");
    let l = label_of(p);
    assert!(l == "first" || l == "second");
}

#[test]
fn validity_follows_the_coordinate_limits() {
    assert!(query(90_000_000, -180_000_000).is_valid());
    assert!(query(0, 0).is_valid());
    assert!(!query(90_000_001, 0).is_valid());
    assert!(!query(-90_000_001, 0).is_valid());
    assert!(!query(0, 180_000_001).is_valid());
    assert!(!query(0, -180_000_001).is_valid());
}
