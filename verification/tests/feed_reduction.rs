use earthquake_backend::clients::usgs::{
    Earthquake, UsgsFeature, UsgsGeometry, UsgsProperties, UsgsResponse,
};

fn feature(id: &str, mag: Option<f32>, place: Option<&str>, time: Option<i64>, coords: [f64; 3]) -> UsgsFeature {
    UsgsFeature {
        id: id.to_string(),
        properties: UsgsProperties {
            mag: mag.map(|m| m.to_bits()),
            place: place.map(|p| p.to_string()),
            time,
        },
        geometry: UsgsGeometry {
            coordinates: [coords[0].to_bits(), coords[1].to_bits(), coords[2].to_bits()],
        },
    }
}

#[test]
fn complete_feature_becomes_earthquake() {
    let resp = UsgsResponse {
        features: vec![feature("ci1", Some(4.5), Some("10km N of Somewhere"), Some(1700000000000), [-117.5, 35.25, 8.0])],
    };
    let quakes = resp.into_earthquakes();
    assert_eq!(quakes.len(), 1);
    let q = &quakes[0];
    assert_eq!(q.id, "ci1");
    assert_eq!(f32::from_bits(q.magnitude), 4.5);
    assert_eq!(q.place, "10km N of Somewhere");
    assert_eq!(q.time, 1700000000000);
    assert_eq!(f64::from_bits(q.longitude), -117.5);
    assert_eq!(f64::from_bits(q.latitude), 35.25);
    assert_eq!(f64::from_bits(q.depth), 8.0);
}

#[test]
fn incomplete_features_are_dropped_and_order_kept() {
    let resp = UsgsResponse {
        features: vec![
            feature("a", Some(1.0), Some("A"), Some(1), [0.0, 1.0, 2.0]),
            feature("b", None, Some("B"), Some(2), [0.0, 1.0, 2.0]),
            feature("c", Some(3.0), None, Some(3), [0.0, 1.0, 2.0]),
            feature("d", Some(4.0), Some("D"), None, [0.0, 1.0, 2.0]),
            feature("e", Some(5.0), Some("E"), Some(5), [3.0, 4.0, 5.0]),
        ],
    };
    let ids: Vec<String> = resp.into_earthquakes().into_iter().map(|e: Earthquake| e.id).collect();
    assert_eq!(ids, vec!["a".to_string(), "e".to_string()]);
}

#[test]
fn empty_answer_gives_nothing() {
    let resp = UsgsResponse { features: vec![] };
    assert!(resp.into_earthquakes().is_empty());
}
