use earthquake_backend::clients::realtime_query_url;
use earthquake_backend::clients::usgs::{
    AlertLevelOptions, Circle, ExtParameters, OrderingOptions, QueryFormats, Rectangle, Time,
    UrlComponent, Usgs, UsgsMethods,
};
use earthquake_backend::text::{push_bool_text, push_int_text, push_nat_text};

#[test]
fn methods_text() {
    assert_eq!(UsgsMethods::KnownParameterValues.to_string(), "application.json");
    assert_eq!(UsgsMethods::AppWADL.to_string(), "application.wadl");
    assert_eq!(UsgsMethods::Catalogs.to_string(), "catalogs");
    assert_eq!(UsgsMethods::Contributors.to_string(), "contributors");
    assert_eq!(UsgsMethods::Count.to_string(), "contributors");
    assert_eq!(UsgsMethods::Query.to_string(), "");
    assert_eq!(UsgsMethods::Version.to_string(), "version");
}

#[test]
fn formats_text() {
    assert_eq!(QueryFormats::GeoJSON.to_string(), "format=geojson");
    assert_eq!(QueryFormats::Kml.to_string(), "format=kml");
    assert_eq!(QueryFormats::QuakeMl.to_string(), "format=xml");
    assert_eq!(QueryFormats::Text.to_string(), "format=text");
}

#[test]
fn time_text() {
    assert_eq!(Time::StartTime("2024-01-01".to_string()).to_string(), "starttime=2024-01-01");
    assert_eq!(Time::EndTime("2024-02-01T10:00:00".to_string()).to_string(), "endtime=2024-02-01T10:00:00");
    assert_eq!(Time::UpdatedAfter("NOW - 1hour".to_string()).to_string(), "updatedafter=NOW - 1hour");
}

#[test]
fn rectangle_text_with_signs_and_extremes() {
    assert_eq!(Rectangle::MinLatitude(-90).to_string(), "minlatitude=-90");
    assert_eq!(Rectangle::MaxLatitude(90).to_string(), "maxlatitude=90");
    assert_eq!(Rectangle::MinLongitude(-180).to_string(), "minlongitude=-180");
    assert_eq!(Rectangle::MaxLongitude(180).to_string(), "maxlongitude=180");
    assert_eq!(Rectangle::MinLatitude(i8::MIN).to_string(), "minlatitude=-128");
    assert_eq!(Rectangle::MinLongitude(i16::MIN).to_string(), "minlongitude=-32768");
    assert_eq!(Rectangle::MaxLongitude(i16::MAX).to_string(), "maxlongitude=32767");
    assert_eq!(Rectangle::MaxLatitude(0).to_string(), "maxlatitude=0");
}

#[test]
fn circle_text() {
    assert_eq!(Circle::Latitude(-33).to_string(), "latitude=-33");
    assert_eq!(Circle::Longitude(127).to_string(), "longitude=127");
    assert_eq!(Circle::MaxRadius(255).to_string(), "maxradius=255");
    assert_eq!(Circle::MaxRadius(0).to_string(), "maxradius=0");
    assert_eq!(Circle::MaxRadiusKm(2.5f32.to_string()).to_string(), "maxradiuskm=2.5");
}

#[test]
fn ordering_and_alert_text() {
    assert_eq!(OrderingOptions::Time.to_string(), "time");
    assert_eq!(OrderingOptions::TimeAsc.to_string(), "time-asc");
    assert_eq!(OrderingOptions::Magnitude.to_string(), "magnitude");
    assert_eq!(OrderingOptions::MagnitudeAsc.to_string(), "magnitude-asc");
    assert_eq!(AlertLevelOptions::Green.to_string(), "green");
    assert_eq!(AlertLevelOptions::Yellow.to_string(), "yellow");
    assert_eq!(AlertLevelOptions::Orange.to_string(), "orange");
    assert_eq!(AlertLevelOptions::Red.to_string(), "red");
}

#[test]
fn ext_parameters_text() {
    assert_eq!(ExtParameters::OrderBy(OrderingOptions::MagnitudeAsc).to_string(), "orderby=magnitude-asc");
    assert_eq!(ExtParameters::AlertLevel(AlertLevelOptions::Orange).to_string(), "alertlevel=orange");
    assert_eq!(ExtParameters::JsonError(true).to_string(), "jsonerror=true");
    assert_eq!(ExtParameters::JsonError(false).to_string(), "jsonerror=false");
    assert_eq!(ExtParameters::SetEarthquakeEvent().to_string(), "eventtype=earthquake");
}

#[test]
fn decimal_text_matches_display() {
    for n in [-1000i64, -128, -10, -9, -1, 0, 1, 9, 10, 99, 100, 12345, i64::MIN, i64::MAX] {
        let mut s = String::new();
        push_int_text(&mut s, n);
        assert_eq!(s, format!("{}", n));
    }
    let mut s = "x".to_string();
    push_nat_text(&mut s, u64::MAX);
    assert_eq!(s, format!("x{}", u64::MAX));
    let mut s = String::new();
    push_bool_text(&mut s, true);
    push_bool_text(&mut s, false);
    assert_eq!(s, "truefalse");
}

#[test]
fn query_url_without_parameters() {
    let usgs = Usgs::new();
    let params: Vec<Time> = Vec::new();
    assert_eq!(
        usgs.query_url(&QueryFormats::Text, &params),
        "https://earthquake.usgs.gov/fdsnws/event/1/query?format=text"
    );
}

#[test]
fn query_url_with_parameters_in_order() {
    let usgs = Usgs::new();
    let params = vec![
        Rectangle::MinLatitude(-10),
        Rectangle::MaxLatitude(10),
        Rectangle::MinLongitude(-20),
        Rectangle::MaxLongitude(20),
    ];
    assert_eq!(
        usgs.query_url(&QueryFormats::GeoJSON, &params),
        "https://earthquake.usgs.gov/fdsnws/event/1/query?format=geojson&minlatitude=-10&maxlatitude=10&minlongitude=-20&maxlongitude=20"
    );
}

#[test]
fn realtime_updater_url() {
    let usgs = Usgs::new();
    assert_eq!(
        realtime_query_url(&usgs),
        "https://earthquake.usgs.gov/fdsnws/event/1/query?format=geojson&eventtype=earthquake&orderby=time"
    );
}
