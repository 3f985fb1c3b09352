//! The USGS FDSN event web service: the pieces of a request URL, and the
//! records a GeoJSON answer is reduced to.

use vstd::prelude::*;
use vstd::string::StringExecFns;
use crate::text::{int_text, bool_text, push_int_text, push_bool_text, is_decimal_text_of, lemma_named_decimal};

verus! {

/// A piece of a request URL, written as text.
pub trait UrlComponent {
    /// The text this piece stands for in a URL.
    spec fn url_text(&self) -> Seq<char>;

    /// Writes the piece as it appears in a URL.
    fn to_string(&self) -> (s: String)
        ensures
            s@ == self.url_text(),
    ;
}

/// Concatenation of `prefix` and the text of a string.
fn with_prefix(prefix: &str, value: &str) -> (s: String)
    ensures
        s@ == prefix@ + value@,
{
    let mut s = prefix.to_owned();
    s.append(value);
    s
}

/// The methods of the event service.
#[derive(Debug, Clone, PartialEq, Eq)]
pub enum UsgsMethods {
    KnownParameterValues,
    AppWADL,
    Catalogs,
    Contributors,
    Count,
    Query,
    Version,
}

impl UrlComponent for UsgsMethods {
    open spec fn url_text(&self) -> Seq<char> {
        match self {
            UsgsMethods::KnownParameterValues => "application.json"@,
            UsgsMethods::AppWADL => "application.wadl"@,
            UsgsMethods::Catalogs => "catalogs"@,
            UsgsMethods::Contributors => "contributors"@,
            UsgsMethods::Count => "contributors"@,
            UsgsMethods::Query => ""@,
            UsgsMethods::Version => "version"@,
        }
    }

    fn to_string(&self) -> (s: String) {
        match self {
            UsgsMethods::KnownParameterValues => "application.json".to_owned(),
            UsgsMethods::AppWADL => "application.wadl".to_owned(),
            UsgsMethods::Catalogs => "catalogs".to_owned(),
            UsgsMethods::Contributors => "contributors".to_owned(),
            UsgsMethods::Count => "contributors".to_owned(),
            UsgsMethods::Query => "".to_owned(),
            UsgsMethods::Version => "version".to_owned(),
        }
    }
}

/// The formats an answer can be asked in.
#[derive(Debug, Clone, PartialEq, Eq)]
pub enum QueryFormats {
    GeoJSON,
    Kml,
    QuakeMl,
    Text,
}

impl UrlComponent for QueryFormats {
    open spec fn url_text(&self) -> Seq<char> {
        match self {
            QueryFormats::GeoJSON => "format=geojson"@,
            QueryFormats::Kml => "format=kml"@,
            QueryFormats::QuakeMl => "format=xml"@,
            QueryFormats::Text => "format=text"@,
        }
    }

    fn to_string(&self) -> (s: String) {
        match self {
            QueryFormats::GeoJSON => "format=geojson".to_owned(),
            QueryFormats::Kml => "format=kml".to_owned(),
            QueryFormats::QuakeMl => "format=xml".to_owned(),
            QueryFormats::Text => "format=text".to_owned(),
        }
    }
}

/// Time bounds of a query; each holds the time as the service reads it.
#[derive(Debug, Clone, PartialEq, Eq)]
pub enum Time {
    StartTime(String),
    EndTime(String),
    UpdatedAfter(String),
}

impl UrlComponent for Time {
    open spec fn url_text(&self) -> Seq<char> {
        match self {
            Time::StartTime(t) => "starttime="@ + t@,
            Time::EndTime(t) => "endtime="@ + t@,
            Time::UpdatedAfter(t) => "updatedafter="@ + t@,
        }
    }

    fn to_string(&self) -> (s: String) {
        match self {
            Time::StartTime(t) => with_prefix("starttime=", t.as_str()),
            Time::EndTime(t) => with_prefix("endtime=", t.as_str()),
            Time::UpdatedAfter(t) => with_prefix("updatedafter=", t.as_str()),
        }
    }
}

/// A rectangle of latitudes and longitudes, in whole degrees.
#[derive(Debug, Clone, PartialEq, Eq)]
pub enum Rectangle {
    MinLatitude(i8),
    MinLongitude(i16),
    MaxLatitude(i8),
    MaxLongitude(i16),
}

impl UrlComponent for Rectangle {
    open spec fn url_text(&self) -> Seq<char> {
        match self {
            Rectangle::MinLatitude(n) => "minlatitude="@ + int_text(*n as int),
            Rectangle::MinLongitude(n) => "minlongitude="@ + int_text(*n as int),
            Rectangle::MaxLatitude(n) => "maxlatitude="@ + int_text(*n as int),
            Rectangle::MaxLongitude(n) => "maxlongitude="@ + int_text(*n as int),
        }
    }

    fn to_string(&self) -> (s: String) {
        let (mut s, n): (String, i64) = match self {
            Rectangle::MinLatitude(n) => ("minlatitude=".to_owned(), *n as i64),
            Rectangle::MinLongitude(n) => ("minlongitude=".to_owned(), *n as i64),
            Rectangle::MaxLatitude(n) => ("maxlatitude=".to_owned(), *n as i64),
            Rectangle::MaxLongitude(n) => ("maxlongitude=".to_owned(), *n as i64),
        };
        push_int_text(&mut s, n);
        s
    }
}

/// A circle around a point. The radius in kilometres is a decimal number,
/// held as the text it is written as.
#[derive(Debug, Clone, PartialEq, Eq)]
pub enum Circle {
    Latitude(i8),
    Longitude(i8),
    MaxRadius(u8),
    MaxRadiusKm(String),
}

impl UrlComponent for Circle {
    open spec fn url_text(&self) -> Seq<char> {
        match self {
            Circle::Latitude(n) => "latitude="@ + int_text(*n as int),
            Circle::Longitude(n) => "longitude="@ + int_text(*n as int),
            Circle::MaxRadius(n) => "maxradius="@ + int_text(*n as int),
            Circle::MaxRadiusKm(km) => "maxradiuskm="@ + km@,
        }
    }

    fn to_string(&self) -> (s: String) {
        match self {
            Circle::Latitude(n) => {
                let mut s = "latitude=".to_owned();
                push_int_text(&mut s, *n as i64);
                s
            },
            Circle::Longitude(n) => {
                let mut s = "longitude=".to_owned();
                push_int_text(&mut s, *n as i64);
                s
            },
            Circle::MaxRadius(n) => {
                let mut s = "maxradius=".to_owned();
                push_int_text(&mut s, *n as i64);
                s
            },
            Circle::MaxRadiusKm(km) => with_prefix("maxradiuskm=", km.as_str()),
        }
    }
}

/// The orders an answer can be sorted in.
#[derive(Debug, Clone, PartialEq, Eq)]
pub enum OrderingOptions {
    Time,
    TimeAsc,
    Magnitude,
    MagnitudeAsc,
}

impl UrlComponent for OrderingOptions {
    open spec fn url_text(&self) -> Seq<char> {
        match self {
            OrderingOptions::Time => "time"@,
            OrderingOptions::TimeAsc => "time-asc"@,
            OrderingOptions::Magnitude => "magnitude"@,
            OrderingOptions::MagnitudeAsc => "magnitude-asc"@,
        }
    }

    fn to_string(&self) -> (s: String) {
        match self {
            OrderingOptions::Time => "time".to_owned(),
            OrderingOptions::TimeAsc => "time-asc".to_owned(),
            OrderingOptions::Magnitude => "magnitude".to_owned(),
            OrderingOptions::MagnitudeAsc => "magnitude-asc".to_owned(),
        }
    }
}

/// The PAGER alert levels.
#[derive(Debug, Clone, PartialEq, Eq)]
pub enum AlertLevelOptions {
    Green,
    Yellow,
    Orange,
    Red,
}

impl UrlComponent for AlertLevelOptions {
    open spec fn url_text(&self) -> Seq<char> {
        match self {
            AlertLevelOptions::Green => "green"@,
            AlertLevelOptions::Yellow => "yellow"@,
            AlertLevelOptions::Orange => "orange"@,
            AlertLevelOptions::Red => "red"@,
        }
    }

    fn to_string(&self) -> (s: String) {
        match self {
            AlertLevelOptions::Green => "green".to_owned(),
            AlertLevelOptions::Yellow => "yellow".to_owned(),
            AlertLevelOptions::Orange => "orange".to_owned(),
            AlertLevelOptions::Red => "red".to_owned(),
        }
    }
}

/// Further query parameters.
#[derive(Debug, Clone, PartialEq, Eq)]
pub enum ExtParameters {
    OrderBy(OrderingOptions),
    AlertLevel(AlertLevelOptions),
    JsonError(bool),
    SetEarthquakeEvent(),
}

impl UrlComponent for ExtParameters {
    open spec fn url_text(&self) -> Seq<char> {
        match self {
            ExtParameters::OrderBy(o) => "orderby="@ + o.url_text(),
            ExtParameters::AlertLevel(l) => "alertlevel="@ + l.url_text(),
            ExtParameters::JsonError(b) => "jsonerror="@ + bool_text(*b),
            ExtParameters::SetEarthquakeEvent() => "eventtype=earthquake"@,
        }
    }

    fn to_string(&self) -> (s: String) {
        match self {
            ExtParameters::OrderBy(o) => with_prefix("orderby=", o.to_string().as_str()),
            ExtParameters::AlertLevel(l) => with_prefix("alertlevel=", l.to_string().as_str()),
            ExtParameters::JsonError(b) => {
                let mut s = "jsonerror=".to_owned();
                push_bool_text(&mut s, *b);
                s
            },
            ExtParameters::SetEarthquakeEvent() => "eventtype=earthquake".to_owned(),
        }
    }
}

/// The address of the USGS event service.
pub open spec fn usgs_base_url() -> Seq<char> {
    "https://earthquake.usgs.gov/fdsnws/event/1/"@
}

/// `&` and the text of each parameter, in order.
pub open spec fn params_text<P: UrlComponent>(params: Seq<P>) -> Seq<char>
    decreases params.len(),
{
    if params.len() == 0 {
        Seq::empty()
    } else {
        params_text(params.drop_last()) + "&"@ + params.last().url_text()
    }
}

/// A value written after its parameter name: `text` begins with `name`,
/// and `value` follows it.
pub open spec fn is_named(text: Seq<char>, name: Seq<char>, value: Seq<char>) -> bool {
    &&& text.subrange(0, name.len() as int) == name
    &&& text.skip(name.len() as int) == value
    &&& text.len() == name.len() + value.len()
}

/// A value written after its parameter name as canonical decimal text.
pub open spec fn is_named_decimal(text: Seq<char>, name: Seq<char>, n: int) -> bool {
    &&& text.subrange(0, name.len() as int) == name
    &&& is_decimal_text_of(text.skip(name.len() as int), n)
}

proof fn lemma_named(name: Seq<char>, value: Seq<char>)
    ensures
        is_named(name + value, name, value),
{
    assert((name + value).subrange(0, name.len() as int) =~= name);
    assert((name + value).skip(name.len() as int) =~= value);
}

/// Each bound of a rectangle is written as its parameter name and `=`,
/// followed by the signed decimal text of its value: a negative bound keeps
/// its `-`.
pub proof fn lemma_rectangle_text(r: Rectangle)
    ensures
        match r {
            Rectangle::MinLatitude(n) => is_named_decimal(r.url_text(), "minlatitude="@, n as int),
            Rectangle::MaxLatitude(n) => is_named_decimal(r.url_text(), "maxlatitude="@, n as int),
            Rectangle::MinLongitude(n) => is_named_decimal(r.url_text(), "minlongitude="@, n as int),
            Rectangle::MaxLongitude(n) => is_named_decimal(r.url_text(), "maxlongitude="@, n as int),
        },
{
    match r {
        Rectangle::MinLatitude(n) => lemma_named_decimal("minlatitude="@, n as int),
        Rectangle::MaxLatitude(n) => lemma_named_decimal("maxlatitude="@, n as int),
        Rectangle::MinLongitude(n) => lemma_named_decimal("minlongitude="@, n as int),
        Rectangle::MaxLongitude(n) => lemma_named_decimal("maxlongitude="@, n as int),
    }
}

/// Each part of a circle is written as its parameter name and `=`, followed
/// by its value: whole numbers as their signed decimal text, the radius in
/// kilometres as the text it holds.
pub proof fn lemma_circle_text(c: Circle)
    ensures
        match c {
            Circle::Latitude(n) => is_named_decimal(c.url_text(), "latitude="@, n as int),
            Circle::Longitude(n) => is_named_decimal(c.url_text(), "longitude="@, n as int),
            Circle::MaxRadius(n) => is_named_decimal(c.url_text(), "maxradius="@, n as int),
            Circle::MaxRadiusKm(km) => is_named(c.url_text(), "maxradiuskm="@, km@),
        },
{
    match c {
        Circle::Latitude(n) => lemma_named_decimal("latitude="@, n as int),
        Circle::Longitude(n) => lemma_named_decimal("longitude="@, n as int),
        Circle::MaxRadius(n) => lemma_named_decimal("maxradius="@, n as int),
        Circle::MaxRadiusKm(km) => lemma_named("maxradiuskm="@, km@),
    }
}

/// Each time bound is written as its parameter name and `=`, followed by the
/// time exactly as given.
pub proof fn lemma_time_text(t: Time)
    ensures
        match t {
            Time::StartTime(v) => is_named(t.url_text(), "starttime="@, v@),
            Time::EndTime(v) => is_named(t.url_text(), "endtime="@, v@),
            Time::UpdatedAfter(v) => is_named(t.url_text(), "updatedafter="@, v@),
        },
{
    match t {
        Time::StartTime(v) => lemma_named("starttime="@, v@),
        Time::EndTime(v) => lemma_named("endtime="@, v@),
        Time::UpdatedAfter(v) => lemma_named("updatedafter="@, v@),
    }
}

/// Each further parameter is written as its name and `=`, followed by the
/// text of its option, or `true`/`false`.
pub proof fn lemma_ext_parameter_text(p: ExtParameters)
    ensures
        match p {
            ExtParameters::OrderBy(o) => is_named(p.url_text(), "orderby="@, o.url_text()),
            ExtParameters::AlertLevel(l) => is_named(p.url_text(), "alertlevel="@, l.url_text()),
            ExtParameters::JsonError(b) => is_named(
                p.url_text(),
                "jsonerror="@,
                if b { "true"@ } else { "false"@ },
            ),
            ExtParameters::SetEarthquakeEvent() => p.url_text() == "eventtype=earthquake"@,
        },
{
    match p {
        ExtParameters::OrderBy(o) => lemma_named("orderby="@, o.url_text()),
        ExtParameters::AlertLevel(l) => lemma_named("alertlevel="@, l.url_text()),
        ExtParameters::JsonError(b) => lemma_named("jsonerror="@, bool_text(b)),
        ExtParameters::SetEarthquakeEvent() => {},
    }
}

/// The parameters of two lists, one list after the other, are written as
/// the first list's text followed by the second's; a single parameter is
/// written as `&` and its text.
pub proof fn lemma_params_text_concat<P: UrlComponent>(a: Seq<P>, b: Seq<P>)
    ensures
        params_text(a + b) == params_text(a) + params_text(b),
    decreases b.len(),
{
    if b.len() == 0 {
        assert(a + b =~= a);
        assert(params_text(a) + params_text(b) =~= params_text(a));
    } else {
        lemma_params_text_concat(a, b.drop_last());
        assert((a + b).drop_last() =~= a + b.drop_last());
        assert((a + b).last() == b.last());
        assert(params_text(a + b) =~= params_text(a) + params_text(b));
    }
}

/// A single parameter is written as `&` and its text.
pub proof fn lemma_params_text_single<P: UrlComponent>(p: P)
    ensures
        params_text(seq![p]) == "&"@ + p.url_text(),
{
    assert(seq![p].drop_last() =~= Seq::<P>::empty());
    assert(seq![p].last() == p);
    assert(params_text(seq![p].drop_last()) =~= Seq::<char>::empty());
    assert(params_text(seq![p]) =~= "&"@ + p.url_text());
}

/// A client of the USGS event service.
#[derive(Debug, Clone)]
pub struct Usgs {
    base_url: String,
}

impl Usgs {
    /// The address the client sends its requests under.
    pub closed spec fn base_url(&self) -> Seq<char> {
        self.base_url@
    }

    /// The URL of a query in `format` with `params`.
    pub open spec fn spec_query_url<P: UrlComponent>(&self, format: QueryFormats, params: Seq<P>) -> Seq<char> {
        self.base_url() + "query?"@ + format.url_text() + params_text(params)
    }

    /// A client of the public USGS service.
    pub fn new() -> (usgs: Self)
        ensures
            usgs.base_url() == usgs_base_url(),
    {
        Usgs { base_url: "https://earthquake.usgs.gov/fdsnws/event/1/".to_owned() }
    }

    /// The URL of a query: `{base}query?{format}` followed by `&{param}` for
    /// each parameter, in order.
    pub fn query_url<P: UrlComponent>(&self, format: &QueryFormats, params: &Vec<P>) -> (url: String)
        ensures
            url@ == self.spec_query_url(*format, params@),
    {
        let mut url = with_prefix(self.base_url.as_str(), "query?");
        url.append(format.to_string().as_str());
        let n = params.len();
        for i in 0..n
            invariant
                n == params@.len(),
                url@ == self.base_url() + "query?"@ + format.url_text() + params_text(params@.take(i as int)),
        {
            url.append("&");
            url.append(params[i].to_string().as_str());
            assert(params@.take(i + 1).drop_last() =~= params@.take(i as int));
        }
        assert(params@.take(n as int) =~= params@);
        url
    }
}

/// A query without parameters asks for `{base}query?{format}`; one more
/// parameter appends `&` and its text to the URL, and changes nothing before it.
pub proof fn lemma_query_url_parameters<P: UrlComponent>(usgs: Usgs, format: QueryFormats, params: Seq<P>, p: P)
    ensures
        usgs.spec_query_url(format, Seq::<P>::empty()) == usgs.base_url() + "query?"@ + format.url_text(),
        usgs.spec_query_url(format, params.push(p)) == usgs.spec_query_url(format, params) + "&"@ + p.url_text(),
{
    assert(usgs.spec_query_url(format, Seq::<P>::empty()) =~= usgs.base_url() + "query?"@ + format.url_text());
    lemma_params_text_concat(params, seq![p]);
    lemma_params_text_single(p);
    assert(params + seq![p] =~= params.push(p));
    assert(usgs.spec_query_url(format, params.push(p)) =~= usgs.spec_query_url(format, params) + "&"@ + p.url_text());
}

/// The part of a GeoJSON answer that is read: its features.
#[derive(Debug, Clone, PartialEq, Eq)]
pub struct UsgsResponse {
    pub features: Vec<UsgsFeature>,
}

/// One event of an answer.
#[derive(Debug, Clone, PartialEq, Eq)]
pub struct UsgsFeature {
    pub id: String,
    pub properties: UsgsProperties,
    pub geometry: UsgsGeometry,
}

/// The properties of an event that are read; the service may leave any of them out.
/// The magnitude is held as the IEEE 754 bits of its `f32` value.
#[derive(Debug, Clone, PartialEq, Eq)]
pub struct UsgsProperties {
    pub mag: Option<u32>,
    pub place: Option<String>,
    pub time: Option<i64>,
}

/// The point of an event: longitude, latitude and depth, in this order,
/// each held as the IEEE 754 bits of its `f64` value.
#[derive(Debug, Clone, PartialEq, Eq)]
pub struct UsgsGeometry {
    pub coordinates: [u64; 3],
}

/// An earthquake as it is stored. `magnitude` holds the bits of an `f32`;
/// `latitude`, `longitude` and `depth` hold the bits of an `f64`.
#[derive(Debug, Clone, PartialEq, Eq)]
pub struct Earthquake {
    pub id: String,
    pub magnitude: u32,
    pub place: String,
    pub time: i64,
    pub latitude: u64,
    pub longitude: u64,
    pub depth: u64,
}

/// The earthquake a feature describes, when it has a magnitude, a place and a time.
pub open spec fn feature_earthquake(f: UsgsFeature) -> Option<Earthquake> {
    match (f.properties.mag, f.properties.place, f.properties.time) {
        (Some(mag), Some(place), Some(time)) => Some(
            Earthquake {
                id: f.id,
                magnitude: mag,
                place: place,
                time: time,
                latitude: f.geometry.coordinates@[1],
                longitude: f.geometry.coordinates@[0],
                depth: f.geometry.coordinates@[2],
            },
        ),
        _ => None,
    }
}

/// The earthquakes of a list of features, in the order of the features;
/// a feature without magnitude, place or time gives none.
pub open spec fn earthquakes_of(features: Seq<UsgsFeature>) -> Seq<Earthquake>
    decreases features.len(),
{
    if features.len() == 0 {
        Seq::empty()
    } else {
        let rest = earthquakes_of(features.drop_last());
        match feature_earthquake(features.last()) {
            Some(e) => rest.push(e),
            None => rest,
        }
    }
}

impl UsgsResponse {
    /// The earthquakes of the answer: one for each feature that has a
    /// magnitude, a place and a time, in the order of the features.
    pub fn into_earthquakes(self) -> (quakes: Vec<Earthquake>)
        ensures
            quakes@ == earthquakes_of(self.features@),
    {
        let ghost features = self.features@;
        let mut quakes: Vec<Earthquake> = Vec::new();
        for f in it: self.features
            invariant
                it.seq() == features,
                quakes@ == earthquakes_of(features.take(it.index() as int)),
        {
            proof {
                assert(features.take(it.index() + 1).drop_last() =~= features.take(it.index() as int));
            }
            let UsgsFeature { id, properties, geometry } = f;
            let UsgsProperties { mag, place, time } = properties;
            match (mag, place, time) {
                (Some(mag), Some(place), Some(time)) => {
                    quakes.push(Earthquake {
                        id: id,
                        magnitude: mag,
                        place: place,
                        time: time,
                        latitude: geometry.coordinates[1],
                        longitude: geometry.coordinates[0],
                        depth: geometry.coordinates[2],
                    });
                },
                _ => {},
            }
        }
        assert(features.take(features.len() as int) =~= features);
        quakes
    }
}

/// Reducing an answer keeps at most one earthquake per feature.
pub proof fn lemma_earthquakes_at_most_features(features: Seq<UsgsFeature>)
    ensures
        earthquakes_of(features).len() <= features.len(),
    decreases features.len(),
{
    if features.len() > 0 {
        lemma_earthquakes_at_most_features(features.drop_last());
    }
}

/// Reducing two answers one after the other gives the earthquakes of the
/// first, then those of the second: features are read one at a time, in order.
pub proof fn lemma_earthquakes_of_concat(a: Seq<UsgsFeature>, b: Seq<UsgsFeature>)
    ensures
        earthquakes_of(a + b) == earthquakes_of(a) + earthquakes_of(b),
    decreases b.len(),
{
    if b.len() == 0 {
        assert(a + b =~= a);
        assert(earthquakes_of(a) + earthquakes_of(b) =~= earthquakes_of(a));
    } else {
        lemma_earthquakes_of_concat(a, b.drop_last());
        assert((a + b).drop_last() =~= a + b.drop_last());
        assert((a + b).last() == b.last());
        assert(earthquakes_of(a + b) =~= earthquakes_of(a) + earthquakes_of(b));
    }
}

/// A feature that has a magnitude, a place and a time is kept, with its
/// longitude, latitude and depth in their own fields; any other is dropped.
pub proof fn lemma_single_feature(f: UsgsFeature)
    ensures
        earthquakes_of(seq![f]) == match feature_earthquake(f) {
            Some(e) => seq![e],
            None => Seq::<Earthquake>::empty(),
        },
        feature_earthquake(f) is Some <==> (f.properties.mag is Some && f.properties.place is Some
            && f.properties.time is Some),
{
    assert(seq![f].drop_last() =~= Seq::<UsgsFeature>::empty());
    assert(seq![f].last() == f);
    assert(earthquakes_of(seq![f].drop_last()) =~= Seq::<Earthquake>::empty());
    match feature_earthquake(f) {
        Some(e) => assert(earthquakes_of(seq![f]) =~= seq![e]),
        None => assert(earthquakes_of(seq![f]) =~= Seq::<Earthquake>::empty()),
    }
}

/// Whether a feature has a magnitude, a place and a time.
pub open spec fn is_complete(f: UsgsFeature) -> bool {
    f.properties.mag is Some && f.properties.place is Some && f.properties.time is Some
}

/// Whether `e` is the earthquake `f` describes: the same id, magnitude, place
/// and time, longitude `coordinates[0]`, latitude `coordinates[1]` and depth
/// `coordinates[2]`.
pub open spec fn describes(f: UsgsFeature, e: Earthquake) -> bool {
    &&& f.properties.mag == Some(e.magnitude)
    &&& f.properties.place == Some(e.place)
    &&& f.properties.time == Some(e.time)
    &&& e.id == f.id
    &&& e.longitude == f.geometry.coordinates@[0]
    &&& e.latitude == f.geometry.coordinates@[1]
    &&& e.depth == f.geometry.coordinates@[2]
}

/// A complete feature gives the earthquake it describes; any other gives none.
pub proof fn lemma_feature_fields(f: UsgsFeature)
    ensures
        is_complete(f) ==> feature_earthquake(f) is Some && describes(f, feature_earthquake(f).unwrap()),
        !is_complete(f) ==> feature_earthquake(f) is None,
{
}

/// An answer whose features are all complete gives one earthquake per
/// feature, each the one its feature describes, in the same order.
pub proof fn lemma_complete_features(features: Seq<UsgsFeature>)
    requires
        forall|i: int| 0 <= i < features.len() ==> is_complete(#[trigger] features[i]),
    ensures
        earthquakes_of(features).len() == features.len(),
        forall|i: int| 0 <= i < features.len() ==> describes(#[trigger] features[i], earthquakes_of(features)[i]),
    decreases features.len(),
{
    if features.len() > 0 {
        let init = features.drop_last();
        assert forall|i: int| 0 <= i < init.len() implies is_complete(#[trigger] init[i]) by {
            assert(init[i] == features[i]);
        }
        lemma_complete_features(init);
        lemma_feature_fields(features.last());
        assert forall|i: int| 0 <= i < features.len() implies
            describes(#[trigger] features[i], earthquakes_of(features)[i]) by {
            if i < init.len() {
                assert(features[i] == init[i]);
            }
        }
    }
}

/// Every earthquake of an answer is the one some complete feature of it
/// describes, and each complete feature gives one.
pub proof fn lemma_earthquakes_come_from_features(features: Seq<UsgsFeature>)
    ensures
        forall|i: int| 0 <= i < earthquakes_of(features).len() ==> exists|j: int|
            0 <= j < features.len() && is_complete(features[j]) && describes(
                features[j],
                #[trigger] earthquakes_of(features)[i],
            ),
        earthquakes_of(features).len() == features.filter(|f: UsgsFeature| is_complete(f)).len(),
    decreases features.len(),
{
    let keep = |f: UsgsFeature| is_complete(f);
    if features.len() > 0 {
        let init = features.drop_last();
        lemma_earthquakes_come_from_features(init);
        lemma_feature_fields(features.last());
        reveal_with_fuel(Seq::<UsgsFeature>::filter, 1);
        assert forall|i: int| 0 <= i < earthquakes_of(features).len() implies exists|j: int|
            0 <= j < features.len() && is_complete(features[j]) && describes(
                features[j],
                #[trigger] earthquakes_of(features)[i],
            ) by {
            if i < earthquakes_of(init).len() {
                let j = choose|j: int| 0 <= j < init.len() && is_complete(init[j]) && describes(
                    init[j],
                    #[trigger] earthquakes_of(init)[i],
                );
                assert(features[j] == init[j]);
            } else {
                assert(features[features.len() - 1] == features.last());
            }
        }
    } else {
        assert(features.filter(keep) =~= Seq::<UsgsFeature>::empty());
    }
}

} // verus!
