use earthquake_backend::api::earthquakes::EarthquakeQuery;
use earthquake_backend::clients::usgs::Earthquake;
use earthquake_backend::db::{
    limit_of, plan_earthquake_by_id, plan_filtered_query, plan_list_earthquakes, SqlPiece, SqlValue,
};

fn quake(id: &str, time: i64) -> Earthquake {
    Earthquake {
        id: id.to_string(),
        magnitude: 2.5f32.to_bits(),
        place: format!("place {}", id),
        time,
        latitude: 10.0f64.to_bits(),
        longitude: 20.0f64.to_bits(),
        depth: 5.0f64.to_bits(),
    }
}

fn sql(s: &str) -> SqlPiece {
    SqlPiece::Sql(s.to_string())
}

fn row(e: &Earthquake) -> Vec<SqlPiece> {
    vec![
        sql("("),
        SqlPiece::Bind(SqlValue::Text(e.id.clone())),
        sql(", "),
        SqlPiece::Bind(SqlValue::Real(e.magnitude)),
        sql(", "),
        SqlPiece::Bind(SqlValue::Text(e.place.clone())),
        sql(", "),
        SqlPiece::Bind(SqlValue::BigInt(e.time)),
        sql(", "),
        SqlPiece::Bind(SqlValue::Double(e.latitude)),
        sql(", "),
        SqlPiece::Bind(SqlValue::Double(e.longitude)),
        sql(", "),
        SqlPiece::Bind(SqlValue::Double(e.depth)),
        sql(")"),
    ]
}

const HEAD: &str = "INSERT INTO earthquakes (id, magnitude, place, time, latitude, longitude, depth)\n            VALUES ";

#[test]
fn nothing_to_store_gives_no_statement() {
    assert!(plan_list_earthquakes(&vec![], 1000).is_empty());
    assert!(plan_list_earthquakes(&vec![], 0).is_empty());
}

#[test]
fn one_batch_statement_is_exact() {
    let qs = vec![quake("a", 1), quake("b", 2)];
    let stmts = plan_list_earthquakes(&qs, 1000);
    assert_eq!(stmts.len(), 1);
    let mut expected = vec![sql(HEAD)];
    expected.extend(row(&qs[0]));
    expected.push(sql(", "));
    expected.extend(row(&qs[1]));
    expected.push(sql("ON CONFLICT (id) DO NOTHING"));
    assert_eq!(stmts[0], expected);
}

#[test]
fn batches_cover_every_earthquake_in_order() {
    let qs: Vec<Earthquake> = (0..7).map(|i| quake(&format!("q{}", i), i)).collect();
    let stmts = plan_list_earthquakes(&qs, 3);
    assert_eq!(stmts.len(), 3);
    let mut seen = Vec::new();
    for (k, stmt) in stmts.iter().enumerate() {
        assert_eq!(stmt[0], sql(HEAD));
        assert_eq!(stmt[stmt.len() - 1], sql("ON CONFLICT (id) DO NOTHING"));
        let ids: Vec<String> = stmt
            .iter()
            .enumerate()
            .filter_map(|(j, p)| match p {
                SqlPiece::Bind(SqlValue::Text(t)) if stmt[j - 1] == sql("(") => Some(t.clone()),
                _ => None,
            })
            .collect();
        assert!(ids.len() <= 3 && !ids.is_empty(), "batch {}", k);
        seen.extend(ids);
    }
    let expected: Vec<String> = (0..7).map(|i| format!("q{}", i)).collect();
    assert_eq!(seen, expected);
}

#[test]
fn batch_of_exact_multiple() {
    let qs: Vec<Earthquake> = (0..4).map(|i| quake(&format!("q{}", i), i)).collect();
    assert_eq!(plan_list_earthquakes(&qs, 2).len(), 2);
    assert_eq!(plan_list_earthquakes(&qs, 1).len(), 4);
    assert_eq!(plan_list_earthquakes(&qs, 4).len(), 1);
}

const SELECT: &str = " SELECT id, magnitude, place, time, latitude, longitude, depth\n        FROM earthquakes WHERE 1=1 ";

fn no_filters() -> EarthquakeQuery {
    EarthquakeQuery { min_magnitude: None, max_magnitude: None, start_date: None, end_date: None, limit: None }
}

#[test]
fn filtered_without_filters_uses_default_limit() {
    assert_eq!(
        plan_filtered_query(&no_filters()),
        vec![sql(SELECT), sql(" ORDER BY time DESC LIMIT "), SqlPiece::Bind(SqlValue::BigInt(100))]
    );
}

#[test]
fn filtered_with_every_filter() {
    let q = EarthquakeQuery {
        min_magnitude: Some(2.0f32.to_bits()),
        max_magnitude: Some(6.5f32.to_bits()),
        start_date: Some(1000),
        end_date: Some(2000),
        limit: Some(20),
    };
    assert_eq!(
        plan_filtered_query(&q),
        vec![
            sql(SELECT),
            sql(" AND magnitude >= "),
            SqlPiece::Bind(SqlValue::Real(2.0f32.to_bits())),
            sql(" AND magnitude <= "),
            SqlPiece::Bind(SqlValue::Real(6.5f32.to_bits())),
            sql(" AND time >= "),
            SqlPiece::Bind(SqlValue::BigInt(1000)),
            sql(" AND time <= "),
            SqlPiece::Bind(SqlValue::BigInt(2000)),
            sql(" ORDER BY time DESC LIMIT "),
            SqlPiece::Bind(SqlValue::BigInt(20)),
        ]
    );
}

#[test]
fn filtered_only_end_date_and_large_limit() {
    let mut q = no_filters();
    q.end_date = Some(5);
    q.limit = Some(10_000);
    assert_eq!(
        plan_filtered_query(&q),
        vec![
            sql(SELECT),
            sql(" AND time <= "),
            SqlPiece::Bind(SqlValue::BigInt(5)),
            sql(" ORDER BY time DESC LIMIT "),
            SqlPiece::Bind(SqlValue::BigInt(500)),
        ]
    );
}

#[test]
fn limit_rules() {
    assert_eq!(limit_of(None), 100);
    assert_eq!(limit_of(Some(1)), 1);
    assert_eq!(limit_of(Some(500)), 500);
    assert_eq!(limit_of(Some(501)), 500);
    assert_eq!(limit_of(Some(i64::MAX)), 500);
    assert_eq!(limit_of(Some(-3)), -3);
}

#[test]
fn by_id_statement() {
    assert_eq!(
        plan_earthquake_by_id("us7000abcd".to_string()),
        vec![
            sql("\n        SELECT id, magnitude, place, time, latitude, longitude, depth\n        FROM earthquakes\n        WHERE id = "),
            SqlPiece::Bind(SqlValue::Text("us7000abcd".to_string())),
            sql("\n    "),
        ]
    );
}
