//! The SQL statements that store and read earthquakes. A statement is a list
//! of pieces: SQL text, and values that are bound as parameters, so that no
//! value is ever spliced into the text.

use vstd::prelude::*;
use crate::clients::usgs::Earthquake;
use crate::api::earthquakes::EarthquakeQuery;

verus! {

/// A value bound to a statement parameter. `Real` holds the bits of an `f32`,
/// `Double` those of an `f64`.
#[derive(Debug, Clone, PartialEq, Eq)]
pub enum SqlValue {
    Text(String),
    BigInt(i64),
    Real(u32),
    Double(u64),
}

/// A piece of a statement: SQL text, or a bound value.
#[derive(Debug, Clone, PartialEq, Eq)]
pub enum SqlPiece {
    Sql(String),
    Bind(SqlValue),
}

/// What a bound value is.
pub enum ValueModel {
    Text(Seq<char>),
    BigInt(i64),
    Real(u32),
    Double(u64),
}

/// What a piece of a statement is.
pub enum PieceModel {
    Sql(Seq<char>),
    Bind(ValueModel),
}

impl DeepView for SqlValue {
    type V = ValueModel;

    open spec fn deep_view(&self) -> ValueModel {
        match self {
            SqlValue::Text(t) => ValueModel::Text(t@),
            SqlValue::BigInt(n) => ValueModel::BigInt(*n),
            SqlValue::Real(b) => ValueModel::Real(*b),
            SqlValue::Double(b) => ValueModel::Double(*b),
        }
    }
}

impl DeepView for SqlPiece {
    type V = PieceModel;

    open spec fn deep_view(&self) -> PieceModel {
        match self {
            SqlPiece::Sql(t) => PieceModel::Sql(t@),
            SqlPiece::Bind(v) => PieceModel::Bind(v.deep_view()),
        }
    }
}

/// A piece of SQL text.
pub open spec fn sql(text: Seq<char>) -> PieceModel {
    PieceModel::Sql(text)
}

/// A bound value.
pub open spec fn bind(value: ValueModel) -> PieceModel {
    PieceModel::Bind(value)
}

/// The head of an insert statement.
pub open spec fn insert_head() -> Seq<char> {
    "INSERT INTO earthquakes (id, magnitude, place, time, latitude, longitude, depth)\n            VALUES "@
}

/// The tail of an insert statement: a row whose id is already stored is left as it is.
pub open spec fn insert_tail() -> Seq<char> {
    "ON CONFLICT (id) DO NOTHING"@
}

/// The values of one stored row, in column order.
pub open spec fn row_values(e: Earthquake) -> Seq<ValueModel> {
    seq![
        ValueModel::Text(e.id@),
        ValueModel::Real(e.magnitude),
        ValueModel::Text(e.place@),
        ValueModel::BigInt(e.time),
        ValueModel::Double(e.latitude),
        ValueModel::Double(e.longitude),
        ValueModel::Double(e.depth),
    ]
}

/// `(v1, v2, ..., v7)` with each value bound.
pub open spec fn row_pieces(e: Earthquake) -> Seq<PieceModel> {
    seq![
        sql("("@), bind(ValueModel::Text(e.id@)),
        sql(", "@), bind(ValueModel::Real(e.magnitude)),
        sql(", "@), bind(ValueModel::Text(e.place@)),
        sql(", "@), bind(ValueModel::BigInt(e.time)),
        sql(", "@), bind(ValueModel::Double(e.latitude)),
        sql(", "@), bind(ValueModel::Double(e.longitude)),
        sql(", "@), bind(ValueModel::Double(e.depth)),
        sql(")"@),
    ]
}

/// The rows of a batch, separated by `, `.
pub open spec fn rows_pieces(rows: Seq<Earthquake>) -> Seq<PieceModel>
    decreases rows.len(),
{
    if rows.len() == 0 {
        Seq::empty()
    } else if rows.len() == 1 {
        row_pieces(rows[0])
    } else {
        rows_pieces(rows.drop_last()) + seq![sql(", "@)] + row_pieces(rows.last())
    }
}

/// The statement that inserts a batch of earthquakes.
pub open spec fn insert_statement(rows: Seq<Earthquake>) -> Seq<PieceModel> {
    seq![sql(insert_head())] + rows_pieces(rows) + seq![sql(insert_tail())]
}

fn sql_piece(text: &str) -> (p: SqlPiece)
    ensures
        p.deep_view() == sql(text@),
{
    SqlPiece::Sql(text.to_owned())
}

fn push_row(stmt: &mut Vec<SqlPiece>, e: &Earthquake)
    ensures
        final(stmt).deep_view() == old(stmt).deep_view() + row_pieces(*e),
{
    let ghost start = stmt.deep_view();
    stmt.push(sql_piece("("));
    stmt.push(SqlPiece::Bind(SqlValue::Text(e.id.clone())));
    stmt.push(sql_piece(", "));
    stmt.push(SqlPiece::Bind(SqlValue::Real(e.magnitude)));
    stmt.push(sql_piece(", "));
    stmt.push(SqlPiece::Bind(SqlValue::Text(e.place.clone())));
    stmt.push(sql_piece(", "));
    stmt.push(SqlPiece::Bind(SqlValue::BigInt(e.time)));
    stmt.push(sql_piece(", "));
    stmt.push(SqlPiece::Bind(SqlValue::Double(e.latitude)));
    stmt.push(sql_piece(", "));
    stmt.push(SqlPiece::Bind(SqlValue::Double(e.longitude)));
    stmt.push(sql_piece(", "));
    stmt.push(SqlPiece::Bind(SqlValue::Double(e.depth)));
    stmt.push(sql_piece(")"));
    assert(stmt.deep_view() =~= start + row_pieces(*e));
}

/// The statement that inserts `rows[start..end]`.
pub fn insert_statement_of(rows: &Vec<Earthquake>, start: usize, end: usize) -> (stmt: Vec<SqlPiece>)
    requires
        start <= end <= rows.len(),
    ensures
        stmt.deep_view() == insert_statement(rows@.subrange(start as int, end as int)),
{
    let mut stmt: Vec<SqlPiece> = Vec::new();
    stmt.push(sql_piece("INSERT INTO earthquakes (id, magnitude, place, time, latitude, longitude, depth)\n            VALUES "));
    assert(stmt.deep_view() =~= seq![sql(insert_head())]);
    let mut i = start;
    while i < end
        invariant
            start <= i <= end <= rows.len(),
            stmt.deep_view() == seq![sql(insert_head())] + rows_pieces(rows@.subrange(start as int, i as int)),
        decreases end - i,
    {
        let ghost before = stmt.deep_view();
        if i > start {
            stmt.push(sql_piece(", "));
            assert(stmt.deep_view() =~= before + seq![sql(", "@)]);
        }
        push_row(&mut stmt, &rows[i]);
        proof {
            let done = rows@.subrange(start as int, i + 1);
            assert(done.drop_last() =~= rows@.subrange(start as int, i as int));
            assert(done.last() == rows@[i as int]);
            if i > start {
                assert(rows_pieces(done) == rows_pieces(done.drop_last()) + seq![sql(", "@)] + row_pieces(done.last()));
                assert(stmt.deep_view() =~= seq![sql(insert_head())] + rows_pieces(done));
            } else {
                assert(rows@.subrange(start as int, i as int) =~= Seq::<Earthquake>::empty());
                assert(done.len() == 1);
                assert(stmt.deep_view() =~= seq![sql(insert_head())] + rows_pieces(done));
            }
        }
        i = i + 1;
    }
    let ghost before = stmt.deep_view();
    stmt.push(sql_piece("ON CONFLICT (id) DO NOTHING"));
    assert(stmt.deep_view() =~= before.push(sql(insert_tail())));
    stmt
}

/// The batches `rows` is cut into: consecutive runs of `size` rows, in order,
/// the last one possibly shorter.
pub open spec fn batches(rows: Seq<Earthquake>, size: nat) -> Seq<Seq<Earthquake>>
    decreases rows.len(),
{
    if rows.len() == 0 || size == 0 {
        Seq::empty()
    } else if rows.len() <= size {
        seq![rows]
    } else {
        seq![rows.take(size as int)] + batches(rows.skip(size as int), size)
    }
}

/// One insert statement per batch, in order.
pub open spec fn insert_plan(rows: Seq<Earthquake>, size: nat) -> Seq<Seq<PieceModel>> {
    batches(rows, size).map_values(|b: Seq<Earthquake>| insert_statement(b))
}

proof fn lemma_insert_plan_unfold(rows: Seq<Earthquake>, size: nat)
    requires
        size > 0,
        rows.len() > size,
    ensures
        insert_plan(rows, size) =~= seq![insert_statement(rows.take(size as int))]
            + insert_plan(rows.skip(size as int), size),
{
}

/// The statements that store `earthquakes`: one insert statement for each
/// batch of `batchsize` earthquakes, in order; none when there is nothing to store.
pub fn plan_list_earthquakes(earthquakes: &Vec<Earthquake>, batchsize: usize) -> (stmts: Vec<Vec<SqlPiece>>)
    requires
        earthquakes.len() == 0 || batchsize > 0,
    ensures
        stmts.deep_view() == insert_plan(earthquakes@, batchsize as nat),
{
    let mut stmts: Vec<Vec<SqlPiece>> = Vec::new();
    if earthquakes.len() == 0 {
        assert(stmts.deep_view() =~= insert_plan(earthquakes@, batchsize as nat));
        return stmts;
    }
    let n = earthquakes.len();
    let ghost b = batchsize as nat;
    let mut start: usize = 0;
    assert(earthquakes@.skip(0) =~= earthquakes@);
    assert(stmts.deep_view() + insert_plan(earthquakes@.skip(0), b) =~= insert_plan(earthquakes@, b));
    while start < n
        invariant
            start <= n,
            n == earthquakes.len(),
            batchsize > 0,
            b == batchsize as nat,
            stmts.deep_view() + insert_plan(earthquakes@.skip(start as int), b) == insert_plan(earthquakes@, b),
        decreases n - start,
    {
        let end = if n - start <= batchsize { n } else { start + batchsize };
        let stmt = insert_statement_of(earthquakes, start, end);
        let ghost before = stmts.deep_view();
        proof {
            let rest = earthquakes@.skip(start as int);
            if rest.len() <= b {
                assert(rest =~= earthquakes@.subrange(start as int, end as int));
                assert(earthquakes@.skip(end as int) =~= Seq::<Earthquake>::empty());
                assert(insert_plan(rest, b) =~= seq![insert_statement(rest)]);
                assert(insert_plan(earthquakes@.skip(end as int), b) =~= Seq::<Seq<PieceModel>>::empty());
            } else {
                lemma_insert_plan_unfold(rest, b);
                assert(rest.take(b as int) =~= earthquakes@.subrange(start as int, end as int));
                assert(rest.skip(b as int) =~= earthquakes@.skip(end as int));
            }
        }
        stmts.push(stmt);
        assert(stmts.deep_view() =~= before.push(stmt.deep_view()));
        start = end;
        assert(stmts.deep_view() + insert_plan(earthquakes@.skip(start as int), b) =~= insert_plan(earthquakes@, b));
    }
    assert(earthquakes@.skip(n as int) =~= Seq::<Earthquake>::empty());
    assert(stmts.deep_view() =~= insert_plan(earthquakes@, b));
    stmts
}

/// The number of rows a filtered read returns at most: 100 unless the caller
/// asks for another limit, and never more than 500.
pub open spec fn effective_limit(limit: Option<i64>) -> i64 {
    let asked = match limit {
        Some(l) => l,
        None => 100,
    };
    if asked > 500 { 500 } else { asked }
}

/// The limit a filtered read asks for.
pub fn limit_of(limit: Option<i64>) -> (l: i64)
    ensures
        l == effective_limit(limit),
{
    let mut l = match limit {
        Some(l) => l,
        None => 100,
    };
    if l > 500 {
        l = 500;
    }
    l
}

/// The head of a filtered read.
pub open spec fn select_head() -> Seq<char> {
    " SELECT id, magnitude, place, time, latitude, longitude, depth\n        FROM earthquakes WHERE 1=1 "@
}

/// A condition with its bound value, when the filter is given.
pub open spec fn condition(text: Seq<char>, value: Option<ValueModel>) -> Seq<PieceModel> {
    match value {
        Some(v) => seq![sql(text), bind(v)],
        None => Seq::empty(),
    }
}

pub open spec fn real_of(bits: Option<u32>) -> Option<ValueModel> {
    match bits {
        Some(b) => Some(ValueModel::Real(b)),
        None => None,
    }
}

pub open spec fn big_int_of(n: Option<i64>) -> Option<ValueModel> {
    match n {
        Some(v) => Some(ValueModel::BigInt(v)),
        None => None,
    }
}

/// The statement of a filtered read: each given filter narrows the rows,
/// which come newest first, at most `effective_limit` of them.
pub open spec fn filtered_statement(q: EarthquakeQuery) -> Seq<PieceModel> {
    seq![sql(select_head())]
        + condition(" AND magnitude >= "@, real_of(q.min_magnitude))
        + condition(" AND magnitude <= "@, real_of(q.max_magnitude))
        + condition(" AND time >= "@, big_int_of(q.start_date))
        + condition(" AND time <= "@, big_int_of(q.end_date))
        + seq![sql(" ORDER BY time DESC LIMIT "@), bind(ValueModel::BigInt(effective_limit(q.limit)))]
}

fn push_condition(stmt: &mut Vec<SqlPiece>, text: &str, value: Option<SqlValue>)
    ensures
        final(stmt).deep_view() == old(stmt).deep_view() + condition(
            text@,
            match value {
                Some(v) => Some(v.deep_view()),
                None => None,
            },
        ),
{
    let ghost before = stmt.deep_view();
    match value {
        Some(v) => {
            stmt.push(sql_piece(text));
            stmt.push(SqlPiece::Bind(v));
            assert(stmt.deep_view() =~= before + condition(text@, Some(v.deep_view())));
        },
        None => {
            assert(stmt.deep_view() =~= before + Seq::<PieceModel>::empty());
        },
    }
}

fn real_value(bits: Option<u32>) -> (v: Option<SqlValue>)
    ensures
        (match v {
            Some(x) => Some(x.deep_view()),
            None => None,
        }) == real_of(bits),
{
    match bits {
        Some(b) => Some(SqlValue::Real(b)),
        None => None,
    }
}

fn big_int_value(n: Option<i64>) -> (v: Option<SqlValue>)
    ensures
        (match v {
            Some(x) => Some(x.deep_view()),
            None => None,
        }) == big_int_of(n),
{
    match n {
        Some(x) => Some(SqlValue::BigInt(x)),
        None => None,
    }
}

/// The statement that reads the earthquakes `params` selects.
pub fn plan_filtered_query(params: &EarthquakeQuery) -> (stmt: Vec<SqlPiece>)
    ensures
        stmt.deep_view() == filtered_statement(*params),
{
    let mut stmt: Vec<SqlPiece> = Vec::new();
    stmt.push(sql_piece(" SELECT id, magnitude, place, time, latitude, longitude, depth\n        FROM earthquakes WHERE 1=1 "));
    assert(stmt.deep_view() =~= seq![sql(select_head())]);
    push_condition(&mut stmt, " AND magnitude >= ", real_value(params.min_magnitude));
    push_condition(&mut stmt, " AND magnitude <= ", real_value(params.max_magnitude));
    push_condition(&mut stmt, " AND time >= ", big_int_value(params.start_date));
    push_condition(&mut stmt, " AND time <= ", big_int_value(params.end_date));
    let limit = limit_of(params.limit);
    stmt.push(sql_piece(" ORDER BY time DESC LIMIT "));
    stmt.push(SqlPiece::Bind(SqlValue::BigInt(limit)));
    assert(stmt.deep_view() =~= filtered_statement(*params));
    stmt
}

/// The statement that reads the earthquake with a given id.
pub open spec fn by_id_statement(id: Seq<char>) -> Seq<PieceModel> {
    seq![
        sql("\n        SELECT id, magnitude, place, time, latitude, longitude, depth\n        FROM earthquakes\n        WHERE id = "@),
        bind(ValueModel::Text(id)),
        sql("\n    "@),
    ]
}

/// The statement that reads the earthquake with id `id`.
pub fn plan_earthquake_by_id(id: String) -> (stmt: Vec<SqlPiece>)
    ensures
        stmt.deep_view() == by_id_statement(id@),
{
    let ghost idv = id@;
    let mut stmt: Vec<SqlPiece> = Vec::new();
    stmt.push(sql_piece("\n        SELECT id, magnitude, place, time, latitude, longitude, depth\n        FROM earthquakes\n        WHERE id = "));
    stmt.push(SqlPiece::Bind(SqlValue::Text(id)));
    stmt.push(sql_piece("\n    "));
    assert(stmt.deep_view() =~= by_id_statement(idv));
    stmt
}

/// Storing in batches loses nothing and reorders nothing: the batches, one
/// after another, are the earthquakes that were given.
pub proof fn lemma_batches_cover(rows: Seq<Earthquake>, size: nat)
    requires
        size > 0,
    ensures
        batches(rows, size).flatten() == rows,
    decreases rows.len(),
{
    if rows.len() == 0 {
    } else if rows.len() <= size {
        assert(batches(rows, size).drop_first() =~= Seq::<Seq<Earthquake>>::empty());
        assert(batches(rows, size).drop_first().flatten() =~= Seq::<Earthquake>::empty());
        assert(batches(rows, size).flatten() =~= rows);
    } else {
        let rest = rows.skip(size as int);
        lemma_batches_cover(rest, size);
        assert(batches(rows, size).drop_first() =~= batches(rest, size));
        assert(rows.take(size as int) + rest =~= rows);
    }
}

/// Every batch holds at least one and at most `size` earthquakes.
pub proof fn lemma_batch_sizes(rows: Seq<Earthquake>, size: nat)
    requires
        size > 0,
    ensures
        forall|i: int| 0 <= i < batches(rows, size).len() ==>
            0 < #[trigger] batches(rows, size)[i].len() <= size,
    decreases rows.len(),
{
    if rows.len() > size {
        let rest = rows.skip(size as int);
        lemma_batch_sizes(rest, size);
        assert forall|i: int| 0 <= i < batches(rows, size).len() implies
            0 < #[trigger] batches(rows, size)[i].len() <= size by {
            if i > 0 {
                assert(batches(rows, size)[i] == batches(rest, size)[i - 1]);
            }
        }
    }
}

/// There are as many batches as `size` goes into the number of earthquakes,
/// rounded up.
pub proof fn lemma_batch_count(rows: Seq<Earthquake>, size: nat)
    requires
        size > 0,
    ensures
        batches(rows, size).len() == (rows.len() + size - 1) / (size as int),
    decreases rows.len(),
{
    let n = rows.len() as int;
    let b = size as int;
    if n == 0 {
        assert((b - 1) / b == 0) by (nonlinear_arith)
            requires b > 0;
    } else if n <= b {
        assert((n + b - 1) / b == 1) by (nonlinear_arith)
            requires 0 < n <= b;
    } else {
        lemma_batch_count(rows.skip(size as int), size);
        assert((n + b - 1) / b == (n - b + b - 1) / b + 1) by (nonlinear_arith)
            requires b > 0, n > b;
    }
}

/// The values a statement binds, in order.
pub open spec fn bound_values(stmt: Seq<PieceModel>) -> Seq<ValueModel>
    decreases stmt.len(),
{
    if stmt.len() == 0 {
        Seq::empty()
    } else {
        bound_values(stmt.drop_last()) + match stmt.last() {
            PieceModel::Bind(v) => seq![v],
            PieceModel::Sql(_) => Seq::empty(),
        }
    }
}

/// The values of a batch of rows, row after row.
pub open spec fn rows_values(rows: Seq<Earthquake>) -> Seq<ValueModel>
    decreases rows.len(),
{
    if rows.len() == 0 {
        Seq::empty()
    } else {
        rows_values(rows.drop_last()) + row_values(rows.last())
    }
}

proof fn lemma_bound_values_concat(a: Seq<PieceModel>, b: Seq<PieceModel>)
    ensures
        bound_values(a + b) == bound_values(a) + bound_values(b),
    decreases b.len(),
{
    if b.len() == 0 {
        assert(a + b =~= a);
        assert(bound_values(a) + bound_values(b) =~= bound_values(a));
    } else {
        lemma_bound_values_concat(a, b.drop_last());
        assert((a + b).drop_last() =~= a + b.drop_last());
        assert((a + b).last() == b.last());
        assert(bound_values(a + b) =~= bound_values(a) + bound_values(b));
    }
}

proof fn lemma_row_bound_values(e: Earthquake)
    ensures
        bound_values(row_pieces(e)) == row_values(e),
{
    reveal_with_fuel(bound_values, 16);
    assert(bound_values(row_pieces(e)) =~= row_values(e));
}

proof fn lemma_rows_bound_values(rows: Seq<Earthquake>)
    ensures
        bound_values(rows_pieces(rows)) == rows_values(rows),
    decreases rows.len(),
{
    if rows.len() == 0 {
    } else if rows.len() == 1 {
        lemma_row_bound_values(rows[0]);
        assert(rows.drop_last() =~= Seq::<Earthquake>::empty());
        assert(rows_values(rows.drop_last()) =~= Seq::<ValueModel>::empty());
        assert(rows.last() == rows[0]);
        assert(rows_values(rows) =~= row_values(rows[0]));
    } else {
        let init = rows.drop_last();
        lemma_rows_bound_values(init);
        lemma_row_bound_values(rows.last());
        lemma_bound_values_concat(rows_pieces(init), seq![sql(", "@)]);
        lemma_bound_values_concat(rows_pieces(init) + seq![sql(", "@)], row_pieces(rows.last()));
        reveal_with_fuel(bound_values, 2);
        assert(bound_values(seq![sql(", "@)]) =~= Seq::<ValueModel>::empty());
        assert(bound_values(rows_pieces(rows)) =~= rows_values(rows));
    }
}

/// An insert statement binds the seven values of every row, row after row;
/// its SQL text holds no value.
pub proof fn lemma_insert_binds_every_value(rows: Seq<Earthquake>)
    ensures
        bound_values(insert_statement(rows)) == rows_values(rows),
{
    lemma_rows_bound_values(rows);
    lemma_bound_values_concat(seq![sql(insert_head())], rows_pieces(rows));
    lemma_bound_values_concat(seq![sql(insert_head())] + rows_pieces(rows), seq![sql(insert_tail())]);
    reveal_with_fuel(bound_values, 2);
    assert(bound_values(seq![sql(insert_head())]) =~= Seq::<ValueModel>::empty());
    assert(bound_values(seq![sql(insert_tail())]) =~= Seq::<ValueModel>::empty());
    assert(bound_values(insert_statement(rows)) =~= rows_values(rows));
}

/// A filtered read never asks for more than 500 rows; it asks for 100 when
/// no limit is given, and for the given limit when it is at most 500.
pub proof fn lemma_limit(limit: Option<i64>)
    ensures
        effective_limit(limit) <= 500,
        limit is None ==> effective_limit(limit) == 100,
        forall|l: i64| limit == Some(l) && l <= 500 ==> effective_limit(limit) == l,
        forall|l: i64| limit == Some(l) && l > 500 ==> effective_limit(limit) == 500,
{
}

proof fn lemma_rows_values_concat(a: Seq<Earthquake>, b: Seq<Earthquake>)
    ensures
        rows_values(a + b) == rows_values(a) + rows_values(b),
    decreases b.len(),
{
    if b.len() == 0 {
        assert(a + b =~= a);
        assert(rows_values(a) + rows_values(b) =~= rows_values(a));
    } else {
        lemma_rows_values_concat(a, b.drop_last());
        assert((a + b).drop_last() =~= a + b.drop_last());
        assert((a + b).last() == b.last());
        assert(rows_values(a + b) =~= rows_values(a) + rows_values(b));
    }
}

/// Across the statements that store a list of earthquakes, one after
/// another, the bound values are those of every earthquake, in order: each
/// earthquake is offered to the table exactly once.
pub proof fn lemma_plan_binds_every_earthquake(rows: Seq<Earthquake>, size: nat)
    requires
        size > 0,
    ensures
        insert_plan(rows, size).map_values(|stmt: Seq<PieceModel>| bound_values(stmt)).flatten()
            == rows_values(rows),
    decreases rows.len(),
{
    let f = |stmt: Seq<PieceModel>| bound_values(stmt);
    let all = insert_plan(rows, size).map_values(f);
    if rows.len() == 0 {
        assert(all =~= Seq::<Seq<ValueModel>>::empty());
    } else if rows.len() <= size {
        lemma_insert_binds_every_value(rows);
        assert(all =~= seq![rows_values(rows)]);
        assert(all.drop_first() =~= Seq::<Seq<ValueModel>>::empty());
        assert(all.drop_first().flatten() =~= Seq::<ValueModel>::empty());
        assert(all.flatten() =~= rows_values(rows));
    } else {
        let head = rows.take(size as int);
        let rest = rows.skip(size as int);
        lemma_insert_plan_unfold(rows, size);
        lemma_insert_binds_every_value(head);
        lemma_plan_binds_every_earthquake(rest, size);
        assert(all.drop_first() =~= insert_plan(rest, size).map_values(f));
        assert(all.first() == rows_values(head));
        lemma_rows_values_concat(head, rest);
        assert(head + rest =~= rows);
    }
}

proof fn lemma_rows_pieces_shape(rows: Seq<Earthquake>)
    ensures
        rows_pieces(rows).len() == if rows.len() == 0 { 0 } else { 16 * rows.len() - 1 },
        rows.len() > 0 ==> rows_pieces(rows)[0] == sql("("@),
        rows.len() > 0 ==> rows_pieces(rows).last() == sql(")"@),
    decreases rows.len(),
{
    if rows.len() > 1 {
        lemma_rows_pieces_shape(rows.drop_last());
    }
}

/// Every insert statement starts with `INSERT INTO earthquakes (...) VALUES `,
/// ends with `ON CONFLICT (id) DO NOTHING`, whatever the number of rows, and
/// holds 15 pieces per row (parentheses, seven values, commas between them)
/// and a `, ` between two rows.
pub proof fn lemma_insert_statement_frame(rows: Seq<Earthquake>)
    ensures
        insert_statement(rows)[0]
            == sql("INSERT INTO earthquakes (id, magnitude, place, time, latitude, longitude, depth)\n            VALUES "@),
        insert_statement(rows).last() == sql("ON CONFLICT (id) DO NOTHING"@),
        insert_statement(rows).len() == if rows.len() == 0 { 2 } else { 16 * rows.len() + 1 },
{
    lemma_rows_pieces_shape(rows);
}

/// Every statement of a plan to store earthquakes is an insert that skips the
/// rows whose id is already stored: it ends with `ON CONFLICT (id) DO NOTHING`.
pub proof fn lemma_plan_skips_stored_ids(rows: Seq<Earthquake>, size: nat)
    requires
        size > 0,
    ensures
        forall|k: int| 0 <= k < insert_plan(rows, size).len() ==> {
            &&& (#[trigger] insert_plan(rows, size)[k]).last() == sql("ON CONFLICT (id) DO NOTHING"@)
            &&& insert_plan(rows, size)[k][0]
                == sql("INSERT INTO earthquakes (id, magnitude, place, time, latitude, longitude, depth)\n            VALUES "@)
            &&& insert_plan(rows, size)[k].len() == 16 * batches(rows, size)[k].len() + 1
        },
{
    lemma_batch_sizes(rows, size);
    assert forall|k: int| 0 <= k < insert_plan(rows, size).len() implies {
        &&& (#[trigger] insert_plan(rows, size)[k]).last() == sql("ON CONFLICT (id) DO NOTHING"@)
        &&& insert_plan(rows, size)[k][0]
            == sql("INSERT INTO earthquakes (id, magnitude, place, time, latitude, longitude, depth)\n            VALUES "@)
        &&& insert_plan(rows, size)[k].len() == 16 * batches(rows, size)[k].len() + 1
    } by {
        lemma_insert_statement_frame(batches(rows, size)[k]);
        assert(batches(rows, size)[k].len() > 0);
    }
}

/// The statement that reads one earthquake binds exactly the id it is
/// given, whatever its length, between fixed SQL text.
pub proof fn lemma_by_id_binds_the_id(id: Seq<char>)
    ensures
        bound_values(by_id_statement(id)) == seq![ValueModel::Text(id)],
        by_id_statement(id).len() == 3,
        by_id_statement(id)[0]
            == sql("\n        SELECT id, magnitude, place, time, latitude, longitude, depth\n        FROM earthquakes\n        WHERE id = "@),
        by_id_statement(id)[2] == sql("\n    "@),
{
    let st = by_id_statement(id);
    let s2 = st.drop_last();
    let s1 = s2.drop_last();
    assert(s2 =~= seq![st[0], st[1]]);
    assert(s1 =~= seq![st[0]]);
    assert(s1.drop_last() =~= Seq::<PieceModel>::empty());
    assert(bound_values(s1.drop_last()) =~= Seq::<ValueModel>::empty());
    assert(bound_values(s1) =~= Seq::<ValueModel>::empty());
    assert(bound_values(s2) =~= seq![ValueModel::Text(id)]);
    assert(bound_values(st) =~= seq![ValueModel::Text(id)]);
}

/// When `value` is given, `stmt` holds the condition `text` immediately
/// followed by the bound value; when it is not, `text` is nowhere in `stmt`.
pub open spec fn has_condition(stmt: Seq<PieceModel>, text: Seq<char>, value: Option<ValueModel>) -> bool {
    match value {
        Some(v) => exists|i: int| 0 <= i < stmt.len() - 1 && #[trigger] stmt[i] == sql(text) && stmt[i + 1] == bind(v),
        None => forall|i: int| 0 <= i < stmt.len() ==> #[trigger] stmt[i] != sql(text),
    }
}

proof fn lemma_condition_texts_differ()
    ensures
        " AND magnitude >= "@ != " AND magnitude <= "@,
        " AND time >= "@ != " AND time <= "@,
        " AND magnitude >= "@.len() == 18,
        " AND magnitude <= "@.len() == 18,
        " AND time >= "@.len() == 13,
        " AND time <= "@.len() == 13,
        " ORDER BY time DESC LIMIT "@.len() == 26,
        " SELECT id, magnitude, place, time, latitude, longitude, depth\n        FROM earthquakes WHERE 1=1 "@.len() > 26,
{
    reveal_strlit(" AND magnitude >= ");
    reveal_strlit(" AND magnitude <= ");
    reveal_strlit(" AND time >= ");
    reveal_strlit(" AND time <= ");
    reveal_strlit(" ORDER BY time DESC LIMIT ");
    reveal_strlit(" SELECT id, magnitude, place, time, latitude, longitude, depth\n        FROM earthquakes WHERE 1=1 ");
    assert(" AND magnitude >= "@[15] != " AND magnitude <= "@[15]);
    assert(" AND time >= "@[10] != " AND time <= "@[10]);
}

/// Each filter of a read depends on its own parameter alone: a given filter
/// puts its condition and its value in the read, whatever the other filters;
/// a filter not given puts nothing. The read starts with the SELECT and ends
/// with `ORDER BY time DESC LIMIT` and the limit, and holds two pieces per
/// given filter.
pub proof fn lemma_filters_independent(q: EarthquakeQuery)
    ensures
        has_condition(
            filtered_statement(q),
            " AND magnitude >= "@,
            match q.min_magnitude { Some(m) => Some(ValueModel::Real(m)), None => None },
        ),
        has_condition(
            filtered_statement(q),
            " AND magnitude <= "@,
            match q.max_magnitude { Some(m) => Some(ValueModel::Real(m)), None => None },
        ),
        has_condition(
            filtered_statement(q),
            " AND time >= "@,
            match q.start_date { Some(t) => Some(ValueModel::BigInt(t)), None => None },
        ),
        has_condition(
            filtered_statement(q),
            " AND time <= "@,
            match q.end_date { Some(t) => Some(ValueModel::BigInt(t)), None => None },
        ),
        filtered_statement(q)[0]
            == sql(" SELECT id, magnitude, place, time, latitude, longitude, depth\n        FROM earthquakes WHERE 1=1 "@),
        filtered_statement(q).len() == 3
            + (if q.min_magnitude is Some { 2int } else { 0 })
            + (if q.max_magnitude is Some { 2int } else { 0 })
            + (if q.start_date is Some { 2int } else { 0 })
            + (if q.end_date is Some { 2int } else { 0 }),
        filtered_statement(q)[filtered_statement(q).len() - 2] == sql(" ORDER BY time DESC LIMIT "@),
        filtered_statement(q).last() == bind(ValueModel::BigInt(effective_limit(q.limit))),
{
    lemma_condition_texts_differ();
    let st = filtered_statement(q);
    let c1 = condition(" AND magnitude >= "@, real_of(q.min_magnitude));
    let c2 = condition(" AND magnitude <= "@, real_of(q.max_magnitude));
    let c3 = condition(" AND time >= "@, big_int_of(q.start_date));
    let c4 = condition(" AND time <= "@, big_int_of(q.end_date));
    let head = seq![sql(select_head())];
    let tail = seq![sql(" ORDER BY time DESC LIMIT "@), bind(ValueModel::BigInt(effective_limit(q.limit)))];
    assert(st == head + c1 + c2 + c3 + c4 + tail);
    let i1 = 1int;
    let i2 = i1 + c1.len();
    let i3 = i2 + c2.len();
    let i4 = i3 + c3.len();
    let i5 = i4 + c4.len();
    assert(st.len() == i5 + 2);
    assert forall|i: int| 0 <= i < st.len() implies {
        &&& (i == 0 ==> st[i] == sql(select_head()))
        &&& (i1 <= i < i2 ==> st[i] == c1[i - i1])
        &&& (i2 <= i < i3 ==> st[i] == c2[i - i2])
        &&& (i3 <= i < i4 ==> st[i] == c3[i - i3])
        &&& (i4 <= i < i5 ==> st[i] == c4[i - i4])
        &&& (i5 <= i ==> st[i] == tail[i - i5])
    } by {}
    match q.min_magnitude {
        Some(m) => { assert(st[i1] == sql(" AND magnitude >= "@) && st[i1 + 1] == bind(ValueModel::Real(m))); },
        None => {},
    }
    match q.max_magnitude {
        Some(m) => { assert(st[i2] == sql(" AND magnitude <= "@) && st[i2 + 1] == bind(ValueModel::Real(m))); },
        None => {},
    }
    match q.start_date {
        Some(t) => { assert(st[i3] == sql(" AND time >= "@) && st[i3 + 1] == bind(ValueModel::BigInt(t))); },
        None => {},
    }
    match q.end_date {
        Some(t) => { assert(st[i4] == sql(" AND time <= "@) && st[i4 + 1] == bind(ValueModel::BigInt(t))); },
        None => {},
    }
}

/// The pieces of one row: `(`, then the seven values in column order, each
/// bound and after `, ` but the first, then `)`.
pub proof fn lemma_row_layout(e: Earthquake)
    ensures
        row_pieces(e).len() == 15,
        row_values(e).len() == 7,
        forall|c: int| 0 <= c < 7 ==> row_pieces(e)[2 * c] == sql(if c == 0 { "("@ } else { ", "@ })
            && row_pieces(e)[2 * c + 1] == bind(#[trigger] row_values(e)[c]),
        row_pieces(e)[14] == sql(")"@),
{
    assert forall|c: int| 0 <= c < 7 implies row_pieces(e)[2 * c] == sql(if c == 0 { "("@ } else { ", "@ })
        && row_pieces(e)[2 * c + 1] == bind(#[trigger] row_values(e)[c]) by {
        if c == 0 {} else if c == 1 {} else if c == 2 {} else if c == 3 {} else if c == 4 {} else if c == 5 {} else {}
    }
}

/// The piece at offset `k` of row `r`'s span in a list of rows: the row's own
/// 15 pieces, then the `, ` that separates it from the next row.
pub open spec fn row_span_piece(rows: Seq<Earthquake>, r: int, k: int) -> PieceModel {
    if k < 15 { row_pieces(rows[r])[k] } else { sql(", "@) }
}

proof fn lemma_rows_layout(rows: Seq<Earthquake>)
    ensures
        rows_pieces(rows).len() == if rows.len() == 0 { 0 } else { 16 * rows.len() - 1 },
        forall|r: int, k: int| 0 <= r < rows.len() && 0 <= k < 16 && (k < 15 || r < rows.len() - 1) ==>
            rows_pieces(rows)[16 * r + k] == #[trigger] row_span_piece(rows, r, k),
    decreases rows.len(),
{
    lemma_rows_pieces_shape(rows);
    if rows.len() == 1 {
        assert(rows.drop_last() =~= Seq::<Earthquake>::empty());
        assert(rows_pieces(rows) == row_pieces(rows[0]));
    } else if rows.len() > 1 {
        let init = rows.drop_last();
        let n = rows.len() as int;
        lemma_rows_layout(init);
        let a = rows_pieces(init) + seq![sql(", "@)];
        assert(rows_pieces(rows) == a + row_pieces(rows.last()));
        assert(a.len() == 16 * (n - 1));
        assert forall|r: int, k: int| 0 <= r < rows.len() && 0 <= k < 16 && (k < 15 || r < rows.len() - 1) implies
            rows_pieces(rows)[16 * r + k] == #[trigger] row_span_piece(rows, r, k) by {
            if r < n - 1 {
                assert(rows[r] == init[r]);
                if k < 15 || r < n - 2 {
                    assert(rows_pieces(init)[16 * r + k] == row_span_piece(init, r, k));
                    assert(row_span_piece(init, r, k) == row_span_piece(rows, r, k));
                } else {
                    assert(16 * r + k == a.len() - 1);
                }
            } else {
                assert(rows[r] == rows.last());
            }
        }
    }
}

/// The layout of an insert statement: the head, then for each row `r` the 16
/// pieces from `1 + 16 * r`: the row's own pieces (its `(`, values and `)`,
/// see `lemma_row_layout`) and the `, ` before the next row; then the tail.
pub proof fn lemma_insert_layout(rows: Seq<Earthquake>)
    ensures
        forall|r: int, k: int| 0 <= r < rows.len() && 0 <= k < 16 && (k < 15 || r < rows.len() - 1) ==>
            insert_statement(rows)[1 + 16 * r + k] == #[trigger] row_span_piece(rows, r, k),
{
    lemma_rows_layout(rows);
    let body = rows_pieces(rows);
    assert(insert_statement(rows) == seq![sql(insert_head())] + body + seq![sql(insert_tail())]);
    assert forall|r: int, k: int| 0 <= r < rows.len() && 0 <= k < 16 && (k < 15 || r < rows.len() - 1) implies
        insert_statement(rows)[1 + 16 * r + k] == #[trigger] row_span_piece(rows, r, k) by {
        assert(body[16 * r + k] == row_span_piece(rows, r, k));
    }
}

} // verus!
