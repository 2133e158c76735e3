//! Column-major batches built from a run of records.

use vstd::prelude::*;

use crate::record::{RecordView, WarcRecord};
use crate::record_columns::{cell_result_view, cell_spec, extract_cell, Cell, CellView, ReadError, ReadErrorView};
use crate::schema::{FieldKind, SchemaField};

verus! {

/// The views of a run of records.
pub open spec fn records_view(rs: Seq<WarcRecord>) -> Seq<RecordView> {
    rs.map_values(|r: WarcRecord| r@)
}

/// The views of a column's entries.
pub open spec fn cells_view(cs: Seq<Cell>) -> Seq<CellView> {
    cs.map_values(|c: Cell| c@)
}

/// The column of `kind` over `rows`, in row order, or the error of the first
/// row that raises one.
pub open spec fn column_spec(kind: FieldKind, rows: Seq<RecordView>) -> Result<
    Seq<CellView>,
    ReadErrorView,
>
    decreases rows.len(),
{
    if rows.len() == 0 {
        Ok(Seq::empty())
    } else {
        match column_spec(kind, rows.drop_last()) {
            Err(e) => Err(e),
            Ok(column) => match cell_spec(kind, rows.last()) {
                Err(e) => Err(e),
                Ok(c) => Ok(column.push(c)),
            },
        }
    }
}

/// The columns of `schema` over `rows`, in schema order, or the error of the
/// first column that raises one.
pub open spec fn columns_spec(schema: Seq<SchemaField>, rows: Seq<RecordView>) -> Result<
    Seq<Seq<CellView>>,
    ReadErrorView,
>
    decreases schema.len(),
{
    if schema.len() == 0 {
        Ok(Seq::empty())
    } else {
        match columns_spec(schema.drop_last(), rows) {
            Err(e) => Err(e),
            Ok(columns) => match column_spec(schema.last().kind, rows) {
                Err(e) => Err(e),
                Ok(c) => Ok(columns.push(c)),
            },
        }
    }
}

/// What a batch holds: its schema, one column per schema field, and its
/// number of rows.
pub struct BatchView {
    pub fields: Seq<SchemaField>,
    pub columns: Seq<Seq<CellView>>,
    pub num_rows: nat,
}

/// The batch of `rows` under `schema`, or the first error that a row raises.
pub open spec fn batch_spec(schema: Seq<SchemaField>, rows: Seq<RecordView>) -> Result<
    BatchView,
    ReadErrorView,
> {
    match columns_spec(schema, rows) {
        Ok(columns) => Ok(BatchView { fields: schema, columns, num_rows: rows.len() }),
        Err(e) => Err(e),
    }
}

/// A table of `num_rows` rows in column-major order: column `j` holds the
/// entries of schema field `j`, one per row, in the order the records came.
#[derive(Debug)]
pub struct ColumnBatch {
    fields: Vec<SchemaField>,
    columns: Vec<Vec<Cell>>,
    num_rows: usize,
}

impl View for ColumnBatch {
    type V = BatchView;

    closed spec fn view(&self) -> BatchView {
        BatchView {
            fields: self.fields@,
            columns: self.columns@.map_values(|c: Vec<Cell>| cells_view(c@)),
            num_rows: self.num_rows as nat,
        }
    }
}

/// The view of a batch or of the error that took its place.
pub open spec fn batch_result_view(r: Result<ColumnBatch, ReadError>) -> Result<
    BatchView,
    ReadErrorView,
> {
    match r {
        Ok(b) => Ok(b@),
        Err(e) => Err(e@),
    }
}

impl ColumnBatch {
    /// The schema of the batch.
    pub fn fields(&self) -> (r: &Vec<SchemaField>)
        ensures
            r@ == self@.fields,
    {
        &self.fields
    }

    /// The number of rows.
    pub fn num_rows(&self) -> (r: usize)
        ensures
            r as nat == self@.num_rows,
    {
        self.num_rows
    }

    /// The number of columns.
    pub fn num_columns(&self) -> (r: usize)
        ensures
            r as nat == self@.columns.len(),
    {
        self.columns.len()
    }

    /// Column `j`, one entry per row.
    pub fn column(&self, j: usize) -> (r: &Vec<Cell>)
        requires
            j < self@.columns.len(),
        ensures
            cells_view(r@) == self@.columns[j as int],
    {
        &self.columns[j]
    }
}

proof fn lemma_column_error_persists(kind: FieldKind, rows: Seq<RecordView>, i: int)
    requires
        0 <= i <= rows.len(),
        column_spec(kind, rows.subrange(0, i)) is Err,
    ensures
        column_spec(kind, rows) == column_spec(kind, rows.subrange(0, i)),
    decreases rows.len() - i,
{
    if i < rows.len() {
        let p = rows.subrange(0, i + 1);
        assert(p.drop_last() =~= rows.subrange(0, i));
        lemma_column_error_persists(kind, rows, i + 1);
    } else {
        assert(rows.subrange(0, i) =~= rows);
    }
}

proof fn lemma_columns_error_persists(schema: Seq<SchemaField>, rows: Seq<RecordView>, j: int)
    requires
        0 <= j <= schema.len(),
        columns_spec(schema.subrange(0, j), rows) is Err,
    ensures
        columns_spec(schema, rows) == columns_spec(schema.subrange(0, j), rows),
    decreases schema.len() - j,
{
    if j < schema.len() {
        let p = schema.subrange(0, j + 1);
        assert(p.drop_last() =~= schema.subrange(0, j));
        lemma_columns_error_persists(schema, rows, j + 1);
    } else {
        assert(schema.subrange(0, j) =~= schema);
    }
}

proof fn lemma_cell_error_names_field(kind: FieldKind, r: RecordView)
    ensures
        cell_spec(kind, r) matches Err(e) ==> e.field() == Some(kind),
{
}

proof fn lemma_column_cells(kind: FieldKind, rows: Seq<RecordView>)
    ensures
        column_spec(kind, rows) is Ok <==> forall|i: int|
            0 <= i < rows.len() ==> #[trigger] cell_spec(kind, rows[i]) is Ok,
        column_spec(kind, rows) matches Ok(c) ==> c.len() == rows.len() && forall|i: int|
            0 <= i < rows.len() ==> Ok::<CellView, ReadErrorView>(#[trigger] c[i]) == cell_spec(
                kind,
                rows[i],
            ),
        column_spec(kind, rows) matches Err(e) ==> exists|i: int|
            0 <= i < rows.len() && #[trigger] cell_spec(kind, rows[i]) == Err::<CellView, ReadErrorView>(e),
    decreases rows.len(),
{
    if rows.len() > 0 {
        let p = rows.drop_last();
        lemma_column_cells(kind, p);
        assert forall|i: int| 0 <= i < p.len() implies p[i] == rows[i] by {}
        if column_spec(kind, p) is Ok {
            if let Err(e) = column_spec(kind, rows) {
                assert(cell_spec(kind, rows[rows.len() - 1]) == Err::<CellView, ReadErrorView>(e));
            }
        }
    }
}

proof fn lemma_columns_cells(schema: Seq<SchemaField>, rows: Seq<RecordView>)
    ensures
        columns_spec(schema, rows) is Ok <==> forall|j: int|
            0 <= j < schema.len() ==> #[trigger] column_spec(schema[j].kind, rows) is Ok,
        columns_spec(schema, rows) matches Ok(cs) ==> cs.len() == schema.len() && forall|j: int|
            0 <= j < schema.len() ==> Ok::<Seq<CellView>, ReadErrorView>(#[trigger] cs[j])
                == column_spec(schema[j].kind, rows),
        columns_spec(schema, rows) matches Err(e) ==> exists|j: int|
            0 <= j < schema.len() && #[trigger] column_spec(schema[j].kind, rows) == Err::<
                Seq<CellView>,
                ReadErrorView,
            >(e),
    decreases schema.len(),
{
    if schema.len() > 0 {
        let p = schema.drop_last();
        lemma_columns_cells(p, rows);
        assert forall|j: int| 0 <= j < p.len() implies p[j] == schema[j] by {}
        let last = schema[schema.len() - 1];
        if columns_spec(p, rows) is Ok {
            if column_spec(last.kind, rows) is Ok {
                assert forall|j: int| 0 <= j < schema.len() implies #[trigger] column_spec(
                    schema[j].kind,
                    rows,
                ) is Ok by {
                    if j < p.len() {
                        assert(p[j] == schema[j]);
                        assert(column_spec(p[j].kind, rows) is Ok);
                    } else {
                        assert(schema[j] == last);
                    }
                }
            } else {
                assert(!(column_spec(schema[schema.len() - 1].kind, rows) is Ok));
            }
        } else {
            let j = choose|j: int| 0 <= j < p.len() && !(#[trigger] column_spec(p[j].kind, rows) is Ok);
            assert(!(column_spec(schema[j].kind, rows) is Ok));
        }
    }
}

/// A batch built without error has the schema's columns, in the schema's
/// order and with its names and types, whatever the records hold; each column
/// has one entry per record, and the entry of field `j` at row `i` is what
/// that field takes for record `i`.
pub proof fn lemma_batch_follows_schema(schema: Seq<SchemaField>, rows: Seq<RecordView>)
    ensures
        batch_spec(schema, rows) matches Ok(b) ==> {
            &&& b.fields == schema
            &&& b.num_rows == rows.len()
            &&& b.columns.len() == schema.len()
            &&& forall|j: int| 0 <= j < schema.len() ==> (#[trigger] b.columns[j]).len() == rows.len()
            &&& forall|j: int, i: int|
                0 <= j < schema.len() && 0 <= i < rows.len() ==> Ok::<CellView, ReadErrorView>(
                    #[trigger] b.columns[j][i],
                ) == cell_spec(schema[j].kind, rows[i])
        },
{
    lemma_columns_cells(schema, rows);
    if let Ok(b) = batch_spec(schema, rows) {
        assert forall|j: int| 0 <= j < schema.len() implies (#[trigger] b.columns[j]).len()
            == rows.len() by {
            lemma_column_cells(schema[j].kind, rows);
        }
        assert forall|j: int, i: int| 0 <= j < schema.len() && 0 <= i < rows.len() implies Ok::<
            CellView,
            ReadErrorView,
        >(#[trigger] b.columns[j][i]) == cell_spec(schema[j].kind, rows[i]) by {
            lemma_column_cells(schema[j].kind, rows);
        }
    }
}

/// A batch is built without error exactly when every field takes a value
/// for every record.
pub proof fn lemma_batch_ok_iff_every_cell_ok(schema: Seq<SchemaField>, rows: Seq<RecordView>)
    ensures
        batch_spec(schema, rows) is Ok <==> forall|j: int, i: int|
            0 <= j < schema.len() && 0 <= i < rows.len() ==> #[trigger] cell_spec(
                schema[j].kind,
                rows[i],
            ) is Ok,
{
    lemma_columns_cells(schema, rows);
    if batch_spec(schema, rows) is Ok {
        assert forall|j: int, i: int| 0 <= j < schema.len() && 0 <= i < rows.len() implies #[trigger] cell_spec(
            schema[j].kind,
            rows[i],
        ) is Ok by {
            lemma_column_cells(schema[j].kind, rows);
            assert(column_spec(schema[j].kind, rows) is Ok);
        }
    } else if forall|j: int, i: int|
        0 <= j < schema.len() && 0 <= i < rows.len() ==> #[trigger] cell_spec(schema[j].kind, rows[i]) is Ok {
        assert forall|j: int| 0 <= j < schema.len() implies #[trigger] column_spec(schema[j].kind, rows) is Ok by {
            lemma_column_cells(schema[j].kind, rows);
            assert forall|i: int| 0 <= i < rows.len() implies #[trigger] cell_spec(schema[j].kind, rows[i]) is Ok by {
                assert(cell_spec(schema[j].kind, rows[i]) is Ok);
            }
        }
    }
}

/// Where record `i` lacks the optional header of field `j`, the batch holds
/// a null at that row of that column, not a default value.
pub proof fn lemma_absent_optional_header_is_null(
    schema: Seq<SchemaField>,
    rows: Seq<RecordView>,
    j: int,
    i: int,
)
    requires
        0 <= j < schema.len(),
        0 <= i < rows.len(),
        schema[j].kind is Header,
        !schema[j].kind->Header_0.is_mandatory(),
        rows[i].header(schema[j].kind->Header_0) is None,
    ensures
        batch_spec(schema, rows) matches Ok(b) ==> b.columns[j][i] == CellView::Null,
{
    lemma_batch_follows_schema(schema, rows);
}

/// Where some field cannot take a value for some record (a mandatory header
/// that is absent or unreadable, or an unreadable count), no batch comes
/// out: the error names a field of the schema that a record fails on, and it
/// is the error of that field and record.
pub proof fn lemma_malformed_field_fails_batch(
    schema: Seq<SchemaField>,
    rows: Seq<RecordView>,
    j: int,
    i: int,
)
    requires
        0 <= j < schema.len(),
        0 <= i < rows.len(),
        cell_spec(schema[j].kind, rows[i]) is Err,
    ensures
        batch_spec(schema, rows) matches Err(e) && exists|k: int, l: int|
            0 <= k < schema.len() && 0 <= l < rows.len() && #[trigger] cell_spec(schema[k].kind, rows[l])
                == Err::<CellView, ReadErrorView>(e) && e.field() == Some(schema[k].kind),
{
    lemma_batch_ok_iff_every_cell_ok(schema, rows);
    lemma_columns_cells(schema, rows);
    if let Err(e) = batch_spec(schema, rows) {
        let k = choose|k: int| 0 <= k < schema.len() && #[trigger] column_spec(schema[k].kind, rows) == Err::<
            Seq<CellView>,
            ReadErrorView,
        >(e);
        lemma_column_cells(schema[k].kind, rows);
        let l = choose|l: int| 0 <= l < rows.len() && #[trigger] cell_spec(schema[k].kind, rows[l]) == Err::<CellView, ReadErrorView>(e);
        lemma_cell_error_names_field(schema[k].kind, rows[l]);
    }
}

/// Builds the batch of `records` under `schema`: for each field in order,
/// the entry of every record in order. The first record that raises an error
/// for a field ends the work, and that error is returned in place of the
/// batch.
pub fn build_record_batch(schema: &Vec<SchemaField>, records: &Vec<WarcRecord>) -> (r: Result<
    ColumnBatch,
    ReadError,
>)
    ensures
        batch_result_view(r) == batch_spec(schema@, records_view(records@)),
{
    let ghost rows = records_view(records@);
    let mut columns: Vec<Vec<Cell>> = Vec::new();
    let mut j: usize = 0;
    assert(schema@.subrange(0, 0) =~= Seq::<SchemaField>::empty());
    assert(columns@.map_values(|c: Vec<Cell>| cells_view(c@)) =~= Seq::<Seq<CellView>>::empty());
    while j < schema.len()
        invariant
            j <= schema@.len(),
            rows == records_view(records@),
            columns_spec(schema@.subrange(0, j as int), rows) == Ok::<Seq<Seq<CellView>>, ReadErrorView>(
                columns@.map_values(|c: Vec<Cell>| cells_view(c@)),
            ),
        decreases schema@.len() - j,
    {
        let kind = schema[j].kind;
        let mut column: Vec<Cell> = Vec::new();
        let mut i: usize = 0;
        assert(rows.subrange(0, 0) =~= Seq::<RecordView>::empty());
        assert(cells_view(column@) =~= Seq::<CellView>::empty());
        while i < records.len()
            invariant
                i <= records@.len(),
                j < schema@.len(),
                kind == schema@[j as int].kind,
                rows == records_view(records@),
                columns_spec(schema@.subrange(0, j as int), rows) == Ok::<Seq<Seq<CellView>>, ReadErrorView>(
                    columns@.map_values(|c: Vec<Cell>| cells_view(c@)),
                ),
                column_spec(kind, rows.subrange(0, i as int)) == Ok::<Seq<CellView>, ReadErrorView>(
                    cells_view(column@),
                ),
            decreases records@.len() - i,
        {
            let cell = extract_cell(kind, &records[i]);
            proof {
                let p = rows.subrange(0, i + 1);
                assert(p.drop_last() =~= rows.subrange(0, i as int));
                assert(p.last() == records@[i as int]@);
            }
            match cell {
                Ok(c) => {
                    let ghost before = column@;
                    let ghost cv = c@;
                    column.push(c);
                    assert(cells_view(column@) =~= cells_view(before).push(cv));
                },
                Err(e) => {
                    proof {
                        lemma_column_error_persists(kind, rows, i + 1);
                        assert(rows.subrange(0, rows.len() as int) =~= rows);
                        let q = schema@.subrange(0, j + 1);
                        assert(q.drop_last() =~= schema@.subrange(0, j as int));
                        lemma_columns_error_persists(schema@, rows, j + 1);
                    }
                    return Err(e);
                },
            }
            i = i + 1;
        }
        proof {
            assert(rows.subrange(0, records@.len() as int) =~= rows);
            let q = schema@.subrange(0, j + 1);
            assert(q.drop_last() =~= schema@.subrange(0, j as int));
        }
        let ghost before = columns@;
        let ghost cv = cells_view(column@);
        columns.push(column);
        assert(columns@.map_values(|c: Vec<Cell>| cells_view(c@)) =~= before.map_values(
            |c: Vec<Cell>| cells_view(c@),
        ).push(cv));
        j = j + 1;
    }
    assert(schema@.subrange(0, schema@.len() as int) =~= schema@);
    let fields = schema.clone();
    assert(fields@ =~= schema@);
    Ok(ColumnBatch { fields, columns, num_rows: records.len() })
}

} // verus!
