//! Collecting pulled records into batches.
//!
//! The record source is pulled one item at a time by the caller: an
//! [`IterReader`] is told each item with [`IterReader::feed`] and answers
//! whether it needs another one, has a batch (or an error) ready, or has seen
//! the end of the source.

use vstd::prelude::*;

use crate::batch::{batch_result_view, batch_spec, build_record_batch, BatchView, ColumnBatch};
use crate::record::{RecordView, WarcRecord};
use crate::record_columns::{ReadError, ReadErrorView};
use crate::schema::{warc_1_0_fields, warc_1_0_schema, SchemaField};

verus! {

/// The number of records per batch unless another is set.
pub const DEFAULT_BATCH_SIZE: usize = 8192;

/// Why a reader could not be built.
#[derive(Clone, Copy, Debug, PartialEq, Eq, Structural)]
pub enum ConfigError {
    /// Batches of zero records were asked for.
    ZeroBatchSize,
}

/// The settings of a reader: its schema and the number of records per batch.
pub struct ReaderView {
    pub schema: Seq<SchemaField>,
    pub batch_size: nat,
}

/// Gathers the settings of a [`WarcToArrowReader`].
pub struct WarcToArrowReaderBuilder {
    schema: Vec<SchemaField>,
    batch_size: usize,
}

impl View for WarcToArrowReaderBuilder {
    type V = ReaderView;

    closed spec fn view(&self) -> ReaderView {
        ReaderView { schema: self.schema@, batch_size: self.batch_size as nat }
    }
}

impl WarcToArrowReaderBuilder {
    /// Settings with the WARC 1.0 schema and batches of `DEFAULT_BATCH_SIZE`.
    pub fn new() -> (r: WarcToArrowReaderBuilder)
        ensures
            r@.schema == warc_1_0_fields(),
            r@.batch_size == DEFAULT_BATCH_SIZE,
    {
        WarcToArrowReaderBuilder { schema: warc_1_0_schema(), batch_size: DEFAULT_BATCH_SIZE }
    }

    /// These settings with `schema` in place of the schema.
    pub fn with_schema(self, schema: Vec<SchemaField>) -> (r: WarcToArrowReaderBuilder)
        ensures
            r@.schema == schema@,
            r@.batch_size == self@.batch_size,
    {
        WarcToArrowReaderBuilder { schema, batch_size: self.batch_size }
    }

    /// These settings with batches of `batch_size` records.
    pub fn with_batch_size(self, batch_size: usize) -> (r: WarcToArrowReaderBuilder)
        ensures
            r@.schema == self@.schema,
            r@.batch_size == batch_size,
    {
        WarcToArrowReaderBuilder { schema: self.schema, batch_size }
    }

    /// A reader with these settings; a batch size of zero is refused.
    pub fn build(self) -> (r: Result<WarcToArrowReader, ConfigError>)
        ensures
            self@.batch_size == 0 ==> r == Err::<WarcToArrowReader, ConfigError>(
                ConfigError::ZeroBatchSize,
            ),
            self@.batch_size > 0 ==> (r matches Ok(reader) && reader@ == self@),
    {
        if self.batch_size == 0 {
            Err(ConfigError::ZeroBatchSize)
        } else {
            Ok(WarcToArrowReader { schema: self.schema, batch_size: self.batch_size })
        }
    }
}

/// The settings for turning WARC records into batches: a schema and a
/// positive number of records per batch.
pub struct WarcToArrowReader {
    schema: Vec<SchemaField>,
    batch_size: usize,
}

impl View for WarcToArrowReader {
    type V = ReaderView;

    closed spec fn view(&self) -> ReaderView {
        ReaderView { schema: self.schema@, batch_size: self.batch_size as nat }
    }
}

impl WarcToArrowReader {
    #[verifier::type_invariant]
    spec fn positive_batch_size(self) -> bool {
        self.batch_size > 0
    }

    /// Settings to build a reader from, starting from the defaults.
    pub fn builder() -> (r: WarcToArrowReaderBuilder)
        ensures
            r@.schema == warc_1_0_fields(),
            r@.batch_size == DEFAULT_BATCH_SIZE,
    {
        WarcToArrowReaderBuilder::new()
    }

    /// The schema of the batches.
    pub fn schema(&self) -> (r: &Vec<SchemaField>)
        ensures
            r@ == self@.schema,
    {
        &self.schema
    }

    /// The number of records per batch.
    pub fn batch_size(&self) -> (r: usize)
        ensures
            r == self@.batch_size,
            r > 0,
    {
        proof {
            use_type_invariant(self);
        }
        self.batch_size
    }

    /// A fresh collector of batches with these settings, at the start of a
    /// source.
    pub fn iter_reader(&self) -> (r: IterReader)
        ensures
            r@ == initial_state(self@.schema, self@.batch_size),
    {
        proof {
            use_type_invariant(self);
        }
        let schema = self.schema.clone();
        assert(schema@ =~= self.schema@);
        let rows: Vec<WarcRecord> = Vec::new();
        assert(crate::batch::records_view(rows@) =~= Seq::<RecordView>::empty());
        IterReader { schema, batch_size: self.batch_size, rows, stream_ended: false }
    }
}

/// One item pulled from a record source.
pub enum Pulled {
    /// A well-framed record.
    Record(WarcRecord),
    /// The source could not frame or parse the next record.
    Failed(String),
    /// The source has no more records.
    End,
}

/// What a `Pulled` holds.
pub enum PulledView {
    Record(RecordView),
    Failed(Seq<char>),
    End,
}

impl View for Pulled {
    type V = PulledView;

    open spec fn view(&self) -> PulledView {
        match self {
            Pulled::Record(r) => PulledView::Record(r@),
            Pulled::Failed(m) => PulledView::Failed(m@),
            Pulled::End => PulledView::End,
        }
    }
}

/// What the collector asks for after an item.
pub enum Step {
    /// Pull the next item and feed it.
    Pull,
    /// A batch, or the error that took its place, is ready.
    Emit(Result<ColumnBatch, ReadError>),
    /// The source has ended and no batch is left.
    Done,
}

/// What a `Step` holds.
pub enum StepView {
    Pull,
    Emit(Result<BatchView, ReadErrorView>),
    Done,
}

impl View for Step {
    type V = StepView;

    open spec fn view(&self) -> StepView {
        match self {
            Step::Pull => StepView::Pull,
            Step::Emit(r) => StepView::Emit(batch_result_view(*r)),
            Step::Done => StepView::Done,
        }
    }
}

/// The state of a collector: its settings, the records of the batch being
/// gathered, and whether the source has ended.
pub struct IterView {
    pub schema: Seq<SchemaField>,
    pub batch_size: nat,
    pub rows: Seq<RecordView>,
    pub ended: bool,
}

/// The state at the start of a source.
pub open spec fn initial_state(schema: Seq<SchemaField>, batch_size: nat) -> IterView {
    IterView { schema, batch_size, rows: Seq::empty(), ended: false }
}

/// The next state and the answer after `item` is fed in state `st`. An error
/// from the source is handed on at once and the records gathered so far are
/// dropped. A record is gathered; once `batch_size` are, their batch is
/// handed out. At the end of the source the records gathered, if any, are
/// handed out as a last, shorter batch.
pub open spec fn feed_spec(st: IterView, item: PulledView) -> (IterView, StepView) {
    match item {
        PulledView::Failed(m) => (
            IterView { rows: Seq::empty(), ..st },
            StepView::Emit(Err(ReadErrorView::Source { message: m })),
        ),
        PulledView::End => (
            IterView { rows: Seq::empty(), ended: true, ..st },
            if st.rows.len() == 0 {
                StepView::Done
            } else {
                StepView::Emit(batch_spec(st.schema, st.rows))
            },
        ),
        PulledView::Record(r) => if st.rows.len() + 1 >= st.batch_size {
            (
                IterView { rows: Seq::empty(), ..st },
                StepView::Emit(batch_spec(st.schema, st.rows.push(r))),
            )
        } else {
            (IterView { rows: st.rows.push(r), ..st }, StepView::Pull)
        },
    }
}

/// What a step hands out: the batch or error it emits, if any.
pub open spec fn emitted(step: StepView) -> Seq<Result<BatchView, ReadErrorView>> {
    match step {
        StepView::Emit(o) => seq![o],
        _ => Seq::empty(),
    }
}

/// Everything handed out when, from state `st`, the items of `src` are fed
/// one by one for as long as the source has not ended: what a caller gets
/// who checks `is_exhausted` before each pull.
pub open spec fn drive(st: IterView, src: Seq<PulledView>) -> Seq<Result<BatchView, ReadErrorView>>
    decreases src.len(),
{
    if st.ended || src.len() == 0 {
        Seq::empty()
    } else {
        let (next, step) = feed_spec(st, src[0]);
        emitted(step) + drive(next, src.skip(1))
    }
}

/// A source that yields the records `rs`, in order, and then ends.
pub open spec fn records_source(rs: Seq<RecordView>) -> Seq<PulledView> {
    rs.map_values(|r: RecordView| PulledView::Record(r)).push(PulledView::End)
}

/// The number of rows of a batch, none for an error.
pub open spec fn rows_of(o: Result<BatchView, ReadErrorView>) -> nat {
    match o {
        Ok(b) => b.num_rows,
        Err(_) => 0,
    }
}

/// The number of rows over all the batches handed out.
pub open spec fn total_rows(out: Seq<Result<BatchView, ReadErrorView>>) -> nat
    decreases out.len(),
{
    if out.len() == 0 {
        0
    } else {
        rows_of(out[0]) + total_rows(out.skip(1))
    }
}

/// Whether every field of `schema` takes a value for record `r`.
pub open spec fn well_formed(schema: Seq<SchemaField>, r: RecordView) -> bool {
    forall|j: int| 0 <= j < schema.len() ==> #[trigger] crate::record_columns::cell_spec(schema[j].kind, r) is Ok
}

/// Whether every record of `rs` is well formed for `schema`.
pub open spec fn all_well_formed(schema: Seq<SchemaField>, rs: Seq<RecordView>) -> bool {
    forall|i: int| 0 <= i < rs.len() ==> well_formed(schema, #[trigger] rs[i])
}

proof fn lemma_full_batch(schema: Seq<SchemaField>, rows: Seq<RecordView>)
    requires
        all_well_formed(schema, rows),
    ensures
        batch_spec(schema, rows) is Ok,
        rows_of(batch_spec(schema, rows)) == rows.len(),
{
    crate::batch::lemma_batch_ok_iff_every_cell_ok(schema, rows);
    assert forall|j: int, i: int| 0 <= j < schema.len() && 0 <= i < rows.len() implies #[trigger] crate::record_columns::cell_spec(
        schema[j].kind,
        rows[i],
    ) is Ok by {
        assert(well_formed(schema, rows[i]));
    }
}

proof fn lemma_source_tail(rs: Seq<RecordView>)
    requires
        rs.len() > 0,
    ensures
        records_source(rs)[0] == PulledView::Record(rs[0]),
        records_source(rs).skip(1) =~= records_source(rs.skip(1)),
{
}

proof fn lemma_drive_records(st: IterView, rs: Seq<RecordView>)
    requires
        !st.ended,
        st.batch_size > 0,
        st.rows.len() < st.batch_size,
        all_well_formed(st.schema, st.rows),
        all_well_formed(st.schema, rs),
    ensures
        ({
            let out = drive(st, records_source(rs));
            &&& total_rows(out) == st.rows.len() + rs.len()
            &&& (out.len() == 0 <==> st.rows.len() + rs.len() == 0)
            &&& forall|k: int| 0 <= k < out.len() ==> (#[trigger] out[k]) is Ok
            &&& forall|k: int| 0 <= k < out.len() - 1 ==> rows_of(#[trigger] out[k]) == st.batch_size
            &&& out.len() > 0 ==> 1 <= rows_of(out[out.len() - 1]) <= st.batch_size
        }),
    decreases rs.len(),
{
    let src = records_source(rs);
    let out = drive(st, src);
    if rs.len() == 0 {
        assert(src[0] == PulledView::End);
        let (next, step) = feed_spec(st, src[0]);
        assert(next.ended);
        assert(drive(next, src.skip(1)) == Seq::<Result<BatchView, ReadErrorView>>::empty());
        if st.rows.len() > 0 {
            lemma_full_batch(st.schema, st.rows);
            assert(out =~= seq![batch_spec(st.schema, st.rows)]);
            assert(out.skip(1) =~= Seq::<Result<BatchView, ReadErrorView>>::empty());
            assert(total_rows(out.skip(1)) == 0);
            assert(total_rows(out) == st.rows.len());
        } else {
            assert(out =~= Seq::<Result<BatchView, ReadErrorView>>::empty());
        }
    } else {
        lemma_source_tail(rs);
        let r = rs[0];
        let rest = rs.skip(1);
        assert(all_well_formed(st.schema, rest)) by {
            assert forall|i: int| 0 <= i < rest.len() implies well_formed(st.schema, #[trigger] rest[i]) by {
                assert(rest[i] == rs[i + 1]);
            }
        }
        let (next, step) = feed_spec(st, PulledView::Record(r));
        assert(well_formed(st.schema, rs[0]));
        if st.rows.len() + 1 >= st.batch_size {
            let full = st.rows.push(r);
            assert(all_well_formed(st.schema, full)) by {
                assert forall|i: int| 0 <= i < full.len() implies well_formed(st.schema, #[trigger] full[i]) by {
                    if i < st.rows.len() {
                        assert(full[i] == st.rows[i]);
                    }
                }
            }
            lemma_full_batch(st.schema, full);
            assert(next.rows =~= Seq::<RecordView>::empty());
            assert(all_well_formed(next.schema, next.rows));
            lemma_drive_records(next, rest);
            let tail = drive(next, records_source(rest));
            assert(out =~= seq![batch_spec(st.schema, full)] + tail);
            assert(out.skip(1) =~= tail);
            assert forall|k: int| 0 <= k < out.len() implies (#[trigger] out[k]) is Ok by {
                if k > 0 {
                    assert(out[k] == tail[k - 1]);
                }
            }
            assert forall|k: int| 0 <= k < out.len() - 1 implies rows_of(#[trigger] out[k]) == st.batch_size by {
                if k > 0 {
                    assert(out[k] == tail[k - 1]);
                }
            }
            if tail.len() > 0 {
                assert(out[out.len() - 1] == tail[tail.len() - 1]);
            }
            assert(total_rows(out) == rows_of(out[0]) + total_rows(tail));
            assert(rows_of(out[0]) == st.rows.len() + 1);
            assert(total_rows(out) == st.rows.len() + rs.len());
            assert(out.len() > 0);
        } else {
            assert(next.rows == st.rows.push(r));
            assert(all_well_formed(next.schema, next.rows)) by {
                assert forall|i: int| 0 <= i < next.rows.len() implies well_formed(next.schema, #[trigger] next.rows[i]) by {
                    if i < st.rows.len() {
                        assert(next.rows[i] == st.rows[i]);
                    }
                }
            }
            lemma_drive_records(next, rest);
            assert(out =~= drive(next, records_source(rest)));
            assert(total_rows(out) == st.rows.len() + rs.len());
        }
    }
}

/// With no error in the source, the batches handed out hold, all together,
/// exactly as many rows as the source has records, and none is an error.
pub proof fn lemma_rows_conserved(schema: Seq<SchemaField>, batch_size: nat, rs: Seq<RecordView>)
    requires
        batch_size > 0,
        all_well_formed(schema, rs),
    ensures
        total_rows(drive(initial_state(schema, batch_size), records_source(rs))) == rs.len(),
        forall|k: int|
            0 <= k < drive(initial_state(schema, batch_size), records_source(rs)).len() ==> (#[trigger] drive(
                initial_state(schema, batch_size),
                records_source(rs),
            )[k]) is Ok,
{
    lemma_drive_records(initial_state(schema, batch_size), rs);
}

/// With no error in the source, every batch but the last has `batch_size`
/// rows and the last has between one and `batch_size`; an empty source gives
/// no batch at all.
pub proof fn lemma_batches_full_but_last(schema: Seq<SchemaField>, batch_size: nat, rs: Seq<RecordView>)
    requires
        batch_size > 0,
        all_well_formed(schema, rs),
    ensures
        ({
            let out = drive(initial_state(schema, batch_size), records_source(rs));
            &&& (out.len() == 0 <==> rs.len() == 0)
            &&& forall|k: int| 0 <= k < out.len() - 1 ==> rows_of(#[trigger] out[k]) == batch_size
            &&& out.len() > 0 ==> 1 <= rows_of(out[out.len() - 1]) <= batch_size
        }),
{
    lemma_drive_records(initial_state(schema, batch_size), rs);
}

/// Whatever the source yields, errors included: every batch handed out has
/// between one and `batch_size` rows, and every batch but the last thing
/// handed out has exactly `batch_size` rows. A source that ends at once gives
/// nothing at all.
pub proof fn lemma_only_last_batch_short(schema: Seq<SchemaField>, batch_size: nat, src: Seq<PulledView>)
    requires
        batch_size > 0,
    ensures
        ({
            let out = drive(initial_state(schema, batch_size), src);
            &&& forall|k: int|
                0 <= k < out.len() ==> ((#[trigger] out[k]) matches Ok(b) ==> 1 <= b.num_rows
                    <= batch_size)
            &&& forall|k: int|
                0 <= k < out.len() - 1 ==> ((#[trigger] out[k]) matches Ok(b) ==> b.num_rows
                    == batch_size)
        }),
        drive(initial_state(schema, batch_size), seq![PulledView::End]).len() == 0,
{
    lemma_batch_sizes(initial_state(schema, batch_size), src);
    let s0 = initial_state(schema, batch_size);
    let end = seq![PulledView::End];
    let (s1, t) = feed_spec(s0, end[0]);
    assert(drive(s1, end.skip(1)) == Seq::<Result<BatchView, ReadErrorView>>::empty());
    assert(drive(s0, end) =~= Seq::<Result<BatchView, ReadErrorView>>::empty());
}

proof fn lemma_batch_sizes(st: IterView, src: Seq<PulledView>)
    requires
        st.batch_size > 0,
        st.rows.len() < st.batch_size,
    ensures
        ({
            let out = drive(st, src);
            &&& forall|k: int|
                0 <= k < out.len() ==> ((#[trigger] out[k]) matches Ok(b) ==> 1 <= b.num_rows
                    <= st.batch_size)
            &&& forall|k: int|
                0 <= k < out.len() - 1 ==> ((#[trigger] out[k]) matches Ok(b) ==> b.num_rows
                    == st.batch_size)
        }),
    decreases src.len(),
{
    if !st.ended && src.len() > 0 {
        let (next, step) = feed_spec(st, src[0]);
        lemma_batch_sizes(next, src.skip(1));
        let tail = drive(next, src.skip(1));
        let out = drive(st, src);
        assert(out == emitted(step) + tail);
        if next.ended {
            assert(tail == Seq::<Result<BatchView, ReadErrorView>>::empty());
        }
        if let StepView::Emit(o) = step {
            assert(out =~= seq![o] + tail);
            assert forall|k: int| 0 < k < out.len() implies out[k] == tail[k - 1] by {}
            match src[0] {
                PulledView::Record(r) => {
                    assert(st.rows.push(r).len() == st.batch_size);
                },
                _ => {},
            }
        } else {
            assert(out =~= tail);
        }
    }
}

/// With one record per batch, two records give two batches, each of one
/// record, in the order of the source.
pub proof fn lemma_one_record_per_batch(schema: Seq<SchemaField>, r0: RecordView, r1: RecordView)
    ensures
        drive(initial_state(schema, 1), records_source(seq![r0, r1])) == seq![
            batch_spec(schema, seq![r0]),
            batch_spec(schema, seq![r1]),
        ],
{
    let src = records_source(seq![r0, r1]);
    let s0 = initial_state(schema, 1);
    assert(src[0] == PulledView::Record(r0));
    assert(src[1] == PulledView::Record(r1));
    assert(src[2] == PulledView::End);
    let (s1, t0) = feed_spec(s0, src[0]);
    assert(Seq::<RecordView>::empty().push(r0) =~= seq![r0]);
    assert(Seq::<RecordView>::empty().push(r1) =~= seq![r1]);
    let src1 = src.skip(1);
    assert(src1[0] == PulledView::Record(r1));
    let (s2, t1) = feed_spec(s1, src1[0]);
    let src2 = src1.skip(1);
    assert(src2[0] == PulledView::End);
    let (s3, t2) = feed_spec(s2, src2[0]);
    assert(s3.ended);
    assert(drive(s3, src2.skip(1)) =~= Seq::<Result<BatchView, ReadErrorView>>::empty());
    assert(drive(s2, src2) =~= Seq::<Result<BatchView, ReadErrorView>>::empty());
    assert(drive(s1, src1) =~= seq![batch_spec(schema, seq![r1])]);
    assert(drive(s0, src) =~= seq![batch_spec(schema, seq![r0]), batch_spec(schema, seq![r1])]);
}

/// When the source fails on its third item and a batch has room for three
/// records or more, the call that covers that item hands out the source's
/// error alone: the two records gathered before it are dropped and never
/// handed out, and collection goes on from the next item with nothing
/// gathered.
pub proof fn lemma_source_error_drops_gathered(
    schema: Seq<SchemaField>,
    batch_size: nat,
    r0: RecordView,
    r1: RecordView,
    message: Seq<char>,
    rest: Seq<PulledView>,
)
    requires
        batch_size >= 3,
    ensures
        drive(
            initial_state(schema, batch_size),
            seq![PulledView::Record(r0), PulledView::Record(r1), PulledView::Failed(message)] + rest,
        ) == seq![Err::<BatchView, ReadErrorView>(ReadErrorView::Source { message })] + drive(
            initial_state(schema, batch_size),
            rest,
        ),
{
    let src = seq![PulledView::Record(r0), PulledView::Record(r1), PulledView::Failed(message)] + rest;
    let s0 = initial_state(schema, batch_size);
    let (s1, t0) = feed_spec(s0, src[0]);
    let src1 = src.skip(1);
    let (s2, t1) = feed_spec(s1, src1[0]);
    let src2 = src1.skip(1);
    let (s3, t2) = feed_spec(s2, src2[0]);
    assert(src2.skip(1) =~= rest);
    assert(s3 == s0);
    assert(drive(s1, src1) == drive(s2, src2));
}

/// Collects pulled records into batches of at most `batch_size` records.
pub struct IterReader {
    schema: Vec<SchemaField>,
    batch_size: usize,
    rows: Vec<WarcRecord>,
    stream_ended: bool,
}

impl View for IterReader {
    type V = IterView;

    closed spec fn view(&self) -> IterView {
        IterView {
            schema: self.schema@,
            batch_size: self.batch_size as nat,
            rows: crate::batch::records_view(self.rows@),
            ended: self.stream_ended,
        }
    }
}

impl IterReader {
    #[verifier::type_invariant]
    spec fn partial_batch(self) -> bool {
        self.rows@.len() < self.batch_size
    }

    /// Whether the source has ended, so that nothing more is to be pulled.
    pub fn is_exhausted(&self) -> (r: bool)
        ensures
            r == self@.ended,
    {
        self.stream_ended
    }

    /// Takes in one item pulled from the source and says what comes next.
    pub fn feed(&mut self, item: Pulled) -> (r: Step)
        ensures
            final(self)@ == feed_spec(old(self)@, item@).0,
            r@ == feed_spec(old(self)@, item@).1,
    {
        proof {
            use_type_invariant(&*self);
        }
        match item {
            Pulled::Failed(message) => {
                self.rows = Vec::new();
                assert(crate::batch::records_view(self.rows@) =~= Seq::<RecordView>::empty());
                Step::Emit(Err(ReadError::Source { message }))
            },
            Pulled::End => {
                self.stream_ended = true;
                if self.rows.len() == 0 {
                    assert(crate::batch::records_view(self.rows@) =~= Seq::<RecordView>::empty());
                    Step::Done
                } else {
                    let mut rows: Vec<WarcRecord> = Vec::new();
                    std::mem::swap(&mut self.rows, &mut rows);
                    assert(crate::batch::records_view(self.rows@) =~= Seq::<RecordView>::empty());
                    Step::Emit(build_record_batch(&self.schema, &rows))
                }
            },
            Pulled::Record(record) => {
                let ghost before = crate::batch::records_view(self.rows@);
                let ghost rv = record@;
                let mut rows: Vec<WarcRecord> = Vec::new();
                std::mem::swap(&mut self.rows, &mut rows);
                rows.push(record);
                assert(crate::batch::records_view(rows@) =~= before.push(rv));
                if rows.len() >= self.batch_size {
                    assert(crate::batch::records_view(self.rows@) =~= Seq::<RecordView>::empty());
                    Step::Emit(build_record_batch(&self.schema, &rows))
                } else {
                    self.rows = rows;
                    Step::Pull
                }
            },
        }
    }
}

} // verus!
