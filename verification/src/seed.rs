//! The boundary to the storage engine: type declarations, named models of
//! what the opaque values hold, and the trusted wrappers through which all
//! calls into the engine pass. Each wrapper holds one call and the
//! conversions around it; everything around the wrappers is verified against
//! the contracts stated here.

use vstd::prelude::*;

use crate::document::FieldValue;

verus! {

#[verifier::external_type_specification]
#[verifier::external_body]
pub struct ExSchema(tantivy::schema::Schema);

#[verifier::external_type_specification]
#[verifier::external_body]
pub struct ExTextOptions(tantivy::schema::TextOptions);

#[verifier::external_type_specification]
#[verifier::external_body]
pub struct ExNumericOptions(tantivy::schema::NumericOptions);

#[verifier::external_type_specification]
#[verifier::external_body]
pub struct ExIndex(tantivy::Index);

#[verifier::external_type_specification]
#[verifier::external_body]
pub struct ExIndexWriter(tantivy::IndexWriter);

#[verifier::external_type_specification]
#[verifier::external_body]
pub struct ExIndexReader(tantivy::IndexReader);

#[verifier::external_type_specification]
#[verifier::external_body]
pub struct ExSearcher(tantivy::Searcher);

#[verifier::external_type_specification]
#[verifier::external_body]
pub struct ExDocument(tantivy::Document);

#[verifier::external_type_specification]
#[verifier::external_body]
pub struct ExTantivyError(tantivy::TantivyError);

/// The engine's equality term, opaque to verification: built and consumed
/// only by the trusted wrappers here. The verified engine carries it inside
/// `SurferTerm`, next to a ghost record of what it targets.
#[verifier::external_body]
pub struct RawTerm {
    term: tantivy::Term,
}

/// The number of fields an index's schema declares. Each index fixes it at
/// creation; `QueryParser` indexes the field table by field id, so only ids
/// below this count may be handed to a text search.
pub uninterp spec fn index_field_count(index: tantivy::Index) -> nat;

/// The number of fields a schema object declares.
pub uninterp spec fn schema_field_count(schema: tantivy::schema::Schema) -> nat;

/// What `Schema::get_field` answers for a name: the field's id when the
/// schema declares that name. A pure lookup in the schema's name table.
pub uninterp spec fn schema_field_of(schema: tantivy::schema::Schema, name: Seq<char>) -> Option<
    u32,
>;

/// What `Document::get_first` holds for a field, carried over to the
/// library's value form (a float as its decimal text): a pure read of the
/// document's stored values.
pub uninterp spec fn doc_value_of(doc: tantivy::Document, field_id: u32) -> Option<FieldValue>;

/// The document identities a searcher's view can fetch: every hit a search
/// on this searcher returns lies in this set, and `Searcher::doc` must only
/// be asked for such identities (its segment ordinal indexes the view's
/// segment list).
pub uninterp spec fn searcher_keys(searcher: tantivy::Searcher) -> Set<(u32, u32)>;

/// True when `str::parse::<f64>` accepts the text as a floating-point
/// literal (decimals, exponents, signs, infinities); a function of the text
/// alone.
pub uninterp spec fn parses_real(text: Seq<char>) -> bool;

/// What `TextOptions::is_stored` answers for a text options value.
pub uninterp spec fn text_options_stored(options: tantivy::schema::TextOptions) -> bool;

/// True when a text options value carries indexing options, so the field is
/// searchable.
pub uninterp spec fn text_options_indexed(options: tantivy::schema::TextOptions) -> bool;

/// What `NumericOptions::is_stored` answers for a numeric options value.
pub uninterp spec fn numeric_options_stored(options: tantivy::schema::NumericOptions) -> bool;

/// What `NumericOptions::is_indexed` answers for a numeric options value.
pub uninterp spec fn numeric_options_indexed(options: tantivy::schema::NumericOptions) -> bool;

pub assume_specification[ <tantivy::schema::Schema as core::clone::Clone>::clone ](
    s: &tantivy::schema::Schema,
) -> (r: tantivy::schema::Schema)
    ensures
        r == *s,
;

pub assume_specification[ <tantivy::schema::TextOptions as core::clone::Clone>::clone ](
    o: &tantivy::schema::TextOptions,
) -> (r: tantivy::schema::TextOptions)
    ensures
        r == *o,
;

pub assume_specification[ <tantivy::schema::NumericOptions as core::clone::Clone>::clone ](
    o: &tantivy::schema::NumericOptions,
) -> (r: tantivy::schema::NumericOptions)
    ensures
        r == *o,
;

/// How one field of a collection is declared to the storage engine.
pub enum FieldPlan {
    /// A tokenized text field with the given options.
    TextField(tantivy::schema::TextOptions),
    /// An unsigned integer field.
    U64Field(tantivy::schema::NumericOptions),
    /// A signed integer field.
    I64Field(tantivy::schema::NumericOptions),
    /// A floating-point field.
    F64Field(tantivy::schema::NumericOptions),
    /// A stored-only byte field.
    BytesField,
}

/// Relies on tantivy's `SchemaBuilder`: declares one field per entry, in
/// order, and builds the schema. The builder panics on a repeated field
/// name, so the entries' names must be distinct.
#[verifier::external_body]
pub(crate) fn build_schema(fields: &Vec<(String, FieldPlan)>) -> (r: tantivy::schema::Schema)
    requires
        forall|i: int, j: int|
            0 <= i < j < fields@.len() ==> (#[trigger] fields@[i]).0@ != (#[trigger] fields@[j]).0@,
{
    let mut b = tantivy::schema::Schema::builder();
    for (name, plan) in fields.iter() {
        match plan {
            FieldPlan::TextField(o) => b.add_text_field(name, o.clone()),
            FieldPlan::U64Field(o) => b.add_u64_field(name, o.clone()),
            FieldPlan::I64Field(o) => b.add_i64_field(name, o.clone()),
            FieldPlan::F64Field(o) => b.add_f64_field(name, o.clone()),
            FieldPlan::BytesField => b.add_bytes_field(name, tantivy::schema::BytesOptions::default().set_stored()),
        };
    }
    b.build()
}

/// Relies on the `TEXT` and `STORED` constants: the default for text fields,
/// tokenized (indexing options set) and stored, which `is_stored` and the
/// indexing accessor confirm of the combined value.
#[verifier::external_body]
pub(crate) fn default_text_options() -> (r: tantivy::schema::TextOptions)
    ensures
        text_options_stored(r),
        text_options_indexed(r),
{
    tantivy::schema::TEXT | tantivy::schema::STORED
}

/// Relies on `NumericOptions::set_indexed` and `set_stored`: the default for
/// numeric fields, indexed and stored.
#[verifier::external_body]
pub(crate) fn default_number_options() -> (r: tantivy::schema::NumericOptions)
    ensures
        numeric_options_stored(r),
        numeric_options_indexed(r),
{
    tantivy::schema::NumericOptions::default().set_indexed().set_stored()
}

/// Relies on tantivy's `IndexBuilder::create_in_ram`: a fresh index held
/// entirely in memory.
#[verifier::external_body]
pub(crate) fn create_index_in_ram(schema: &tantivy::schema::Schema) -> (r: Result<
    tantivy::Index,
    String,
>) {
    tantivy::IndexBuilder::new().schema(schema.clone()).create_in_ram().map_err(|e| e.to_string())
}

/// Relies on `Index::open_in_dir`: opens the index stored in the directory,
/// failing when the directory is missing or holds no index.
#[verifier::external_body]
pub(crate) fn open_index_in_dir(path: &str) -> (r: Result<tantivy::Index, String>) {
    tantivy::Index::open_in_dir(path).map_err(|e| e.to_string())
}

/// Relies on `Index::create_in_dir`: creates a new index with the given
/// schema in an existing directory.
#[verifier::external_body]
pub(crate) fn create_index_in_dir(path: &str, schema: &tantivy::schema::Schema) -> (r: Result<
    tantivy::Index,
    String,
>) {
    tantivy::Index::create_in_dir(path, schema.clone()).map_err(|e| e.to_string())
}

/// Relies on `Index::schema`: the schema the index was created with, as read
/// from storage; it declares exactly the index's fields.
#[verifier::external_body]
pub(crate) fn index_schema(index: &tantivy::Index) -> (r: tantivy::schema::Schema)
    ensures
        schema_field_count(r) == index_field_count(*index),
{
    index.schema()
}

/// Relies on `Index::writer`: a write handle bound to a fixed memory budget;
/// fails while another writer holds the index's write lock.
#[verifier::external_body]
pub(crate) fn open_index_writer(index: &tantivy::Index) -> (r: Result<
    tantivy::IndexWriter,
    String,
>) {
    index.writer(50_000_000).map_err(|e| e.to_string())
}

/// Relies on tantivy's `IndexReaderBuilder`: a read handle that refreshes its
/// view after every commit.
#[verifier::external_body]
pub(crate) fn open_index_reader(index: &tantivy::Index) -> (r: Result<
    tantivy::IndexReader,
    String,
>) {
    index.reader_builder().reload_policy(tantivy::ReloadPolicy::OnCommit).try_into().map_err(
        |e: tantivy::TantivyError| e.to_string(),
    )
}

/// Relies on `IndexReader::reload`: points the reader at the most recent
/// committed state.
#[verifier::external_body]
pub(crate) fn reader_reload(reader: &tantivy::IndexReader) -> (r: Result<(), String>) {
    reader.reload().map_err(|e| e.to_string())
}

/// Relies on `IndexReader::searcher`: a snapshot of the reader's view.
#[verifier::external_body]
pub(crate) fn reader_searcher(reader: &tantivy::IndexReader) -> tantivy::Searcher {
    reader.searcher()
}

/// Relies on `Schema::parse_document`: parses a JSON object into the engine's
/// document form, failing on a value that does not fit its field's type. A
/// field name the schema does not know is passed over silently, which is why
/// the verified insert path checks the record's names against the collection
/// mapping before calling this.
#[verifier::external_body]
pub(crate) fn parse_document(schema: &tantivy::schema::Schema, json: &str) -> (r: Result<
    tantivy::Document,
    String,
>) {
    schema.parse_document(json).map_err(|e| e.to_string())
}

/// Relies on `IndexWriter::add_document`: stages one document for the next
/// commit.
#[verifier::external_body]
pub(crate) fn writer_add_document(writer: &tantivy::IndexWriter, doc: tantivy::Document) -> (r:
    Result<u64, String>) {
    writer.add_document(doc).map_err(|e| e.to_string())
}

/// Relies on `IndexWriter::commit`: makes every staged addition and deletion
/// durable and visible to fresh reader views.
#[verifier::external_body]
pub(crate) fn writer_commit(writer: &mut tantivy::IndexWriter) -> (r: Result<u64, String>) {
    writer.commit().map_err(|e| e.to_string())
}

/// Relies on `IndexWriter::delete_term`: stages the deletion of every
/// document whose field holds exactly the term's value. The staging outlives
/// a failed commit: a later successful commit applies it.
#[verifier::external_body]
pub(crate) fn writer_delete_term(writer: &tantivy::IndexWriter, term: &RawTerm) -> u64 {
    writer.delete_term(term.term.clone())
}

/// Relies on `Schema::get_field`: the numeric id of the named field, when the
/// schema has it; every id lies below the schema's field count.
#[verifier::external_body]
pub(crate) fn schema_get_field(schema: &tantivy::schema::Schema, name: &str) -> (r: Option<u32>)
    ensures
        r == schema_field_of(*schema, name@),
        r is Some ==> (r->0 as nat) < schema_field_count(*schema),
{
    schema.get_field(name).map(|f| f.field_id())
}

/// Relies on `Schema::fields`: field ids are assigned sequentially from zero
/// in declaration order, so the list is exactly `0..count`.
#[verifier::external_body]
pub(crate) fn schema_field_ids(schema: &tantivy::schema::Schema) -> (r: Vec<u32>)
    ensures
        r@.len() == schema_field_count(*schema),
        forall|i: int| 0 <= i < r@.len() ==> (#[trigger] r@[i]) as int == i,
{
    schema.fields().map(|(f, _)| f.field_id()).collect()
}

/// Relies on `Term::from_field_u64`: an equality term on an unsigned field.
#[verifier::external_body]
pub(crate) fn term_from_u64(field_id: u32, val: u64) -> RawTerm {
    RawTerm { term: tantivy::Term::from_field_u64(tantivy::schema::Field::from_field_id(field_id), val) }
}

/// Relies on `Term::from_field_i64`: an equality term on a signed field.
#[verifier::external_body]
pub(crate) fn term_from_i64(field_id: u32, val: i64) -> RawTerm {
    RawTerm { term: tantivy::Term::from_field_i64(tantivy::schema::Field::from_field_id(field_id), val) }
}

/// Relies on `str::parse::<f64>` and `Term::from_field_f64`: reads the text
/// as a floating-point literal and builds an equality term on that value;
/// it succeeds exactly when the text is such a literal.
#[verifier::external_body]
pub(crate) fn term_from_f64_text(field_id: u32, text: &str) -> (r: Result<RawTerm, String>)
    ensures
        r is Ok <==> parses_real(text@),
{
    let val = text.parse().map_err(|e: core::num::ParseFloatError| e.to_string())?;
    Ok(RawTerm { term: tantivy::Term::from_field_f64(tantivy::schema::Field::from_field_id(field_id), val) })
}

/// Relies on `Term::from_field_text`: an equality term on one token of a text
/// field.
#[verifier::external_body]
pub(crate) fn term_from_text(field_id: u32, text: &str) -> RawTerm {
    RawTerm { term: tantivy::Term::from_field_text(tantivy::schema::Field::from_field_id(field_id), text) }
}

/// Relies on `Searcher::search` with a `TermQuery` and a `TopDocs` collector:
/// at most `limit` hits, each as its relevance score's bit pattern and the
/// hit's segment ordinal and document id; every hit is fetchable from this
/// searcher.
#[verifier::external_body]
pub(crate) fn search_term(
    searcher: &tantivy::Searcher,
    term: &RawTerm,
    limit: usize,
) -> (r: Result<Vec<(u32, u32, u32)>, String>)
    requires
        limit >= 1,
    ensures
        r is Ok ==> r->Ok_0@.len() <= limit,
        r is Ok ==> forall|j: int|
            0 <= j < r->Ok_0@.len() ==> searcher_keys(*searcher).contains(
                ((#[trigger] r->Ok_0@[j]).1, r->Ok_0@[j].2),
            ),
{
    let query = tantivy::query::TermQuery::new(term.term.clone(), tantivy::schema::IndexRecordOption::Basic);
    let hits = searcher.search(&query, &tantivy::collector::TopDocs::with_limit(limit)).map_err(
        |e| e.to_string(),
    )?;
    Ok(hits.into_iter().map(|(s, a)| (s.to_bits(), a.segment_ord, a.doc_id)).collect())
}

/// Relies on tantivy's `QueryParser` and `Searcher::search`: parses the query
/// over the given default fields and returns at most `limit` hits, each as
/// its relevance score's bit pattern and the hit's segment ordinal and
/// document id; every hit is fetchable from this searcher. The parser looks
/// the default fields up in the index's field table by id, so every given id
/// must lie below the index's field count. The error text names the stage
/// that failed.
#[verifier::external_body]
pub(crate) fn search_text(
    searcher: &tantivy::Searcher,
    index: &tantivy::Index,
    default_fields: &Vec<u32>,
    query: &str,
    limit: usize,
) -> (r: Result<Vec<(u32, u32, u32)>, String>)
    requires
        limit >= 1,
        forall|j: int|
            0 <= j < default_fields@.len() ==> ((#[trigger] default_fields@[j]) as nat)
                < index_field_count(*index),
    ensures
        r is Ok ==> r->Ok_0@.len() <= limit,
        r is Ok ==> forall|j: int|
            0 <= j < r->Ok_0@.len() ==> searcher_keys(*searcher).contains(
                ((#[trigger] r->Ok_0@[j]).1, r->Ok_0@[j].2),
            ),
{
    let fields = default_fields.iter().map(
        |id| tantivy::schema::Field::from_field_id(*id),
    ).collect();
    let parser = tantivy::query::QueryParser::for_index(index, fields);
    let query = parser.parse_query(query).map_err(|e| e.to_string())?;
    let hits = searcher.search(&query, &tantivy::collector::TopDocs::with_limit(limit)).map_err(
        |e| e.to_string(),
    )?;
    Ok(hits.into_iter().map(|(s, a)| (s.to_bits(), a.segment_ord, a.doc_id)).collect())
}

/// Relies on `Searcher::doc`: fetches the stored document at the given
/// segment ordinal and document id. The ordinal indexes this searcher's
/// segment list, so the identity must be one this searcher handed out.
#[verifier::external_body]
pub(crate) fn searcher_doc(searcher: &tantivy::Searcher, segment_ord: u32, doc_id: u32) -> (r:
    Result<tantivy::Document, String>)
    requires
        searcher_keys(*searcher).contains((segment_ord, doc_id)),
{
    searcher.doc(tantivy::DocAddress { segment_ord, doc_id }).map_err(|e| e.to_string())
}

/// Relies on `Document::get_first`: the first stored value of the field,
/// each engine value carried over to the library's form, a floating-point
/// value as its decimal text.
#[verifier::external_body]
pub(crate) fn doc_first_value(doc: &tantivy::Document, field_id: u32) -> (r: Option<FieldValue>)
    ensures
        r == doc_value_of(*doc, field_id),
{
    match doc.get_first(tantivy::schema::Field::from_field_id(field_id))? {
        tantivy::schema::Value::Str(s) => Some(FieldValue::Text(s.clone())),
        tantivy::schema::Value::Bool(b) => Some(FieldValue::Truth(*b)),
        tantivy::schema::Value::U64(u) => Some(FieldValue::Unsigned(*u)),
        tantivy::schema::Value::I64(i) => Some(FieldValue::Signed(*i)),
        tantivy::schema::Value::F64(f) => Some(FieldValue::Real(format!("{}", f))),
        tantivy::schema::Value::Bytes(b) => Some(FieldValue::Blob(b.clone())),
        _ => Some(FieldValue::Unsupported),
    }
}

} // verus!

use crate::errors::IndexError;
use crate::utils::{join, spec_join};
use vstd::string::StringExecFns;

verus! {

/// Where a collection's index directory lives: the collection name joined
/// under the home directory, `indexes` when no home is given.
pub fn resolve_index_directory_path(name: &str, home: Option<&str>) -> (r: Result<
    String,
    IndexError,
>)
    ensures
        r is Ok,
        r->Ok_0@ == spec_join(
            match home {
                Option::Some(h) => h@,
                Option::None => "indexes"@,
            },
            name@,
        ),
{
    let base = match home {
        Some(h) => h,
        None => "indexes",
    };
    match join(base, name) {
        Some(p) => Ok(p),
        None => {
            proof {
                assert(false);
            }
            Err(IndexError::new(String::from_str("Unable to resolve path"), String::new()))
        },
    }
}

} // verus!
