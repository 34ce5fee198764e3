//! The collection registry and the engine around it: field types, schemas,
//! the builder that accumulates named collections, boolean conditions, and
//! the manager that owns each collection's storage handles.

use vstd::prelude::*;
use vstd::string::StringExecFns;

use crate::document::{has_unsupported, FieldValue, FlatValue};
use crate::errors::IndexError;
use crate::utils::{assoc_lookup, lemma_assoc_push, lemma_assoc_update, str_eq};

verus! {

/// The semantic kinds of field the schema distinguishes.
#[derive(Clone, Copy, Debug, PartialEq, Eq, Structural)]
pub enum SurferFieldTypes {
    /// Unsigned integers of any width.
    U64,
    /// Signed integers of any width.
    I64,
    /// Floating-point numbers of any width.
    F64,
    /// Text; booleans surface here too.
    String,
    /// Byte sequences: stored, never searchable.
    Bytes,
}

/// A per-field override for the storage options the schema gives a field.
pub enum Control {
    /// Options for a text field.
    ControlTextOptions(tantivy::schema::TextOptions),
    /// Options for a numeric field.
    ControlIntOptions(tantivy::schema::NumericOptions),
}

/// A collection's schema: the storage engine's schema object next to the
/// ordered list of field names and their semantic kinds.
#[derive(Clone, Debug, PartialEq, Eq)]
pub struct SurferSchema {
    schema: tantivy::schema::Schema,
    mappings: Vec<(String, SurferFieldTypes)>,
    track_tf: bool,
    track_tf_idf: bool,
}

impl SurferSchema {
    /// The ordered field list, as contracts see it.
    pub closed spec fn spec_mappings(&self) -> Seq<(String, SurferFieldTypes)> {
        self.mappings@
    }

    /// The storage engine's schema object, as contracts see it.
    pub closed spec fn spec_schema(&self) -> tantivy::schema::Schema {
        self.schema
    }

    pub fn new(
        schema: tantivy::schema::Schema,
        mappings: Vec<(String, SurferFieldTypes)>,
        track_tf: bool,
        track_tf_idf: bool,
    ) -> (r: Self)
        ensures
            r.spec_schema() == schema,
            r.spec_mappings() == mappings@,
    {
        SurferSchema { schema, mappings, track_tf, track_tf_idf }
    }

    /// The name-to-kind mapping, in field declaration order.
    pub fn resolve_mapping(&self) -> (r: &Vec<(String, SurferFieldTypes)>)
        ensures
            r@ == self.spec_mappings(),
    {
        &self.mappings
    }

    /// The storage engine's schema object.
    pub fn tantivy_schema(&self) -> (r: &tantivy::schema::Schema)
        ensures
            *r == self.spec_schema(),
    {
        &self.schema
    }

    /// The kind of the named field, when the schema has it.
    pub fn resolve_field_type(&self, name: &str) -> (r: Option<SurferFieldTypes>)
        ensures
            r == assoc_lookup(self.spec_mappings(), name@),
    {
        proof {
            assert(self.mappings@.skip(0) =~= self.mappings@);
        }
        let mut i: usize = 0;
        while i < self.mappings.len()
            invariant
                i <= self.mappings@.len(),
                assoc_lookup(self.mappings@.skip(i as int), name@) == assoc_lookup(
                    self.mappings@,
                    name@,
                ),
            decreases self.mappings@.len() - i,
        {
            proof {
                assert(self.mappings@.skip(i as int)[0] == self.mappings@[i as int]);
                assert(self.mappings@.skip(i as int).skip(1) =~= self.mappings@.skip(i + 1));
            }
            if str_eq(self.mappings[i].0.as_str(), name) {
                return Some(self.mappings[i].1);
            }
            i += 1;
        }
        proof {
            assert(self.mappings@.skip(self.mappings@.len() as int) =~= Seq::<
                (String, SurferFieldTypes),
            >::empty());
        }
        None
    }
}

/// Accumulates named collections with their schemas and the home directory,
/// before the manager opens them.
#[derive(Clone, Debug, PartialEq, Eq)]
pub struct SurferBuilder {
    schemas: Vec<(String, SurferSchema)>,
    home: Option<String>,
}

impl SurferBuilder {
    /// The registered collections, as contracts see them.
    pub closed spec fn spec_schemas(&self) -> Seq<(String, SurferSchema)> {
        self.schemas@
    }

    /// The home directory, as contracts see it.
    pub closed spec fn spec_home(&self) -> Option<Seq<char>> {
        match self.home {
            Option::Some(h) => Option::Some(h@),
            Option::None => Option::None,
        }
    }

    /// The home directory, if one was set.
    pub fn resolve_home(&self) -> (r: &Option<String>)
        ensures
            match r {
                Option::Some(h) => self.spec_home() == Option::Some(h@),
                Option::None => self.spec_home() is None,
            },
    {
        &self.home
    }

    /// The registered collections and their schemas.
    pub fn resolve_schemas(&self) -> (r: &Vec<(String, SurferSchema)>)
        ensures
            r@ == self.spec_schemas(),
    {
        &self.schemas
    }

    /// Sets the home directory; the default is `indexes`.
    pub fn set_home(&mut self, home: &str)
        ensures
            final(self).spec_home() == Option::Some(home@),
            final(self).spec_schemas() == old(self).spec_schemas(),
    {
        self.home = Some(home.to_owned());
    }

    /// Registers a schema under a name, replacing any schema already held
    /// under it.
    pub fn add_schema(&mut self, name: String, schema: SurferSchema)
        ensures
            assoc_lookup(final(self).spec_schemas(), name@) == Option::Some(schema),
            forall|n: Seq<char>|
                n != name@ ==> assoc_lookup(final(self).spec_schemas(), n) == assoc_lookup(
                    old(self).spec_schemas(),
                    n,
                ),
            final(self).spec_home() == old(self).spec_home(),
    {
        let mut i: usize = 0;
        while i < self.schemas.len()
            invariant
                i <= self.schemas@.len(),
                forall|j: int| 0 <= j < i ==> (#[trigger] self.schemas@[j]).0@ != name@,
                self == old(self),
            decreases self.schemas@.len() - i,
        {
            if str_eq(self.schemas[i].0.as_str(), name.as_str()) {
                proof {
                    lemma_assoc_update(self.schemas@, i as int, (name, schema));
                }
                let e = &mut self.schemas[i];
                *e = (name, schema);
                return ;
            }
            i += 1;
        }
        proof {
            lemma_assoc_push(self.schemas@, (name, schema));
        }
        self.schemas.push((name, schema));
    }

    /// Infers a schema from a flat sample and registers it under the name.
    /// The sample's field names must be distinct, as the keys of a flat
    /// record are.
    pub fn add_struct(&mut self, name: String, data: &FlatValue) -> (r: Result<(), IndexError>)
        requires
            data is Record ==> crate::utils::names_unique(data->0@),
        ensures
            r is Ok <==> data is Record && !has_unsupported(data->0@),
            r is Ok ==> ({
                let l = assoc_lookup(final(self).spec_schemas(), name@);
                l is Some && l->0.spec_mappings() == crate::utils::spec_infer(data->0@)
            }),
            r is Ok ==> forall|n: Seq<char>|
                n != name@ ==> assoc_lookup(final(self).spec_schemas(), n) == assoc_lookup(
                    old(self).spec_schemas(),
                    n,
                ),
            r is Ok ==> final(self).spec_home() == old(self).spec_home(),
            r is Err ==> *final(self) == *old(self),
    {
        let (schema, mappings) = match crate::utils::to_schema(data, None) {
            Ok(p) => p,
            Err(e) => {
                return Err(e);
            },
        };
        let schema = SurferSchema::new(schema, mappings, false, false);
        self.add_schema(name, schema);
        Ok(())
    }
}

/// An empty registry with the default home.
impl Default for SurferBuilder {
    fn default() -> (r: Self)
        ensures
            r.spec_schemas().len() == 0,
            r.spec_home() is None,
    {
        SurferBuilder { schemas: Vec::new(), home: None }
    }
}

/// One equality condition: a field's name and the value its text must match.
#[derive(Debug, Clone, PartialEq, Eq)]
pub struct AndCondition {
    field_name: String,
    field_value: String,
}

impl AndCondition {
    /// The field name, as contracts see it.
    pub closed spec fn spec_field_name(&self) -> Seq<char> {
        self.field_name@
    }

    /// The field value, as contracts see it.
    pub closed spec fn spec_field_value(&self) -> Seq<char> {
        self.field_value@
    }

    pub fn new(field_name: String, field_value: String) -> (r: Self)
        ensures
            r.spec_field_name() == field_name@,
            r.spec_field_value() == field_value@,
    {
        AndCondition { field_name, field_value }
    }

    pub fn update_field_value(&mut self, field_value: String)
        ensures
            final(self).spec_field_name() == old(self).spec_field_name(),
            final(self).spec_field_value() == field_value@,
    {
        self.field_value = field_value;
    }

    pub fn resolve_field_name(&self) -> (r: &String)
        ensures
            r@ == self.spec_field_name(),
    {
        &self.field_name
    }

    pub fn resolve_field_value(&self) -> (r: &String)
        ensures
            r@ == self.spec_field_value(),
    {
        &self.field_value
    }
}

/// One AND-group: every condition in it must match a document for the group
/// to claim it. A query is a list of such groups, united by OR.
#[derive(Debug, Clone, PartialEq, Eq)]
pub struct OrCondition {
    conditions: Vec<AndCondition>,
}

impl OrCondition {
    /// The group's conditions, as contracts see them.
    pub closed spec fn spec_conditions(&self) -> Seq<AndCondition> {
        self.conditions@
    }

    pub fn new(conditions: Vec<AndCondition>) -> (r: Self)
        ensures
            r.spec_conditions() == conditions@,
    {
        OrCondition { conditions }
    }

    /// A single-condition group, from one field name and value.
    pub fn from_pair(field_name: String, field_value: String) -> (r: Self)
        ensures
            r.spec_conditions().len() == 1,
            r.spec_conditions()[0].spec_field_name() == field_name@,
            r.spec_conditions()[0].spec_field_value() == field_value@,
    {
        let mut conditions: Vec<AndCondition> = Vec::new();
        conditions.push(AndCondition::new(field_name, field_value));
        OrCondition { conditions }
    }

    pub fn resolve_conditions_for_edit(&mut self) -> (r: &mut Vec<AndCondition>)
        ensures
            r@ == old(self).spec_conditions(),
            final(self).spec_conditions() == final(r)@,
    {
        &mut self.conditions
    }

    pub fn resolve_conditions(&self) -> (r: &Vec<AndCondition>)
        ensures
            r@ == self.spec_conditions(),
    {
        &self.conditions
    }
}

} // verus!

use crate::query::{dedup_keys, filter_hits, intersect_keys, no_dups, union_keys, DocKey};
use crate::seed::{
    create_index_in_dir, create_index_in_ram, doc_first_value, doc_value_of, index_field_count,
    index_schema, open_index_in_dir, open_index_reader, open_index_writer, parse_document,
    parses_real, reader_reload, reader_searcher, schema_field_count, schema_field_ids,
    schema_field_of, schema_get_field, search_term, search_text, searcher_doc, searcher_keys,
    term_from_i64, term_from_text, term_from_u64, term_from_f64_text, writer_add_document,
    writer_commit, writer_delete_term, RawTerm,
};
use crate::document::{record_to_json, spec_json_record};
use crate::query::spec_filter_hits;
use crate::utils::{digits_val, join, parses_signed, parses_unsigned, parse_signed,
    parse_unsigned, signed_val, spec_join, spec_starts_with, str_starts_with, unsigned_body};

verus! {

/// One opened collection: its name, its inferred schema, the storage
/// engine's index and on-disk schema, and the lazily created write and read
/// handles.
struct Collection {
    name: String,
    schema: SurferSchema,
    index: tantivy::Index,
    store_schema: tantivy::schema::Schema,
    writer: Option<tantivy::IndexWriter>,
    reader: Option<tantivy::IndexReader>,
}

/// Owns one opened index per registered collection, with write and read
/// handles created on first use and cached. Reads observe every commit made
/// through the same manager, because the read handle's view is refreshed
/// before each search.
pub struct Surfer {
    home: String,
    collections: Vec<Collection>,
}

/// The number a query's optional result cap resolves to: ten when unset.
/// The cap bounds each term lookup, so a multi-group condition query may
/// return up to the cap for every OR-group.
pub open spec fn spec_limit(limit: Option<usize>) -> int {
    match limit {
        Option::Some(l) => l as int,
        Option::None => 10,
    }
}

/// True when some condition of some group names a field the mapping knows
/// as a byte field, or otherwise cannot become an equality term: an unknown
/// field, or a numeric field whose value text does not parse.
pub open spec fn some_cond_rejected(
    m: Seq<(String, SurferFieldTypes)>,
    groups: Seq<OrCondition>,
) -> bool {
    exists|g: int, c: int|
        0 <= g < groups.len() && 0 <= c < groups[g].spec_conditions().len() && cond_rejected(
            m,
            (#[trigger] groups[g].spec_conditions()[c]).spec_field_name(),
            groups[g].spec_conditions()[c].spec_field_value(),
        )
}

/// True when one field-equality condition can never become a term under the
/// mapping: the field is unknown, it is a byte field, or its value text does
/// not parse as the field's numeric kind.
pub open spec fn cond_rejected(
    m: Seq<(String, SurferFieldTypes)>,
    name: Seq<char>,
    value: Seq<char>,
) -> bool {
    ||| assoc_lookup(m, name) is None
    ||| assoc_lookup(m, name) == Option::Some(SurferFieldTypes::Bytes)
    ||| (assoc_lookup(m, name) == Option::Some(SurferFieldTypes::U64) && !parses_unsigned(value))
    ||| (assoc_lookup(m, name) == Option::Some(SurferFieldTypes::I64) && !parses_signed(value))
    ||| (assoc_lookup(m, name) == Option::Some(SurferFieldTypes::F64) && !parses_real(value))
}

/// True when every field of a record is a field of the mapping; the insert
/// path demands this before handing the record to the engine, whose parser
/// would pass an unknown name over silently.
pub open spec fn record_fits(
    m: Seq<(String, SurferFieldTypes)>,
    fields: Seq<(String, FieldValue)>,
) -> bool {
    forall|i: int| 0 <= i < fields.len() ==> assoc_lookup(m, (#[trigger] fields[i]).0@) is Some
}

/// What one equality term targets: the storage field's id and the exact
/// value the term matches, a floating-point value as its literal text.
pub enum TermContent {
    /// An unsigned integer value.
    Unsigned(u64),
    /// A signed integer value.
    Signed(i64),
    /// A floating-point value, as the literal text it was parsed from.
    Real(Seq<char>),
    /// One token of a text field.
    Text(Seq<char>),
}

/// An equality term ready for the storage engine: the engine's opaque form
/// next to a ghost record of the field and value it targets.
pub struct SurferTerm {
    raw: RawTerm,
    target: Ghost<(u32, TermContent)>,
}

impl SurferTerm {
    /// The field id and value this term targets, as contracts see them.
    pub closed spec fn spec_target(&self) -> (u32, TermContent) {
        self.target@
    }
}

/// True when a condition can become an equality term: the mapping knows the
/// field as a non-byte kind, the stored schema declares it, and the value
/// text parses as the field's kind.
pub open spec fn term_accepted(
    m: Seq<(String, SurferFieldTypes)>,
    store: tantivy::schema::Schema,
    name: Seq<char>,
    value: Seq<char>,
) -> bool {
    match assoc_lookup(m, name) {
        Option::Some(SurferFieldTypes::U64) => schema_field_of(store, name) is Some
            && parses_unsigned(value),
        Option::Some(SurferFieldTypes::I64) => schema_field_of(store, name) is Some
            && parses_signed(value),
        Option::Some(SurferFieldTypes::F64) => schema_field_of(store, name) is Some
            && parses_real(value),
        Option::Some(SurferFieldTypes::String) => schema_field_of(store, name) is Some,
        Option::Some(SurferFieldTypes::Bytes) => false,
        Option::None => false,
    }
}

/// The field id and value an accepted condition's term targets.
pub open spec fn spec_term_target(
    m: Seq<(String, SurferFieldTypes)>,
    store: tantivy::schema::Schema,
    name: Seq<char>,
    value: Seq<char>,
) -> (u32, TermContent) {
    let id = schema_field_of(store, name)->0;
    match assoc_lookup(m, name) {
        Option::Some(SurferFieldTypes::U64) => (
            id,
            TermContent::Unsigned(digits_val(unsigned_body(value)) as u64),
        ),
        Option::Some(SurferFieldTypes::I64) => (id, TermContent::Signed(signed_val(value) as i64)),
        Option::Some(SurferFieldTypes::F64) => (id, TermContent::Real(value)),
        _ => (id, TermContent::Text(value)),
    }
}

impl Surfer {
    /// The home directory, as contracts see it.
    pub closed spec fn spec_home(&self) -> Seq<char> {
        self.home@
    }

    /// The number of opened collections, as contracts see it.
    pub closed spec fn spec_count(&self) -> int {
        self.collections@.len() as int
    }

    /// The name of the collection at an index, as contracts see it.
    pub closed spec fn spec_name_at(&self, i: int) -> Seq<char> {
        self.collections@[i].name@
    }

    /// The schema of the collection at an index, as contracts see it.
    pub closed spec fn spec_schema_at(&self, i: int) -> SurferSchema {
        self.collections@[i].schema
    }

    /// True when a collection of that name was opened.
    pub open spec fn has_collection(&self, name: Seq<char>) -> bool {
        exists|i: int| 0 <= i < self.spec_count() && self.spec_name_at(i) == name
    }

    /// True when `i` is the collection every operation on `name` works with:
    /// the first whose name matches.
    pub open spec fn is_first_match(&self, name: Seq<char>, i: int) -> bool {
        &&& 0 <= i < self.spec_count()
        &&& self.spec_name_at(i) == name
        &&& forall|j: int| 0 <= j < i ==> self.spec_name_at(j) != name
    }

    /// True when an operation left the manager's identity untouched: the
    /// same home and the same collections with the same schemas, whatever
    /// happened to the cached handles.
    pub open spec fn preserved(&self, other: &Surfer) -> bool {
        &&& other.spec_home() == self.spec_home()
        &&& other.spec_count() == self.spec_count()
        &&& forall|i: int|
            0 <= i < self.spec_count() ==> #[trigger] other.spec_name_at(i) == self.spec_name_at(i)
        &&& forall|i: int|
            0 <= i < self.spec_count() ==> #[trigger] other.spec_schema_at(i)
                == self.spec_schema_at(i)
    }

    /// The index of the collection every operation on the name works with.
    fn find_collection(&self, name: &str) -> (r: Option<usize>)
        ensures
            r is Some ==> self.is_first_match(name@, r->0 as int),
            r is None ==> !self.has_collection(name@),
    {
        let mut i: usize = 0;
        while i < self.collections.len()
            invariant
                i <= self.spec_count(),
                forall|j: int| 0 <= j < i ==> self.spec_name_at(j) != name@,
            decreases self.spec_count() - i,
        {
            if str_eq(self.collections[i].name.as_str(), name) {
                return Some(i);
            }
            i += 1;
        }
        None
    }

    /// The home directory all collections live under.
    pub fn home(&self) -> (r: &String)
        ensures
            r@ == self.spec_home(),
    {
        &self.home
    }

    /// The schema a collection was registered with.
    pub fn resolve_schema(&self, name: &str) -> (r: Option<&SurferSchema>)
        ensures
            r is Some <==> self.has_collection(name@),
            r is Some ==> exists|i: int|
                self.is_first_match(name@, i) && *r->0 == self.spec_schema_at(i),
    {
        match self.find_collection(name) {
            Some(i) => {
                proof {
                    assert(self.is_first_match(name@, i as int));
                    assert(self.spec_schema_at(i as int) == self.collections@[i as int].schema);
                }
                Some(&self.collections[i].schema)
            },
            None => None,
        }
    }

    /// The opened index behind a collection.
    pub fn resolve_index(&self, name: &str) -> (r: Option<&tantivy::Index>)
        ensures
            r is Some <==> self.has_collection(name@),
    {
        match self.find_collection(name) {
            Some(i) => Some(&self.collections[i].index),
            None => None,
        }
    }

    /// Where a collection's index lives: the name joined under the home
    /// directory, or the name itself when it already starts with the home.
    pub fn which_index(&self, name: &str) -> (r: Option<String>)
        ensures
            r is Some <==> self.has_collection(name@),
            r is Some ==> r->0@ == if spec_starts_with(name@, self.spec_home()) {
                name@
            } else {
                spec_join(self.spec_home(), name@)
            },
    {
        if self.find_collection(name).is_none() {
            return None;
        }
        if str_starts_with(name, self.home.as_str()) {
            Some(name.to_owned())
        } else {
            join(self.home.as_str(), name)
        }
    }

    /// Opens every registered collection under the builder's home directory:
    /// an existing index is opened as stored, a missing one is created from
    /// the inferred schema. A collection whose storage cannot be opened or
    /// created is skipped; the others proceed.
    pub fn try_from_builder(builder: SurferBuilder) -> (r: Result<Surfer, IndexError>)
        ensures
            r is Ok,
            r is Ok ==> r->Ok_0.spec_home() == match builder.spec_home() {
                Option::Some(h) => h,
                Option::None => "indexes"@,
            },
            r is Ok ==> forall|i: int|
                0 <= i < r->Ok_0.spec_count() ==> builder.spec_schemas().contains(
                    (#[trigger] r->Ok_0.entry_at(i)),
                ),
    {
        let home = match &builder.home {
            Some(h) => h.clone(),
            None => String::from_str("indexes"),
        };
        let mut collections: Vec<Collection> = Vec::new();
        let mut rest = builder.schemas;
        let ghost entries = rest@;
        proof {
            assert(entries.skip(0) =~= entries);
        }
        while rest.len() > 0
            invariant
                rest@.len() <= entries.len(),
                rest@ == entries.skip(entries.len() - rest@.len()),
                forall|k: int|
                    0 <= k < collections@.len() ==> entries.contains(
                        ((#[trigger] collections@[k]).name, collections@[k].schema),
                    ),
            decreases rest@.len(),
        {
            let ghost pos = entries.len() - rest@.len();
            let pair = rest.remove(0);
            proof {
                assert(pair == entries[pos]);
                assert(entries.skip(pos).remove(0) =~= entries.skip(pos + 1));
            }
            let name = pair.0;
            let schema = pair.1;
            let path = match join(home.as_str(), name.as_str()) {
                Some(p) => p,
                None => {
                    proof {
                        assert(false);
                    }
                    String::new()
                },
            };
            let index = match open_index_in_dir(path.as_str()) {
                Ok(ix) => Some(ix),
                Err(_) => match create_index_in_dir(path.as_str(), schema.tantivy_schema()) {
                    Ok(ix) => Some(ix),
                    Err(_) => None,
                },
            };
            if let Some(index) = index {
                let store_schema = index_schema(&index);
                proof {
                    assert(entries.contains(entries[pos]));
                }
                let c = Collection {
                    name,
                    schema,
                    index,
                    store_schema,
                    writer: None,
                    reader: None,
                };
                collections.push(c);
            }
        }
        Ok(Surfer { home, collections })
    }

    /// Opens every registered collection in memory: ephemeral storage with
    /// the same behavior as the on-disk form, gone when the manager is
    /// dropped. A collection the engine refuses to create is skipped.
    pub fn open_in_memory(builder: SurferBuilder) -> (r: Result<Surfer, IndexError>)
        ensures
            r is Ok,
            r is Ok ==> r->Ok_0.spec_home() == match builder.spec_home() {
                Option::Some(h) => h,
                Option::None => "indexes"@,
            },
            r is Ok ==> forall|i: int|
                0 <= i < r->Ok_0.spec_count() ==> builder.spec_schemas().contains(
                    (#[trigger] r->Ok_0.entry_at(i)),
                ),
    {
        let home = match &builder.home {
            Some(h) => h.clone(),
            None => String::from_str("indexes"),
        };
        let mut collections: Vec<Collection> = Vec::new();
        let mut rest = builder.schemas;
        let ghost entries = rest@;
        proof {
            assert(entries.skip(0) =~= entries);
        }
        while rest.len() > 0
            invariant
                rest@.len() <= entries.len(),
                rest@ == entries.skip(entries.len() - rest@.len()),
                forall|k: int|
                    0 <= k < collections@.len() ==> entries.contains(
                        ((#[trigger] collections@[k]).name, collections@[k].schema),
                    ),
            decreases rest@.len(),
        {
            let ghost pos = entries.len() - rest@.len();
            let pair = rest.remove(0);
            proof {
                assert(pair == entries[pos]);
                assert(entries.skip(pos).remove(0) =~= entries.skip(pos + 1));
            }
            let name = pair.0;
            let schema = pair.1;
            if let Ok(index) = create_index_in_ram(schema.tantivy_schema()) {
                let store_schema = index_schema(&index);
                proof {
                    assert(entries.contains(entries[pos]));
                }
                let c = Collection {
                    name,
                    schema,
                    index,
                    store_schema,
                    writer: None,
                    reader: None,
                };
                collections.push(c);
            }
        }
        Ok(Surfer { home, collections })
    }

    /// One collection's name and schema, as contracts see them.
    pub closed spec fn entry_at(&self, i: int) -> (String, SurferSchema) {
        (self.collections@[i].name, self.collections@[i].schema)
    }
}

} // verus!

verus! {

/// Builds the equality term for one field condition. It succeeds exactly
/// when the mapping knows the field as a non-byte kind, the stored schema
/// declares it, and the value text parses as the field's kind; the built
/// term then targets that field's id and that value.
fn build_term(
    schema: &SurferSchema,
    store: &tantivy::schema::Schema,
    field_name: &str,
    field_value: &str,
) -> (r: Result<SurferTerm, IndexError>)
    ensures
        r is Ok <==> term_accepted(schema.spec_mappings(), *store, field_name@, field_value@),
        r is Ok ==> !cond_rejected(schema.spec_mappings(), field_name@, field_value@),
        r is Ok ==> r->Ok_0.spec_target() == spec_term_target(
            schema.spec_mappings(),
            *store,
            field_name@,
            field_value@,
        ),
{
    let field_type = match schema.resolve_field_type(field_name) {
        Some(t) => t,
        None => {
            let mut reason = String::from_str("Missing field: ");
            reason.append(field_name);
            return Err(IndexError::new(String::from_str("Unable to perform search"), reason));
        },
    };
    let field_id = match schema_get_field(store, field_name) {
        Some(id) => id,
        None => {
            let mut reason = String::from_str("Missing field: ");
            reason.append(field_name);
            return Err(IndexError::new(String::from_str("Unable to perform search"), reason));
        },
    };
    match field_type {
        SurferFieldTypes::U64 => match parse_unsigned(field_value) {
            Some(v) => Ok(
                SurferTerm {
                    raw: term_from_u64(field_id, v),
                    target: Ghost((field_id, TermContent::Unsigned(v))),
                },
            ),
            None => {
                let mut message = String::from_str("Invalid search: ");
                message.append(field_value);
                Err(IndexError::new(message, String::from_str("invalid digit found in string")))
            },
        },
        SurferFieldTypes::I64 => match parse_signed(field_value) {
            Some(v) => Ok(
                SurferTerm {
                    raw: term_from_i64(field_id, v),
                    target: Ghost((field_id, TermContent::Signed(v))),
                },
            ),
            None => {
                let mut message = String::from_str("Invalid search: ");
                message.append(field_value);
                Err(IndexError::new(message, String::from_str("invalid digit found in string")))
            },
        },
        SurferFieldTypes::F64 => match term_from_f64_text(field_id, field_value) {
            Ok(t) => Ok(
                SurferTerm {
                    raw: t,
                    target: Ghost((field_id, TermContent::Real(field_value@))),
                },
            ),
            Err(reason) => {
                let mut message = String::from_str("Invalid search: ");
                message.append(field_value);
                Err(IndexError::new(message, reason))
            },
        },
        SurferFieldTypes::String => Ok(
            SurferTerm {
                raw: term_from_text(field_id, field_value),
                target: Ghost((field_id, TermContent::Text(field_value@))),
            },
        ),
        SurferFieldTypes::Bytes => {
            let mut message = String::from_str("Invalid search: ");
            message.append(field_value);
            Err(IndexError::new(message, String::from_str("Cant search on bytes")))
        },
    }
}

/// The single-valued pairs a stored document yields under a mapping: the
/// mapped fields the store knows, in declaration order, each with its first
/// stored value; a field the store does not know, or one without a stored
/// value, contributes nothing.
pub open spec fn spec_doc_pairs(
    m: Seq<(String, SurferFieldTypes)>,
    store: tantivy::schema::Schema,
    doc: tantivy::Document,
) -> Seq<(String, FieldValue)>
    decreases m.len(),
{
    if m.len() == 0 {
        Seq::empty()
    } else {
        let prev = spec_doc_pairs(m.drop_last(), store, doc);
        match schema_field_of(store, m.last().0@) {
            Option::Some(id) => match doc_value_of(doc, id) {
                Option::Some(v) => prev.push((m.last().0, v)),
                Option::None => prev,
            },
            Option::None => prev,
        }
    }
}

/// True when some mapped, store-known field of the document has no stored
/// value.
pub open spec fn doc_missing_value(
    m: Seq<(String, SurferFieldTypes)>,
    store: tantivy::schema::Schema,
    doc: tantivy::Document,
) -> bool {
    exists|i: int|
        0 <= i < m.len() && (#[trigger] schema_field_of(store, m[i].0@)) is Some && doc_value_of(
            doc,
            schema_field_of(store, m[i].0@)->0,
        ) is None
}

/// Rebuilds a retrieved document as JSON text: the schema's mapped fields
/// the store knows, in declaration order, each with its first stored value.
/// A mapped field without a stored value is a fatal missing-value error,
/// and a stored value of a kind the bridge cannot carry fails
/// serialization.
fn jsonify(
    name: &str,
    schema: &SurferSchema,
    store: &tantivy::schema::Schema,
    doc: &tantivy::Document,
) -> (r: Result<String, IndexError>)
    ensures
        r is Ok <==> !doc_missing_value(schema.spec_mappings(), *store, *doc) && !has_unsupported(
            spec_doc_pairs(schema.spec_mappings(), *store, *doc),
        ),
        r is Ok ==> r->Ok_0@ == spec_json_record(
            spec_doc_pairs(schema.spec_mappings(), *store, *doc),
        ),
{
    let mappings = schema.resolve_mapping();
    let ghost m = schema.spec_mappings();
    let mut pairs: Vec<(String, FieldValue)> = Vec::new();
    let mut i: usize = 0;
    while i < mappings.len()
        invariant
            i <= mappings@.len(),
            mappings@ == m,
            m == schema.spec_mappings(),
            pairs@ == spec_doc_pairs(m.take(i as int), *store, *doc),
            forall|j: int|
                0 <= j < i ==> !((#[trigger] schema_field_of(*store, m[j].0@)) is Some
                    && doc_value_of(*doc, schema_field_of(*store, m[j].0@)->0) is None),
        decreases mappings@.len() - i,
    {
        proof {
            assert(m.take(i + 1).drop_last() =~= m.take(i as int));
            assert(m.take(i + 1).last() == m[i as int]);
        }
        let field_name = &mappings[i].0;
        if let Some(id) = schema_get_field(store, field_name.as_str()) {
            match doc_first_value(doc, id) {
                Some(v) => {
                    pairs.push((field_name.clone(), v));
                },
                None => {
                    proof {
                        assert(schema_field_of(*store, m[i as int].0@) is Some);
                        assert(doc_missing_value(m, *store, *doc));
                    }
                    let mut message = String::from_str("Unable to jsonify: ");
                    message.append(name);
                    let mut reason = String::from_str("Field: ");
                    reason.append(field_name.as_str());
                    reason.append(" does not have any value");
                    return Err(IndexError::new(message, reason));
                },
            }
        }
        i += 1;
    }
    proof {
        assert(m.take(m.len() as int) =~= m);
        assert(!doc_missing_value(m, *store, *doc));
    }
    record_to_json(&pairs)
}

/// Fetches the stored document behind each identity, in order, and rebuilds
/// each as JSON text: on success the result holds exactly one entry per
/// given identity. Every identity must come from a search on this searcher.
fn fetch_documents(
    searcher: &tantivy::Searcher,
    name: &str,
    schema: &SurferSchema,
    store: &tantivy::schema::Schema,
    keys: &Vec<DocKey>,
) -> (r: Result<Vec<String>, IndexError>)
    requires
        forall|x: DocKey| #[trigger] keys@.contains(x) ==> searcher_keys(*searcher).contains(x),
    ensures
        r is Ok ==> r->Ok_0@.len() == keys@.len(),
{
    let mut out: Vec<String> = Vec::new();
    let mut k: usize = 0;
    while k < keys.len()
        invariant
            k <= keys@.len(),
            out@.len() == k,
            forall|x: DocKey| #[trigger] keys@.contains(x) ==> searcher_keys(*searcher).contains(
                x,
            ),
        decreases keys@.len() - k,
    {
        let key = keys[k];
        proof {
            assert(keys@.contains(keys@[k as int]));
            assert((key.0, key.1) == key);
        }
        let doc = match searcher_doc(searcher, key.0, key.1) {
            Ok(d) => d,
            Err(reason) => {
                return Err(IndexError::new(String::from_str("Unable to open Index"), reason));
            },
        };
        let json = match jsonify(name, schema, store, &doc) {
            Ok(j) => j,
            Err(e) => {
                return Err(e);
            },
        };
        out.push(json);
        k += 1;
    }
    Ok(out)
}

impl Surfer {
    /// True when the collection's read handle exists, as contracts see it.
    pub closed spec fn spec_reader_set(&self, i: int) -> bool {
        self.collections@[i].reader is Some
    }

    /// True when the collection's write handle exists, as contracts see it.
    pub closed spec fn spec_writer_set(&self, i: int) -> bool {
        self.collections@[i].writer is Some
    }

    /// Opens the collection's read handle on first use and refreshes its
    /// view, so the coming search observes every commit made so far.
    fn prepare_reader(&mut self, i: usize) -> (r: Result<(), IndexError>)
        requires
            i < old(self).spec_count(),
        ensures
            old(self).preserved(final(self)),
            r is Ok ==> final(self).spec_reader_set(i as int),
    {
        if self.collections[i].reader.is_none() {
            match open_index_reader(&self.collections[i].index) {
                Ok(rd) => {
                    let c = &mut self.collections[i];
                    c.reader = Some(rd);
                },
                Err(reason) => {
                    return Err(
                        IndexError::new(String::from_str("Unable to create index reader"), reason),
                    );
                },
            }
        }
        if let Some(rd) = &self.collections[i].reader {
            let _ = reader_reload(rd);
        }
        Ok(())
    }

    /// Commits through the collection's cached write handle.
    fn commit_writer(&mut self, i: usize) -> (r: Result<(), IndexError>)
        requires
            i < old(self).spec_count(),
            old(self).spec_writer_set(i as int),
        ensures
            old(self).preserved(final(self)),
    {
        let c = &mut self.collections[i];
        let res = match &mut c.writer {
            Some(w) => writer_commit(w),
            None => {
                proof {
                    assert(false);
                }
                Ok(0)
            },
        };
        match res {
            Ok(_) => Ok(()),
            Err(reason) => Err(IndexError::new(String::from_str("Unable to open Index"), reason)),
        }
    }

    /// Opens the collection's write handle on first use.
    fn prepare_writer(&mut self, i: usize) -> (r: Result<(), IndexError>)
        requires
            i < old(self).spec_count(),
        ensures
            old(self).preserved(final(self)),
            r is Ok ==> final(self).spec_writer_set(i as int),
    {
        if self.collections[i].writer.is_none() {
            match open_index_writer(&self.collections[i].index) {
                Ok(w) => {
                    let c = &mut self.collections[i];
                    c.writer = Some(w);
                },
                Err(reason) => {
                    return Err(
                        IndexError::new(String::from_str("Unable to create index writer"), reason),
                    );
                },
            }
        }
        Ok(())
    }
}

} // verus!

verus! {

impl Surfer {
    /// Evaluates boolean conditions over one collection: for each OR-group,
    /// the document identities matching every condition of the group
    /// (intersection, capped at the limit per term lookup, filtered by the
    /// score cutoff), united over the groups without repeats, and each
    /// surviving document rebuilt as JSON text.
    ///
    /// An unknown collection, an unknown or byte-typed field, and a numeric
    /// value that does not parse are all fatal. The limit caps each term
    /// lookup, so at most `limit` results arrive per OR-group. The score
    /// cutoff is the bit pattern of a non-negative single-precision value;
    /// when absent, no cutoff applies and every hit survives.
    pub fn multiple_structs_by_field(
        &mut self,
        index_name: &str,
        conditions: &Vec<OrCondition>,
        limit: Option<usize>,
        score: Option<u32>,
    ) -> (r: Result<Option<Vec<String>>, IndexError>)
        requires
            limit is Some ==> limit->0 >= 1,
        ensures
            old(self).preserved(final(self)),
            !old(self).has_collection(index_name@) ==> r is Err,
            forall|i: int|
                #[trigger] old(self).is_first_match(index_name@, i) && some_cond_rejected(
                    old(self).spec_schema_at(i).spec_mappings(),
                    conditions@,
                ) ==> r is Err,
            r is Ok && r->Ok_0 is Some ==> r->Ok_0->0@.len() <= spec_limit(limit)
                * conditions@.len(),
    {
        let idx = match self.find_collection(index_name) {
            Some(i) => i,
            None => {
                let mut reason = String::from_str("No schema found for index: ");
                reason.append(index_name);
                let mut message = String::from_str("Invalid index operation for ");
                message.append(index_name);
                return Err(IndexError::new(message, reason));
            },
        };
        proof {
            assert(old(self).is_first_match(index_name@, idx as int));
        }
        match self.prepare_reader(idx) {
            Ok(()) => (),
            Err(e) => {
                return Err(e);
            },
        }
        let searcher = match &self.collections[idx].reader {
            Some(rd) => reader_searcher(rd),
            None => {
                proof {
                    assert(false);
                }
                return Err(
                    IndexError::new(String::from_str("Unable to create index reader"), String::new()),
                );
            },
        };
        let limit_n: usize = match limit {
            Some(l) => l,
            None => 10,
        };
        let ghost m = self.collections@[idx as int].schema.spec_mappings();
        proof {
            assert(self.spec_schema_at(idx as int) == old(self).spec_schema_at(idx as int));
        }
        let mut terms: Vec<Vec<SurferTerm>> = Vec::new();
        let mut g: usize = 0;
        while g < conditions.len()
            invariant
                g <= conditions@.len(),
                terms@.len() == g,
                old(self).preserved(self),
                idx < self.spec_count(),
                m == self.collections@[idx as int].schema.spec_mappings(),
                forall|a: int, b: int|
                    0 <= a < g && 0 <= b < conditions@[a].spec_conditions().len()
                        ==> !cond_rejected(
                        m,
                        (#[trigger] conditions@[a].spec_conditions()[b]).spec_field_name(),
                        conditions@[a].spec_conditions()[b].spec_field_value(),
                    ),
            decreases conditions@.len() - g,
        {
            let group = conditions[g].resolve_conditions();
            let mut group_terms: Vec<SurferTerm> = Vec::new();
            let mut c: usize = 0;
            while c < group.len()
                invariant
                    c <= group@.len(),
                    group@ == conditions@[g as int].spec_conditions(),
                    g < conditions@.len(),
                    old(self).preserved(self),
                    idx < self.spec_count(),
                    m == self.collections@[idx as int].schema.spec_mappings(),
                    forall|b: int|
                        0 <= b < c ==> !cond_rejected(
                            m,
                            (#[trigger] group@[b]).spec_field_name(),
                            group@[b].spec_field_value(),
                        ),
                decreases group@.len() - c,
            {
                let term = match build_term(
                    &self.collections[idx].schema,
                    &self.collections[idx].store_schema,
                    group[c].resolve_field_name().as_str(),
                    group[c].resolve_field_value().as_str(),
                ) {
                    Ok(t) => t,
                    Err(e) => {
                        return Err(e);
                    },
                };
                group_terms.push(term);
                c += 1;
            }
            terms.push(group_terms);
            g += 1;
        }
        proof {
            assert forall|i: int| old(self).is_first_match(index_name@, i) implies i
                == idx as int by {
                assert(old(self).is_first_match(index_name@, idx as int));
            }
        }
        let mut all: Vec<DocKey> = Vec::new();
        let mut g: usize = 0;
        while g < terms.len()
            invariant
                g <= terms@.len(),
                terms@.len() == conditions@.len(),
                old(self).preserved(self),
                limit_n as int == spec_limit(limit),
                limit_n >= 1,
                no_dups(all@),
                all@.len() <= g * (limit_n as int),
                forall|x: DocKey| #[trigger] all@.contains(x) ==> searcher_keys(searcher).contains(x),
            decreases terms@.len() - g,
        {
            let group = &terms[g];
            let mut docs: Vec<DocKey> = Vec::new();
            let mut started = false;
            let mut t: usize = 0;
            while t < group.len()
                invariant
                    t <= group@.len(),
                    limit_n >= 1,
                    old(self).preserved(self),
                    no_dups(docs@),
                    docs@.len() <= limit_n,
                    forall|x: DocKey| #[trigger] docs@.contains(x) ==> searcher_keys(
                        searcher,
                    ).contains(x),
                decreases group@.len() - t,
            {
                let hits = match search_term(&searcher, &group[t].raw, limit_n) {
                    Ok(h) => h,
                    Err(reason) => {
                        return Err(
                            IndexError::new(String::from_str("Error while term query"), reason),
                        );
                    },
                };
                let filtered = filter_hits(&hits, score);
                proof {
                    crate::query::lemma_filter_hits_subset(hits@, score, searcher_keys(searcher));
                }
                if !started {
                    docs = dedup_keys(&filtered);
                    started = true;
                    proof {
                        assert forall|x: DocKey| #[trigger] docs@.contains(x) implies searcher_keys(
                            searcher,
                        ).contains(x) by {
                            assert(filtered@.contains(x));
                            assert(spec_filter_hits(hits@, score).contains(x));
                        }
                    }
                } else {
                    let ghost pre = docs@;
                    proof {
                        assert(forall|x: DocKey| #[trigger] pre.contains(x) ==> searcher_keys(
                            searcher,
                        ).contains(x));
                    }
                    docs = intersect_keys(&docs, &filtered);
                    proof {
                        assert forall|x: DocKey| #[trigger] docs@.contains(x) implies searcher_keys(
                            searcher,
                        ).contains(x) by {
                            assert(pre.contains(x));
                        }
                    }
                }
                if docs.len() == 0 {
                    break ;
                }
                t += 1;
            }
            proof {
                assert((g + 1) * (limit_n as int) == g * (limit_n as int) + (limit_n as int))
                    by (nonlinear_arith);
            }
            let ghost pre_all = all@;
            proof {
                assert(forall|x: DocKey| #[trigger] pre_all.contains(x) ==> searcher_keys(
                    searcher,
                ).contains(x));
            }
            all = union_keys(all, &docs);
            proof {
                assert forall|x: DocKey| #[trigger] all@.contains(x) implies searcher_keys(
                    searcher,
                ).contains(x) by {
                    assert(pre_all.contains(x) || docs@.contains(x));
                }
            }
            g += 1;
        }
        let out = match fetch_documents(
            &searcher,
            index_name,
            &self.collections[idx].schema,
            &self.collections[idx].store_schema,
            &all,
        ) {
            Ok(o) => o,
            Err(e) => {
                return Err(e);
            },
        };
        proof {
            assert(conditions@.len() * spec_limit(limit) == spec_limit(limit) * conditions@.len())
                by (nonlinear_arith);
        }
        Ok(Some(out))
    }
}

} // verus!

verus! {

impl Surfer {
    /// Free-text search over all fields, each result as the stored
    /// document's JSON text. An unknown collection, or one whose read
    /// handle cannot be opened, reads as no result set at all; at most
    /// `limit` documents come back (ten when unset), and a score cutoff
    /// (a non-negative single-precision bit pattern) drops weaker hits.
    pub fn read_string(
        &mut self,
        name: &str,
        query: &str,
        limit: Option<usize>,
        score: Option<u32>,
    ) -> (r: Result<Option<Vec<String>>, IndexError>)
        requires
            limit is Some ==> limit->0 >= 1,
        ensures
            old(self).preserved(final(self)),
            !old(self).has_collection(name@) ==> r is Ok && r->Ok_0 is None,
            r is Ok && r->Ok_0 is Some ==> r->Ok_0->0@.len() <= spec_limit(limit),
    {
        let idx = match self.find_collection(name) {
            Some(i) => i,
            None => {
                return Ok(None);
            },
        };
        proof {
            assert(old(self).has_collection(name@));
        }
        match self.prepare_reader(idx) {
            Ok(()) => (),
            Err(_) => {
                return Ok(None);
            },
        }
        let searcher = match &self.collections[idx].reader {
            Some(rd) => reader_searcher(rd),
            None => {
                proof {
                    assert(false);
                }
                return Ok(None);
            },
        };
        let limit_n: usize = match limit {
            Some(l) => l,
            None => 10,
        };
        let store_now = index_schema(&self.collections[idx].index);
        let all_ids = schema_field_ids(&store_now);
        proof {
            assert forall|j: int| 0 <= j < all_ids@.len() implies ((#[trigger] all_ids@[j]) as nat)
                < index_field_count(self.collections@[idx as int].index) by {
                assert(all_ids@[j] as int == j);
            }
        }
        let hits = match search_text(
            &searcher,
            &self.collections[idx].index,
            &all_ids,
            query,
            limit_n,
        ) {
            Ok(h) => h,
            Err(reason) => {
                return Err(IndexError::new(String::from_str("Unable to parse query"), reason));
            },
        };
        let filtered = filter_hits(&hits, score);
        proof {
            crate::query::lemma_filter_hits_subset(hits@, score, searcher_keys(searcher));
        }
        proof {
            assert forall|x: DocKey| #[trigger] filtered@.contains(x) implies searcher_keys(
                searcher,
            ).contains(x) by {
                assert(spec_filter_hits(hits@, score).contains(x));
            }
        }
        let out = match fetch_documents(
            &searcher,
            name,
            &self.collections[idx].schema,
            &self.collections[idx].store_schema,
            &filtered,
        ) {
            Ok(o) => o,
            Err(e) => {
                return Err(e);
            },
        };
        Ok(Some(out))
    }

    /// Free-text search over the text-typed fields only, each result as the
    /// stored document's JSON text, ready to be read back into the caller's
    /// record shape. Same absence and limit behavior as `read_string`.
    pub fn read_structs(
        &mut self,
        name: &str,
        query: &str,
        limit: Option<usize>,
        score: Option<u32>,
    ) -> (r: Result<Option<Vec<String>>, IndexError>)
        requires
            limit is Some ==> limit->0 >= 1,
        ensures
            old(self).preserved(final(self)),
            !old(self).has_collection(name@) ==> r is Ok && r->Ok_0 is None,
            r is Ok && r->Ok_0 is Some ==> r->Ok_0->0@.len() <= spec_limit(limit),
    {
        let idx = match self.find_collection(name) {
            Some(i) => i,
            None => {
                return Ok(None);
            },
        };
        proof {
            assert(old(self).has_collection(name@));
        }
        match self.prepare_reader(idx) {
            Ok(()) => (),
            Err(_) => {
                return Ok(None);
            },
        }
        let searcher = match &self.collections[idx].reader {
            Some(rd) => reader_searcher(rd),
            None => {
                proof {
                    assert(false);
                }
                return Ok(None);
            },
        };
        let store_now = index_schema(&self.collections[idx].index);
        let mut fields: Vec<u32> = Vec::new();
        let mut i: usize = 0;
        let mappings_len = self.collections[idx].schema.resolve_mapping().len();
        while i < mappings_len
            invariant
                old(self).preserved(self),
                old(self).has_collection(name@),
                idx < self.spec_count(),
                mappings_len == self.collections@[idx as int].schema.spec_mappings().len(),
                schema_field_count(store_now) == index_field_count(
                    self.collections@[idx as int].index,
                ),
                forall|j: int|
                    0 <= j < fields@.len() ==> ((#[trigger] fields@[j]) as nat)
                        < schema_field_count(store_now),
            decreases mappings_len - i,
        {
            let mappings = self.collections[idx].schema.resolve_mapping();
            let is_text = match mappings[i].1 {
                SurferFieldTypes::String => true,
                _ => false,
            };
            if is_text {
                if let Some(id) = schema_get_field(&store_now, mappings[i].0.as_str()) {
                    fields.push(id);
                }
            }
            i += 1;
        }
        let limit_n: usize = match limit {
            Some(l) => l,
            None => 10,
        };
        let hits = match search_text(
            &searcher,
            &self.collections[idx].index,
            &fields,
            query,
            limit_n,
        ) {
            Ok(h) => h,
            Err(reason) => {
                return Err(IndexError::new(String::from_str("Unable to parse query"), reason));
            },
        };
        let filtered = filter_hits(&hits, score);
        proof {
            crate::query::lemma_filter_hits_subset(hits@, score, searcher_keys(searcher));
        }
        proof {
            assert forall|x: DocKey| #[trigger] filtered@.contains(x) implies searcher_keys(
                searcher,
            ).contains(x) by {
                assert(spec_filter_hits(hits@, score).contains(x));
            }
        }
        let out = match fetch_documents(
            &searcher,
            name,
            &self.collections[idx].schema,
            &self.collections[idx].store_schema,
            &filtered,
        ) {
            Ok(o) => o,
            Err(e) => {
                return Err(e);
            },
        };
        Ok(Some(out))
    }

    /// Free-text search with the default limit of ten and no score cutoff.
    pub fn read_all_structs(&mut self, name: &str, query: &str) -> (r: Result<
        Option<Vec<String>>,
        IndexError,
    >)
        ensures
            old(self).preserved(final(self)),
            !old(self).has_collection(name@) ==> r is Ok && r->Ok_0 is None,
            r is Ok && r->Ok_0 is Some ==> r->Ok_0->0@.len() <= 10,
    {
        self.read_structs(name, query, None, None)
    }

    /// Term search on one field: a single-condition query through the
    /// boolean engine.
    pub fn read_structs_by_field(
        &mut self,
        index_name: &str,
        field_name: &str,
        field_value: &str,
        limit: Option<usize>,
        score: Option<u32>,
    ) -> (r: Result<Option<Vec<String>>, IndexError>)
        requires
            limit is Some ==> limit->0 >= 1,
        ensures
            old(self).preserved(final(self)),
            !old(self).has_collection(index_name@) ==> r is Err,
            forall|i: int|
                #[trigger] old(self).is_first_match(index_name@, i) && cond_rejected(
                    old(self).spec_schema_at(i).spec_mappings(),
                    field_name@,
                    field_value@,
                ) ==> r is Err,
            r is Ok && r->Ok_0 is Some ==> r->Ok_0->0@.len() <= spec_limit(limit),
    {
        let mut conditions: Vec<OrCondition> = Vec::new();
        conditions.push(OrCondition::from_pair(field_name.to_owned(), field_value.to_owned()));
        let r = self.multiple_structs_by_field(index_name, &conditions, limit, score);
        proof {
            assert(conditions@.len() == 1);
            assert(spec_limit(limit) * conditions@.len() == spec_limit(limit)) by (nonlinear_arith)
                requires
                    conditions@.len() == 1,
            ;
            assert(conditions@[0].spec_conditions()[0].spec_field_name() == field_name@);
            assert(conditions@[0].spec_conditions()[0].spec_field_value() == field_value@);
            assert forall|i: int|
                old(self).is_first_match(index_name@, i) && cond_rejected(
                    old(self).spec_schema_at(i).spec_mappings(),
                    field_name@,
                    field_value@,
                ) implies some_cond_rejected(
                old(self).spec_schema_at(i).spec_mappings(),
                conditions@,
            ) by {
                assert(cond_rejected(
                    old(self).spec_schema_at(i).spec_mappings(),
                    (conditions@[0].spec_conditions()[0]).spec_field_name(),
                    conditions@[0].spec_conditions()[0].spec_field_value(),
                ));
            }
        }
        r
    }

    /// Term search on one field with no effective score cutoff and the
    /// default limit of ten.
    pub fn read_all_structs_by_field(
        &mut self,
        index_name: &str,
        field_name: &str,
        field_value: &str,
    ) -> (r: Result<Option<Vec<String>>, IndexError>)
        ensures
            old(self).preserved(final(self)),
            !old(self).has_collection(index_name@) ==> r is Err,
            forall|i: int|
                #[trigger] old(self).is_first_match(index_name@, i) && cond_rejected(
                    old(self).spec_schema_at(i).spec_mappings(),
                    field_name@,
                    field_value@,
                ) ==> r is Err,
            r is Ok && r->Ok_0 is Some ==> r->Ok_0->0@.len() <= 10,
    {
        self.read_structs_by_field(index_name, field_name, field_value, None, Some(0))
    }

    /// Deletes every document whose field holds exactly the given value,
    /// then commits. The same conditions that reject a search term reject
    /// the deletion, before anything is staged. A deletion staged before a
    /// commit that fails is not rolled back: a later successful commit
    /// applies it.
    pub fn delete_structs_by_field(
        &mut self,
        index_name: &str,
        field_name: &str,
        field_value: &str,
    ) -> (r: Result<(), IndexError>)
        ensures
            old(self).preserved(final(self)),
            !old(self).has_collection(index_name@) ==> r is Err,
            forall|i: int|
                #[trigger] old(self).is_first_match(index_name@, i) && cond_rejected(
                    old(self).spec_schema_at(i).spec_mappings(),
                    field_name@,
                    field_value@,
                ) ==> r is Err,
    {
        let idx = match self.find_collection(index_name) {
            Some(i) => i,
            None => {
                let mut reason = String::from_str("No schema found for index: ");
                reason.append(index_name);
                let mut message = String::from_str("Invalid index operation for ");
                message.append(index_name);
                return Err(IndexError::new(message, reason));
            },
        };
        proof {
            assert(old(self).is_first_match(index_name@, idx as int));
            assert forall|i: int| old(self).is_first_match(index_name@, i) implies i
                == idx as int by {
                assert(old(self).is_first_match(index_name@, idx as int));
            }
        }
        let term = match build_term(
            &self.collections[idx].schema,
            &self.collections[idx].store_schema,
            field_name,
            field_value,
        ) {
            Ok(t) => t,
            Err(e) => {
                return Err(e);
            },
        };
        match self.prepare_writer(idx) {
            Ok(()) => (),
            Err(e) => {
                return Err(e);
            },
        }
        match &self.collections[idx].writer {
            Some(w) => {
                let _ = writer_delete_term(w, &term.raw);
            },
            None => {
                proof {
                    assert(false);
                }
            },
        }
        self.commit_writer(idx)
    }

    /// Deletes every document where some text field holds exactly the given
    /// value: one term per text field of the schema, then a single commit.
    /// A deletion staged before a commit that fails is not rolled back: a
    /// later successful commit applies it.
    pub fn delete_structs(&mut self, index_name: &str, field_value: &str) -> (r: Result<
        (),
        IndexError,
    >)
        ensures
            old(self).preserved(final(self)),
            !old(self).has_collection(index_name@) ==> r is Err,
    {
        let idx = match self.find_collection(index_name) {
            Some(i) => i,
            None => {
                let mut reason = String::from_str("No schema found for index: ");
                reason.append(index_name);
                let mut message = String::from_str("Invalid index operation for ");
                message.append(index_name);
                return Err(IndexError::new(message, reason));
            },
        };
        let mut terms: Vec<SurferTerm> = Vec::new();
        let mut i: usize = 0;
        let mappings_len = self.collections[idx].schema.resolve_mapping().len();
        while i < mappings_len
            invariant
                old(self).preserved(self),
                idx < self.spec_count(),
                mappings_len == self.collections@[idx as int].schema.spec_mappings().len(),
            decreases mappings_len - i,
        {
            let is_text = match self.collections[idx].schema.resolve_mapping()[i].1 {
                SurferFieldTypes::String => true,
                _ => false,
            };
            if is_text {
                let term = match build_term(
                    &self.collections[idx].schema,
                    &self.collections[idx].store_schema,
                    self.collections[idx].schema.resolve_mapping()[i].0.as_str(),
                    field_value,
                ) {
                    Ok(t) => t,
                    Err(e) => {
                        return Err(e);
                    },
                };
                terms.push(term);
            }
            i += 1;
        }
        match self.prepare_writer(idx) {
            Ok(()) => (),
            Err(e) => {
                return Err(e);
            },
        }
        match &self.collections[idx].writer {
            Some(w) => {
                let mut t: usize = 0;
                while t < terms.len()
                    decreases terms@.len() - t,
                {
                    let _ = writer_delete_term(w, &terms[t].raw);
                    t += 1;
                }
            },
            None => {
                proof {
                    assert(false);
                }
            },
        }
        self.commit_writer(idx)
    }

    /// Writes one record into a collection and commits. Writing into a name
    /// the registry never saw quietly succeeds as a no-op; no document
    /// appears anywhere. A record with a field the collection schema does
    /// not know is rejected before anything reaches the engine, whose
    /// parser would drop such a field silently.
    pub fn insert_struct(&mut self, name: &str, data: &FlatValue) -> (r: Result<(), IndexError>)
        ensures
            old(self).preserved(final(self)),
            !old(self).has_collection(name@) ==> r is Ok,
            old(self).has_collection(name@) && !(data is Record) ==> r is Err,
            old(self).has_collection(name@) && data is Record && has_unsupported(data->0@)
                ==> r is Err,
            forall|i: int|
                #[trigger] old(self).is_first_match(name@, i) && data is Record && !record_fits(
                    old(self).spec_schema_at(i).spec_mappings(),
                    data->0@,
                ) ==> r is Err,
    {
        let idx = match self.find_collection(name) {
            Some(i) => i,
            None => {
                return Ok(());
            },
        };
        proof {
            assert(old(self).is_first_match(name@, idx as int));
            assert forall|i: int| old(self).is_first_match(name@, i) implies i == idx as int by {
                assert(old(self).is_first_match(name@, idx as int));
            }
        }
        let fields = match data {
            FlatValue::Record(fields) => fields,
            FlatValue::Other => {
                return Err(
                    IndexError::new(
                        String::from_str("Unable to parse document"),
                        String::from_str("Expected a flat record"),
                    ),
                );
            },
        };
        let ghost m = self.collections@[idx as int].schema.spec_mappings();
        proof {
            assert(self.spec_schema_at(idx as int) == old(self).spec_schema_at(idx as int));
        }
        let mut f: usize = 0;
        while f < fields.len()
            invariant
                f <= fields@.len(),
                old(self).preserved(self),
                old(self).has_collection(name@),
                idx < self.spec_count(),
                m == self.collections@[idx as int].schema.spec_mappings(),
                data is Record && data->0@ == fields@,
                forall|j: int| 0 <= j < f ==> assoc_lookup(m, (#[trigger] fields@[j]).0@) is Some,
            decreases fields@.len() - f,
        {
            if self.collections[idx].schema.resolve_field_type(fields[f].0.as_str()).is_none() {
                let mut reason = String::from_str("Field: ");
                reason.append(fields[f].0.as_str());
                reason.append(" is not present in the schema");
                return Err(IndexError::new(String::from_str("Unable to parse document"), reason));
            }
            f += 1;
        }
        proof {
            assert(record_fits(m, fields@));
        }
        let json = match record_to_json(fields) {
            Ok(j) => j,
            Err(e) => {
                return Err(e);
            },
        };
        let doc = match parse_document(&self.collections[idx].store_schema, json.as_str()) {
            Ok(d) => d,
            Err(reason) => {
                return Err(IndexError::new(String::from_str("Unable to parse document"), reason));
            },
        };
        match self.prepare_writer(idx) {
            Ok(()) => (),
            Err(e) => {
                return Err(e);
            },
        }
        match &self.collections[idx].writer {
            Some(w) => match writer_add_document(w, doc) {
                Ok(_) => (),
                Err(reason) => {
                    return Err(IndexError::new(String::from_str("Unable to open Index"), reason));
                },
            },
            None => {
                proof {
                    assert(false);
                }
            },
        }
        self.commit_writer(idx)
    }

    /// Writes a batch of records with one commit for the whole batch.
    /// An unknown collection, or one whose write handle cannot be opened,
    /// quietly succeeds as a no-op. A record with a field the collection
    /// schema does not know is rejected before it reaches the engine.
    pub fn insert_structs(&mut self, name: &str, payload: &Vec<FlatValue>) -> (r: Result<
        (),
        IndexError,
    >)
        ensures
            old(self).preserved(final(self)),
            !old(self).has_collection(name@) ==> r is Ok,
    {
        let idx = match self.find_collection(name) {
            Some(i) => i,
            None => {
                return Ok(());
            },
        };
        proof {
            assert(old(self).has_collection(name@));
        }
        match self.prepare_writer(idx) {
            Ok(()) => (),
            Err(_) => {
                return Ok(());
            },
        }
        let mut k: usize = 0;
        while k < payload.len()
            invariant
                k <= payload@.len(),
                old(self).preserved(self),
                old(self).has_collection(name@),
                idx < self.spec_count(),
                self.spec_writer_set(idx as int),
            decreases payload@.len() - k,
        {
            let fields = match &payload[k] {
                FlatValue::Record(fields) => fields,
                FlatValue::Other => {
                    return Err(
                        IndexError::new(
                            String::from_str("Unable to parse document"),
                            String::from_str("Expected a flat record"),
                        ),
                    );
                },
            };
            let mut f: usize = 0;
            while f < fields.len()
                invariant
                    f <= fields@.len(),
                    old(self).preserved(self),
                    old(self).has_collection(name@),
                    idx < self.spec_count(),
                    self.spec_writer_set(idx as int),
                decreases fields@.len() - f,
            {
                if self.collections[idx].schema.resolve_field_type(
                    fields[f].0.as_str(),
                ).is_none() {
                    let mut reason = String::from_str("Field: ");
                    reason.append(fields[f].0.as_str());
                    reason.append(" is not present in the schema");
                    return Err(
                        IndexError::new(String::from_str("Unable to parse document"), reason),
                    );
                }
                f += 1;
            }
            let json = match record_to_json(fields) {
                Ok(j) => j,
                Err(e) => {
                    return Err(e);
                },
            };
            let doc = match parse_document(&self.collections[idx].store_schema, json.as_str()) {
                Ok(d) => d,
                Err(reason) => {
                    return Err(
                        IndexError::new(String::from_str("Unable to parse document"), reason),
                    );
                },
            };
            match &self.collections[idx].writer {
                Some(w) => match writer_add_document(w, doc) {
                    Ok(_) => (),
                    Err(reason) => {
                        return Err(
                            IndexError::new(String::from_str("Unable to open Index"), reason),
                        );
                    },
                },
                None => {
                    proof {
                        assert(false);
                    }
                },
            }
            k += 1;
        }
        self.commit_writer(idx)
    }
}

/// The client face of the manager: querying by boolean conditions with the
/// limit and score conventions of the select path.
pub struct Surf {
    surfer: Surfer,
}

impl Surf {
    /// The wrapped manager, as contracts see it.
    pub closed spec fn spec_surfer(&self) -> Surfer {
        self.surfer
    }

    pub fn new(surfer: Surfer) -> (r: Self)
        ensures
            r.spec_surfer() == surfer,
    {
        Surf { surfer }
    }

    /// The wrapped manager, for every other operation.
    pub fn as_surfer(&mut self) -> (r: &mut Surfer)
        ensures
            *r == old(self).spec_surfer(),
            final(self).spec_surfer() == *final(r),
    {
        &mut self.surfer
    }

    /// Evaluates boolean conditions with the caller's limit and score
    /// cutoff, as `Surfer::multiple_structs_by_field` does.
    pub fn apply(
        &mut self,
        index_name: &str,
        conditions: &Vec<OrCondition>,
        limit: Option<usize>,
        score: Option<u32>,
    ) -> (r: Result<Option<Vec<String>>, IndexError>)
        requires
            limit is Some ==> limit->0 >= 1,
        ensures
            old(self).spec_surfer().preserved(&final(self).spec_surfer()),
            !old(self).spec_surfer().has_collection(index_name@) ==> r is Err,
            forall|i: int|
                #[trigger] old(self).spec_surfer().is_first_match(index_name@, i)
                    && some_cond_rejected(
                    old(self).spec_surfer().spec_schema_at(i).spec_mappings(),
                    conditions@,
                ) ==> r is Err,
            r is Ok && r->Ok_0 is Some ==> r->Ok_0->0@.len() <= spec_limit(limit)
                * conditions@.len(),
    {
        self.surfer.multiple_structs_by_field(index_name, conditions, limit, score)
    }

    /// Evaluates boolean conditions with a limit of one hundred candidates
    /// per term lookup and no effective score cutoff.
    pub fn select(&mut self, index_name: &str, conditions: &Vec<OrCondition>) -> (r: Result<
        Option<Vec<String>>,
        IndexError,
    >)
        ensures
            old(self).spec_surfer().preserved(&final(self).spec_surfer()),
            !old(self).spec_surfer().has_collection(index_name@) ==> r is Err,
            forall|i: int|
                #[trigger] old(self).spec_surfer().is_first_match(index_name@, i)
                    && some_cond_rejected(
                    old(self).spec_surfer().spec_schema_at(i).spec_mappings(),
                    conditions@,
                ) ==> r is Err,
            r is Ok && r->Ok_0 is Some ==> r->Ok_0->0@.len() <= 100 * conditions@.len(),
    {
        self.apply(index_name, conditions, Some(100), Some(0))
    }
}

} // verus!
