//! Collecting enum types one by one into a database.
use vstd::prelude::*;

use crate::database::{digested, Database, DatabaseView};
use crate::enum_type::{enum_views, EnumType, EnumView};
use crate::error::{ErrorView, PGEnumError};
use crate::text::{find_repeat, first_repeat, optional_str, same_text, texts};

verus! {

/// How SQL is read.
#[derive(Debug, Clone)]
pub struct SQLParsingOptions {
    /// The schema of a type that names none.
    pub default_schema: String,
}

impl Default for SQLParsingOptions {
    fn default() -> (r: Self)
        ensures
            r.default_schema@ == "public"@,
    {
        Self { default_schema: "public".to_string() }
    }
}

/// Whether some enum has the given schema and name.
pub open spec fn declares(enums: Seq<EnumView>, schema: Seq<char>, name: Seq<char>) -> bool {
    exists|i: int| 0 <= i < enums.len() && (#[trigger] enums[i]).has_key(schema, name)
}

/// Why an enum cannot be added to others: it repeats a value, or its schema and name are taken.
/// The values are looked at first.
pub open spec fn objection(
    enums: Seq<EnumView>,
    schema: Seq<char>,
    name: Seq<char>,
    values: Seq<Seq<char>>,
) -> Option<ErrorView> {
    match first_repeat(values) {
        Some(value) => Some(ErrorView::DuplicatedValue { schema, enum_name: name, value }),
        None => if declares(enums, schema, name) {
            Some(ErrorView::DuplicatedType { schema, enum_name: name })
        } else {
            None
        },
    }
}

/// The first objection met when enums are added one by one.
pub open spec fn first_objection(enums: Seq<EnumView>) -> Option<ErrorView>
    decreases enums.len(),
{
    if enums.len() == 0 {
        None
    } else {
        match first_objection(enums.drop_last()) {
            Some(e) => Some(e),
            None => objection(
                enums.drop_last(),
                enums.last().schema,
                enums.last().name,
                enums.last().values,
            ),
        }
    }
}

/// No value occurs twice within an enum, and no two enums have the same schema and name.
pub open spec fn consistent(enums: Seq<EnumView>) -> bool {
    &&& forall|i: int| 0 <= i < enums.len() ==> (#[trigger] enums[i]).values.no_duplicates()
    &&& forall|i: int, j: int|
        0 <= i < j < enums.len() ==> !(#[trigger] enums[i]).has_key(
            (#[trigger] enums[j]).schema,
            enums[j].name,
        )
}

/// The position, among the first `n` enums, of the enum with the given schema and name.
fn position(enums: &Vec<EnumType>, n: usize, schema: &str, name: &str) -> (r: Option<usize>)
    requires
        n <= enums@.len(),
    ensures
        match r {
            Some(i) => {
                &&& i < n
                &&& enums@[i as int]@.has_key(schema@, name@)
                &&& forall|j: int|
                    0 <= j < i ==> !(#[trigger] enum_views(enums@)[j]).has_key(schema@, name@)
            },
            None => !declares(enum_views(enums@).take(n as int), schema@, name@),
        },
{
    let mut i: usize = 0;
    while i < n
        invariant
            i <= n <= enums@.len(),
            forall|j: int|
                0 <= j < i ==> !(#[trigger] enum_views(enums@)[j]).has_key(schema@, name@),
        decreases n - i,
    {
        if same_text(enums[i].schema.as_str(), schema) && same_text(enums[i].name.as_str(), name) {
            return Some(i);
        }
        i = i + 1;
    }
    None
}

/// Finds out why an enum cannot be added to the first `n` of others.
fn find_objection(
    enums: &Vec<EnumType>,
    n: usize,
    schema: &str,
    name: &str,
    values: &Vec<String>,
) -> (r: Option<PGEnumError>)
    requires
        n <= enums@.len(),
    ensures
        match r {
            Some(e) => objection(
                enum_views(enums@).take(n as int),
                schema@,
                name@,
                texts(values@),
            ) == Some(e@),
            None => objection(
                enum_views(enums@).take(n as int),
                schema@,
                name@,
                texts(values@),
            ) is None,
        },
{
    if let Some(value) = find_repeat(values) {
        return Some(
            PGEnumError::DuplicatedValue {
                schema: schema.to_string(),
                enum_name: name.to_string(),
                value,
            },
        );
    }
    match position(enums, n, schema, name) {
        Some(i) => {
            assert(enum_views(enums@).take(n as int)[i as int].has_key(schema@, name@));
            Some(
                PGEnumError::DuplicatedType {
                    schema: schema.to_string(),
                    enum_name: name.to_string(),
                },
            )
        },
        None => None,
    }
}

/// An objection met among the first enums is the first one met among all.
pub(crate) proof fn lemma_first_objection_of_prefix(enums: Seq<EnumView>, n: int)
    requires
        0 <= n <= enums.len(),
        first_objection(enums.take(n)) is Some,
    ensures
        first_objection(enums) == first_objection(enums.take(n)),
    decreases enums.len(),
{
    if n < enums.len() {
        assert(enums.drop_last().take(n) =~= enums.take(n));
        lemma_first_objection_of_prefix(enums.drop_last(), n);
    } else {
        assert(enums.take(n) =~= enums);
    }
}

/// Finds the first objection met when enums are added one by one.
pub(crate) fn find_first_objection(enums: &Vec<EnumType>) -> (r: Option<PGEnumError>)
    ensures
        match r {
            Some(e) => first_objection(enum_views(enums@)) == Some(e@),
            None => first_objection(enum_views(enums@)) is None,
        },
{
    let ghost all = enum_views(enums@);
    let mut i: usize = 0;
    while i < enums.len()
        invariant
            i <= enums@.len(),
            all == enum_views(enums@),
            first_objection(all.take(i as int)) is None,
        decreases enums@.len() - i,
    {
        let e = &enums[i];
        assert(all.take(i + 1).drop_last() =~= all.take(i as int));
        assert(all.take(i + 1).last() == e@);
        if let Some(objection) = find_objection(
            enums,
            i,
            e.schema.as_str(),
            e.name.as_str(),
            &e.values,
        ) {
            proof {
                lemma_first_objection_of_prefix(all, i + 1);
            }
            return Some(objection);
        }
        i = i + 1;
    }
    assert(all.take(i as int) =~= all);
    None
}

/// A builder for constructing a `Database` instance incrementally,
/// with checks for duplicate enum types and values.
pub struct DatabaseBuilder {
    name: String,
    enums: Vec<EnumType>,
    options: SQLParsingOptions,
}

/// A builder: the label of the database, the enums collected so far, and the schema of types
/// that name none.
#[verifier::ext_equal]
pub struct BuilderView {
    pub name: Seq<char>,
    pub enums: Seq<EnumView>,
    pub default_schema: Seq<char>,
}

impl BuilderView {
    /// The schema that a type belongs to.
    pub open spec fn resolve(self, schema: Seq<char>) -> Seq<char> {
        if schema.len() == 0 {
            self.default_schema
        } else {
            schema
        }
    }

    /// The builder with one more enum, or the reason why it cannot be added.
    pub open spec fn add_enum(
        self,
        schema: Seq<char>,
        name: Seq<char>,
        values: Seq<Seq<char>>,
        comment: Option<Seq<char>>,
    ) -> Result<BuilderView, ErrorView> {
        match objection(self.enums, self.resolve(schema), name, values) {
            Some(e) => Err(e),
            None => Ok(
                BuilderView {
                    enums: self.enums.push(
                        EnumView::of(self.resolve(schema), name, comment, values),
                    ),
                    ..self
                },
            ),
        }
    }

    /// The builder after the enum with the given schema and name, if there is one, got a comment.
    pub open spec fn set_comment(
        self,
        schema: Seq<char>,
        name: Seq<char>,
        comment: Seq<char>,
    ) -> BuilderView {
        BuilderView {
            enums: self.enums.map_values(
                |e: EnumView|
                    if e.has_key(self.resolve(schema), name) {
                        EnumView { comment: Some(comment), ..e }
                    } else {
                        e
                    },
            ),
            ..self
        }
    }

    /// Every digest belongs to its enum, and no schema and name and no value within an enum
    /// occurs twice.
    pub open spec fn wf(self) -> bool {
        digested(self.enums) && consistent(self.enums)
    }
}

impl View for DatabaseBuilder {
    type V = BuilderView;

    closed spec fn view(&self) -> BuilderView {
        BuilderView {
            name: self.name@,
            enums: enum_views(self.enums@),
            default_schema: self.options.default_schema@,
        }
    }
}

/// No objection is met exactly when the enums are consistent.
pub proof fn lemma_first_objection(enums: Seq<EnumView>)
    ensures
        first_objection(enums) is None <==> consistent(enums),
    decreases enums.len(),
{
    if enums.len() > 0 {
        let init = enums.drop_last();
        let last = enums.last();
        lemma_first_objection(init);
        crate::text::lemma_first_repeat(last.values);
        assert(forall|i: int| 0 <= i < init.len() ==> init[i] == enums[i]);
        if first_objection(enums) is None {
            assert forall|i: int, j: int| 0 <= i < j < enums.len() implies !(
            #[trigger] enums[i]).has_key((#[trigger] enums[j]).schema, enums[j].name) by {
                assert(init[i] == enums[i]);
                if j < init.len() {
                    assert(init[j] == enums[j]);
                }
            }
            assert forall|i: int| 0 <= i < enums.len() implies (
            #[trigger] enums[i]).values.no_duplicates() by {
                if i < init.len() {
                    assert(init[i].values.no_duplicates());
                }
            }
        } else if first_objection(init) is None {
            assert(enums[enums.len() - 1] == last);
        } else {
            assert(forall|i: int| 0 <= i < init.len() ==> #[trigger] init[i] == enums[i]);
        }
    }
}

/// An enum that meets no objection keeps a builder valid.
pub proof fn lemma_add_enum_wf(
    builder: BuilderView,
    schema: Seq<char>,
    name: Seq<char>,
    values: Seq<Seq<char>>,
    comment: Option<Seq<char>>,
)
    requires
        builder.wf(),
    ensures
        builder.add_enum(schema, name, values, comment) matches Ok(next) ==> next.wf(),
{
    if let Ok(next) = builder.add_enum(schema, name, values, comment) {
        assert(next.enums.drop_last() =~= builder.enums);
        lemma_first_objection(builder.enums);
        lemma_first_objection(next.enums);
        assert forall|i: int| 0 <= i < next.enums.len() implies (#[trigger] next.enums[i]).wf() by {
            if i < builder.enums.len() {
                assert(builder.enums[i].wf());
            }
        }
    }
}

/// Setting a comment touches no schema, name, value or digest, so it keeps a builder valid.
pub proof fn lemma_set_comment_wf(
    builder: BuilderView,
    schema: Seq<char>,
    name: Seq<char>,
    comment: Seq<char>,
)
    requires
        builder.wf(),
    ensures
        builder.set_comment(schema, name, comment).wf(),
{
    let before = builder.enums;
    let after = builder.set_comment(schema, name, comment).enums;
    assert forall|i: int| 0 <= i < after.len() implies (#[trigger] after[i]).wf() by {
        assert(before[i].wf());
    }
    assert forall|i: int| 0 <= i < after.len() implies (
    #[trigger] after[i]).values.no_duplicates() by {
        assert(before[i].values.no_duplicates());
    }
    assert forall|i: int, j: int| 0 <= i < j < after.len() implies !(#[trigger] after[i]).has_key(
        (#[trigger] after[j]).schema,
        after[j].name,
    ) by {
        assert(!before[i].has_key(before[j].schema, before[j].name));
    }
}

impl DatabaseBuilder {
    /// Every digest belongs to its enum, and no schema and name and no value within an enum
    /// occurs twice.
    pub open spec fn wf(&self) -> bool {
        self@.wf()
    }

    /// A builder without enums.
    pub fn new(name: &str, options: SQLParsingOptions) -> (r: Self)
        ensures
            r.wf(),
            r@ == (BuilderView {
                name: name@,
                enums: Seq::empty(),
                default_schema: options.default_schema@,
            }),
    {
        let r = DatabaseBuilder { name: name.to_string(), enums: Vec::new(), options };
        assert(r@.enums =~= Seq::<EnumView>::empty());
        r
    }

    /// The schema that a type belongs to: the default schema if it names none.
    fn resolve(&self, schema: &str) -> (r: String)
        ensures
            r@ == self@.resolve(schema@),
    {
        if schema.is_empty() {
            self.options.default_schema.clone()
        } else {
            schema.to_string()
        }
    }

    /// Adds an enum, in the default schema if `schema` is empty.
    ///
    /// Fails if a value occurs twice, or else if there is an enum with the same schema and name;
    /// the builder then stays as it is.
    pub fn add_enum(
        &mut self,
        schema: &str,
        name: &str,
        values: Vec<String>,
        comment: Option<&str>,
    ) -> (r: Result<(), PGEnumError>)
        requires
            old(self).wf(),
        ensures
            final(self).wf(),
            match r {
                Ok(()) => old(self)@.add_enum(
                    schema@,
                    name@,
                    texts(values@),
                    optional_str(comment),
                ) == Ok::<BuilderView, ErrorView>(final(self)@),
                Err(e) => {
                    &&& old(self)@.add_enum(schema@, name@, texts(values@), optional_str(comment))
                        == Err::<BuilderView, ErrorView>(e@)
                    &&& final(self)@ == old(self)@
                },
            },
    {
        let ghost given = schema@;
        let schema = self.resolve(schema);
        assert(self@.enums.take(self.enums@.len() as int) =~= self@.enums);
        if let Some(e) = find_objection(
            &self.enums,
            self.enums.len(),
            schema.as_str(),
            name,
            &values,
        ) {
            return Err(e);
        }
        let comment = match comment {
            Some(s) => Some(s.to_string()),
            None => None,
        };
        let e = EnumType::new(schema, name.to_string(), comment, values);
        self.enums.push(e);
        proof {
            assert(self@.enums =~= old(self)@.enums.push(e@));
            lemma_add_enum_wf(old(self)@, given, name@, e@.values, e@.comment);
        }
        Ok(())
    }

    /// Sets the comment of an enum, in the default schema if `schema` is empty.
    ///
    /// A comment on an enum that is not there is dropped.
    pub fn set_comment(&mut self, schema: &str, name: &str, comment: &str)
        requires
            old(self).wf(),
        ensures
            final(self).wf(),
            final(self)@ == old(self)@.set_comment(schema@, name@, comment@),
    {
        let ghost given = schema@;
        let schema = self.resolve(schema);
        let ghost before = self@.enums;
        let ghost after = self@.set_comment(given, name@, comment@).enums;
        proof {
            lemma_set_comment_wf(self@, given, name@, comment@);
        }
        assert(before.take(before.len() as int) =~= before);
        match position(&self.enums, self.enums.len(), schema.as_str(), name) {
            Some(i) => {
                assert forall|j: int| 0 <= j < before.len() && j != i implies !(
                #[trigger] before[j]).has_key(schema@, name@) by {
                    if i < j {
                        assert(!before[i as int].has_key(before[j].schema, before[j].name));
                    }
                }
                self.enums[i].comment = Some(comment.to_string());
                assert(self@.enums =~= after);
            },
            None => {
                assert(before =~= after);
            },
        }
    }
}

impl From<DatabaseBuilder> for Database {
    /// The database of the collected enums.
    fn from(builder: DatabaseBuilder) -> (r: Self)
        ensures
            builder.wf() ==> r.wf(),
            r@ == (DatabaseView { name: builder@.name, enums: builder@.enums }),
    {
        Database::assemble(builder.name, builder.enums)
    }
}

/// What `from` returns is stated by its own contract.
impl vstd::std_specs::convert::FromSpecImpl<DatabaseBuilder> for Database {
    open spec fn obeys_from_spec() -> bool {
        false
    }

    open spec fn from_spec(builder: DatabaseBuilder) -> Self {
        arbitrary()
    }
}

} // verus!
