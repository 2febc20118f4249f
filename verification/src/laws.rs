//! What holds of the library as a whole.
use vstd::prelude::*;

use crate::builder::{
    consistent, declares, lemma_add_enum_wf, lemma_first_objection, lemma_set_comment_wf,
    BuilderView,
};
use crate::database::{digested, lookup_enum, same_enums, DatabaseView};
use crate::digest::{digest_of, fingerprint, lower_hex};
use crate::enum_type::EnumView;
use crate::error::ErrorView;
use crate::index::{
    indexed, key_indexed, lemma_with_name_push, name_indexed, names_in, schemas_of, with_key,
    with_name, EnumLookup, SchemaMap, SchemalessLookup,
};
use crate::representation::{read_back, V1View, RON_VERSION};
use crate::sql::{
    apply, apply_all, extract, lemma_apply_all_keeps, name_part, node_texts, schema_part, ListNode,
    ObjectNode, ObjectType, Statement,
};
use crate::text::{first_repeat, lemma_first_repeat, texts};

verus! {

/// A filtered list holds elements that pass the filter, and all of them.
proof fn lemma_filter(enums: Seq<EnumView>, keep: spec_fn(EnumView) -> bool)
    ensures
        forall|i: int|
            0 <= i < enums.filter(keep).len() ==> keep(#[trigger] enums.filter(keep)[i])
                && enums.contains(enums.filter(keep)[i]),
        forall|i: int|
            0 <= i < enums.len() && keep(#[trigger] enums[i]) ==> enums.filter(keep).contains(
                enums[i],
            ),
    decreases enums.len(),
{
    reveal(Seq::filter);
    if enums.len() > 0 {
        let init = enums.drop_last();
        let hits = enums.filter(keep);
        let init_hits = init.filter(keep);
        lemma_filter(init, keep);
        assert forall|i: int| 0 <= i < hits.len() implies keep(#[trigger] hits[i])
            && enums.contains(hits[i]) by {
            if i < init_hits.len() {
                assert(hits[i] == init_hits[i]);
                let j = choose|j: int| 0 <= j < init.len() && init[j] == init_hits[i];
                assert(enums[j] == hits[i]);
            } else {
                assert(enums[enums.len() - 1] == hits[i]);
            }
        }
        assert forall|i: int|
            0 <= i < enums.len() && keep(#[trigger] enums[i]) implies hits.contains(enums[i]) by {
            if i < init.len() {
                assert(init[i] == enums[i]);
                let j = choose|j: int| 0 <= j < init_hits.len() && init_hits[j] == init[i];
                assert(hits[j] == enums[i]);
            } else {
                assert(hits[hits.len() - 1] == enums[i]);
            }
        }
    }
}

/// The enums with a key are enums with that key, and all of them.
proof fn lemma_with_key(enums: Seq<EnumView>, schema: Seq<char>, name: Seq<char>)
    ensures
        forall|i: int|
            0 <= i < with_key(enums, schema, name).len() ==> {
                &&& (#[trigger] with_key(enums, schema, name)[i]).has_key(schema, name)
                &&& enums.contains(with_key(enums, schema, name)[i])
            },
        forall|i: int|
            0 <= i < enums.len() && (#[trigger] enums[i]).has_key(schema, name) ==> with_key(
                enums,
                schema,
                name,
            ).contains(enums[i]),
{
    lemma_filter(enums, |e: EnumView| e.has_key(schema, name));
}

/// The enums with a name are enums with that name, and all of them.
proof fn lemma_with_name(enums: Seq<EnumView>, name: Seq<char>)
    ensures
        forall|i: int|
            0 <= i < with_name(enums, name).len() ==> {
                &&& (#[trigger] with_name(enums, name)[i]).name == name
                &&& enums.contains(with_name(enums, name)[i])
            },
        forall|i: int|
            0 <= i < enums.len() && (#[trigger] enums[i]).name == name ==> with_name(
                enums,
                name,
            ).contains(enums[i]),
{
    lemma_filter(enums, |e: EnumView| e.name == name);
}

/// What a lookup finds is an enum of the database, with the name and, if one was given, the
/// schema that were asked for.
pub proof fn law_lookup_finds_what_was_asked(
    enums: Seq<EnumView>,
    schema: Option<Seq<char>>,
    name: Seq<char>,
)
    ensures
        lookup_enum(enums, schema, name) matches Ok(e) ==> {
            &&& enums.contains(e)
            &&& e.name == name
            &&& schema matches Some(s) ==> e.schema == s
        },
{
    lemma_with_name(enums, name);
    if let Some(s) = schema {
        lemma_with_key(enums, s, name);
    }
}

/// In a consistent database every enum is found by its schema and name.
pub proof fn law_every_enum_is_found(enums: Seq<EnumView>, i: int)
    requires
        consistent(enums),
        0 <= i < enums.len(),
    ensures
        lookup_enum(enums, Some(enums[i].schema), enums[i].name) == Ok::<EnumView, ErrorView>(
            enums[i],
        ),
{
    let e = enums[i];
    let hits = with_key(enums, e.schema, e.name);
    lemma_with_key(enums, e.schema, e.name);
    assert(e.has_key(e.schema, e.name));
    assert(hits.contains(e));
    let last = hits[hits.len() - 1];
    assert(last.has_key(e.schema, e.name));
    let j = choose|j: int| 0 <= j < enums.len() && enums[j] == last;
    if j < i {
        assert(!enums[j].has_key(enums[i].schema, enums[i].name));
    } else if i < j {
        assert(!enums[i].has_key(enums[j].schema, enums[j].name));
    }
}

/// What is found without a schema is also found with the schema it turned out to have.
pub proof fn law_unqualified_agrees_with_qualified(enums: Seq<EnumView>, name: Seq<char>)
    ensures
        lookup_enum(enums, None, name) matches Ok(e) ==> lookup_enum(enums, Some(e.schema), name)
            == Ok::<EnumView, ErrorView>(e),
{
    if let Ok(e) = lookup_enum(enums, None, name) {
        let named = with_name(enums, name);
        let keyed = with_key(enums, e.schema, name);
        lemma_with_name(enums, name);
        lemma_with_key(enums, e.schema, name);
        assert(named[0] == e);
        let i = choose|i: int| 0 <= i < enums.len() && enums[i] == e;
        assert(enums[i].has_key(e.schema, name));
        assert(keyed.contains(e));
        let last = keyed[keyed.len() - 1];
        assert(last.has_key(e.schema, name));
        let j = choose|j: int| 0 <= j < enums.len() && enums[j] == last;
        assert(enums[j].name == name);
        assert(named.contains(last));
    }
}

/// A name that is not found without a schema is found in no schema.
pub proof fn law_not_found_anywhere(enums: Seq<EnumView>, schema: Seq<char>, name: Seq<char>)
    ensures
        lookup_enum(enums, None, name) == Err::<EnumView, ErrorView>(
            ErrorView::EnumNotFound { name, schema: None },
        ) ==> lookup_enum(enums, Some(schema), name) == Err::<EnumView, ErrorView>(
            ErrorView::EnumNotFound { name, schema: Some(schema) },
        ),
{
    let named = with_name(enums, name);
    let keyed = with_key(enums, schema, name);
    lemma_with_name(enums, name);
    lemma_with_key(enums, schema, name);
    if named.len() == 0 && keyed.len() > 0 {
        assert(keyed[0].has_key(schema, name));
        let i = choose|i: int| 0 <= i < enums.len() && enums[i] == keyed[0];
        assert(enums[i].name == name);
        assert(named.contains(enums[i]));
    }
}

/// The schemas that a conflict lists are at least two, and the name is found in each of them.
pub proof fn law_conflict_lists_schemas(enums: Seq<EnumView>, name: Seq<char>)
    ensures
        lookup_enum(enums, None, name) matches Err(ErrorView::EnumConflict { name: n, schemas })
            ==> {
            &&& n == name
            &&& schemas.len() >= 2
            &&& forall|i: int|
                0 <= i < schemas.len() ==> lookup_enum(enums, Some(#[trigger] schemas[i]), name)
                    is Ok
        },
{
    let named = with_name(enums, name);
    lemma_with_name(enums, name);
    if named.len() >= 2 {
        let schemas = schemas_of(named);
        assert forall|i: int| 0 <= i < schemas.len() implies lookup_enum(
            enums,
            Some(#[trigger] schemas[i]),
            name,
        ) is Ok by {
            lemma_with_key(enums, schemas[i], name);
            assert(named[i].name == name);
            let j = choose|j: int| 0 <= j < enums.len() && enums[j] == named[i];
            assert(enums[j].has_key(schemas[i], name));
            assert(with_key(enums, schemas[i], name).contains(enums[j]));
        }
    }
}

/// In a consistent database the schemas that a conflict lists are pairwise different.
pub proof fn law_conflict_schemas_differ(enums: Seq<EnumView>, name: Seq<char>)
    requires
        consistent(enums),
    ensures
        schemas_of(with_name(enums, name)).no_duplicates(),
    decreases enums.len(),
{
    reveal(Seq::filter);
    if enums.len() > 0 {
        let init = enums.drop_last();
        let last = enums.last();
        let init_hits = with_name(init, name);
        assert(consistent(init)) by {
            assert(forall|i: int| 0 <= i < init.len() ==> #[trigger] init[i] == enums[i]);
        }
        law_conflict_schemas_differ(init, name);
        assert(init.push(last) =~= enums);
        lemma_with_name_push(init, last, name);
        lemma_with_name(init, name);
        let before = schemas_of(init_hits);
        let after = schemas_of(with_name(enums, name));
        if last.name == name {
            assert(after =~= before.push(last.schema));
            assert forall|i: int| 0 <= i < before.len() implies before[i] != last.schema by {
                let j = choose|j: int| 0 <= j < init.len() && init[j] == init_hits[i];
                assert(init_hits[i].name == name);
                assert(!enums[j].has_key(enums[enums.len() - 1].schema, last.name));
            }
        }
    }
}

/// A statement applied to a valid builder keeps it valid.
proof fn lemma_apply_wf(builder: BuilderView, statement: Statement)
    requires
        builder.wf(),
    ensures
        apply(builder, statement) matches Ok(next) ==> next.wf(),
{
    match statement {
        Statement::CreateEnum { names, vals } => {
            lemma_add_enum_wf(
                builder,
                schema_part(names@),
                name_part(names@),
                node_texts(vals@),
                None,
            );
        },
        Statement::Comment { objtype: _, object: Some(ObjectNode::TypeName { names }), comment } => {
            lemma_set_comment_wf(builder, schema_part(names@), name_part(names@), comment@);
        },
        _ => {},
    }
}

/// Statements applied to a valid builder keep it valid.
pub proof fn law_statements_keep_builder_valid(builder: BuilderView, statements: Seq<Statement>)
    requires
        builder.wf(),
    ensures
        apply_all(builder, statements) matches Ok(done) ==> done.wf(),
    decreases statements.len(),
{
    if statements.len() > 0 {
        law_statements_keep_builder_valid(builder, statements.drop_last());
        if let Ok(next) = apply_all(builder, statements.drop_last()) {
            lemma_apply_wf(next, statements.last());
        }
    }
}

/// A database extracted from SQL repeats no value within an enum and no schema and name among
/// its enums, and its digests belong to its enums.
pub proof fn law_extracted_database_is_consistent(
    name: Seq<char>,
    parsed: Result<Vec<Statement>, String>,
    default_schema: Seq<char>,
)
    ensures
        extract(name, parsed, default_schema) matches Ok(database) ==> {
            &&& consistent(database.enums)
            &&& digested(database.enums)
            &&& database.name == name
        },
{
    if let Ok(statements) = parsed {
        law_statements_keep_builder_valid(
            BuilderView { name, enums: Seq::empty(), default_schema },
            statements@,
        );
    }
}

/// A database read back repeats no value within an enum and no schema and name among its enums,
/// and its digests belong to its enums.
pub proof fn law_read_back_database_is_consistent(
    version: u32,
    parsed: Result<V1View, ron::error::SpannedError>,
)
    ensures
        read_back(version, parsed) matches Ok(database) ==> consistent(database.enums) && digested(
            database.enums,
        ),
{
    if let Ok(database) = read_back(version, parsed) {
        let read = parsed->Ok_0.enums;
        lemma_first_objection(read);
        assert forall|i: int| 0 <= i < read.len() implies (
        #[trigger] database.enums[i]).values.no_duplicates() by {
            assert(read[i].values.no_duplicates());
        }
        assert forall|i: int, j: int| 0 <= i < j < read.len() implies !(
        #[trigger] database.enums[i]).has_key(
            (#[trigger] database.enums[j]).schema,
            database.enums[j].name,
        ) by {
            assert(!read[i].has_key(read[j].schema, read[j].name));
        }
    }
}

/// A database whose digests belong to its enums is what its serialised form stands for.
pub proof fn law_serialised_form_keeps_everything(database: DatabaseView)
    requires
        digested(database.enums),
    ensures
        V1View::of(database).database() == database,
{
    assert forall|i: int| 0 <= i < database.enums.len() implies V1View::of(
        database,
    ).database().enums[i] == database.enums[i] by {
        assert(database.enums[i].wf());
    }
    assert(V1View::of(database).database().enums =~= database.enums);
}

/// Reading back the serialised form of a consistent database gives the database.
pub proof fn law_round_trip(database: DatabaseView)
    requires
        digested(database.enums),
        consistent(database.enums),
    ensures
        read_back(RON_VERSION, Ok(V1View::of(database))) == Ok::<DatabaseView, ErrorView>(database),
{
    lemma_first_objection(database.enums);
    law_serialised_form_keeps_everything(database);
}

/// What was extracted from SQL comes back from its serialised form.
pub proof fn law_round_trip_of_extracted(
    name: Seq<char>,
    parsed: Result<Vec<Statement>, String>,
    default_schema: Seq<char>,
)
    ensures
        extract(name, parsed, default_schema) matches Ok(database) ==> read_back(
            RON_VERSION,
            Ok(V1View::of(database)),
        ) == Ok::<DatabaseView, ErrorView>(database),
{
    law_extracted_database_is_consistent(name, parsed, default_schema);
    if let Ok(database) = extract(name, parsed, default_schema) {
        law_round_trip(database);
    }
}

/// What was read back once is read back again from its serialised form.
pub proof fn law_round_trip_of_read_back(
    version: u32,
    parsed: Result<V1View, ron::error::SpannedError>,
)
    ensures
        read_back(version, parsed) matches Ok(database) ==> read_back(
            RON_VERSION,
            Ok(V1View::of(database)),
        ) == Ok::<DatabaseView, ErrorView>(database),
{
    law_read_back_database_is_consistent(version, parsed);
    if let Ok(database) = read_back(version, parsed) {
        law_round_trip(database);
    }
}

/// Equality of enums is an equivalence.
pub proof fn law_enum_equality_is_an_equivalence(a: EnumView, b: EnumView, c: EnumView)
    ensures
        a.same(a),
        a.same(b) ==> b.same(a),
        a.same(b) && b.same(c) ==> a.same(c),
{
}

/// Equality of databases is an equivalence.
pub proof fn law_database_equality_is_an_equivalence(
    a: DatabaseView,
    b: DatabaseView,
    c: DatabaseView,
)
    ensures
        a.same(a),
        a.same(b) ==> b.same(a),
        a.same(b) && b.same(c) ==> a.same(c),
{
    if a.same(b) {
        assert forall|i: int| 0 <= i < b.enums.len() implies (#[trigger] b.enums[i]).same(
            a.enums[i],
        ) by {
            assert(a.enums[i].same(b.enums[i]));
        }
        if b.same(c) {
            assert forall|i: int| 0 <= i < a.enums.len() implies (#[trigger] a.enums[i]).same(
                c.enums[i],
            ) by {
                assert(b.enums[i].same(c.enums[i]));
            }
        }
    }
}

/// Enums with the same schema, name and values are equal, whatever their comments say.
pub proof fn law_comments_do_not_matter(a: EnumView, b: EnumView)
    requires
        a.wf(),
        b.wf(),
        a.schema == b.schema,
        a.name == b.name,
        a.values == b.values,
    ensures
        a.same(b),
{
}

/// Different numbers are written differently in hexadecimal.
pub proof fn law_hexadecimal_is_injective(a: nat, b: nat)
    requires
        lower_hex(a) == lower_hex(b),
    ensures
        a == b,
    decreases a,
{
    let x = lower_hex(a);
    let y = lower_hex(b);
    lemma_lower_hex_len(a);
    lemma_lower_hex_len(b);
    assert(x.last() == y.last());
    if a >= 16 {
        assert(x.drop_last() =~= lower_hex(a / 16));
        assert(y.drop_last() =~= lower_hex(b / 16));
        law_hexadecimal_is_injective(a / 16, b / 16);
    }
}

/// A number has one hexadecimal digit exactly when it is below sixteen.
proof fn lemma_lower_hex_len(n: nat)
    ensures
        lower_hex(n).len() >= 1,
        lower_hex(n).len() == 1 <==> n < 16,
    decreases n,
{
    if n >= 16 {
        lemma_lower_hex_len(n / 16);
    }
}

/// Two enums with a name make two hits for it.
proof fn lemma_two_with_name(enums: Seq<EnumView>, name: Seq<char>, i: int, j: int)
    requires
        0 <= i < j < enums.len(),
        enums[i].name == name,
        enums[j].name == name,
    ensures
        with_name(enums, name).len() >= 2,
    decreases enums.len(),
{
    reveal(Seq::filter);
    let init = enums.drop_last();
    if j < init.len() {
        lemma_two_with_name(init, name, i, j);
    } else {
        lemma_filter(init, |e: EnumView| e.name == name);
        assert(init[i].name == name);
    }
}

/// Whether two entries of the index of names say the same.
pub open spec fn same_lookup(a: EnumLookup, b: EnumLookup) -> bool {
    match (a, b) {
        (EnumLookup::Found(i), EnumLookup::Found(j)) => i == j,
        (EnumLookup::Conflict(s), EnumLookup::Conflict(t)) => texts(s@) == texts(t@),
        _ => false,
    }
}

/// A list of enums has one index of names and one index of schemas: any two hold the same keys,
/// and the same under each.
pub proof fn law_indexes_are_determined_by_enums(
    enums: Seq<EnumView>,
    lookup: SchemalessLookup,
    schemas: SchemaMap,
    other_lookup: SchemalessLookup,
    other_schemas: SchemaMap,
)
    requires
        indexed(enums, lookup, schemas),
        indexed(enums, other_lookup, other_schemas),
    ensures
        lookup@.dom() == other_lookup@.dom(),
        forall|name: Seq<char>| #[trigger]
            lookup@.contains_key(name) ==> same_lookup(lookup@[name], other_lookup@[name]),
        schemas@.dom() == other_schemas@.dom(),
        forall|schema: Seq<char>| #[trigger]
            schemas@.contains_key(schema) ==> schemas@[schema]@ == other_schemas@[schema]@,
{
    assert forall|name: Seq<char>| #[trigger]
        lookup@.contains_key(name) == other_lookup@.contains_key(name) && (lookup@.contains_key(
            name,
        ) ==> same_lookup(lookup@[name], other_lookup@[name])) by {
        assert(name_indexed(enums, lookup@, name));
        assert(name_indexed(enums, other_lookup@, name));
        lemma_filter(enums, |e: EnumView| e.name == name);
        if lookup@.contains_key(name) {
            if let (EnumLookup::Found(i), EnumLookup::Found(j)) = (
                lookup@[name],
                other_lookup@[name],
            ) {
                if i < j {
                    lemma_two_with_name(enums, name, i as int, j as int);
                } else if j < i {
                    lemma_two_with_name(enums, name, j as int, i as int);
                }
            }
        }
    }
    assert(lookup@.dom() =~= other_lookup@.dom());
    assert(forall|schema: Seq<char>| #[trigger]
        schemas@.contains_key(schema) == other_schemas@.contains_key(schema));
    assert(schemas@.dom() =~= other_schemas@.dom());
    assert forall|schema: Seq<char>| #[trigger] schemas@.contains_key(schema) implies
        schemas@[schema]@ == other_schemas@[schema]@ by {
        let names = names_in(schemas@, schema);
        let other_names = names_in(other_schemas@, schema);
        assert(other_schemas@.contains_key(schema));
        assert forall|name: Seq<char>| #[trigger]
            names.contains_key(name) == other_names.contains_key(name) && (names.contains_key(name)
                ==> names[name] == other_names[name]) by {
            assert(key_indexed(enums, schemas@, schema, name));
            assert(key_indexed(enums, other_schemas@, schema, name));
        }
        assert(names =~= other_names);
    }
}

/// Enums are equal exactly when the hashes of their schemas, names and values are.
pub proof fn law_equality_compares_hashes(a: EnumView, b: EnumView)
    requires
        a.wf(),
        b.wf(),
    ensures
        a.same(b) <==> fingerprint(a.schema, a.name, a.values) == fingerprint(
            b.schema,
            b.name,
            b.values,
        ),
{
    if a.same(b) {
        law_hexadecimal_is_injective(
            fingerprint(a.schema, a.name, a.values) as nat,
            fingerprint(b.schema, b.name, b.values) as nat,
        );
    }
}

/// A digest has one to sixteen characters, each a lower-case hexadecimal digit, and does not
/// start with a zero unless it is that zero alone.
pub proof fn law_digest_is_short_hexadecimal(
    schema: Seq<char>,
    name: Seq<char>,
    values: Seq<Seq<char>>,
)
    ensures
        1 <= digest_of(schema, name, values).len() <= 16,
        digest_of(schema, name, values).len() > 1 ==> digest_of(schema, name, values)[0] != '0',
        forall|i: int|
            0 <= i < digest_of(schema, name, values).len() ==> is_hex_digit(
                #[trigger] digest_of(schema, name, values)[i],
            ),
{
    let n = fingerprint(schema, name, values) as nat;
    assert(n < vstd::arithmetic::power::pow(16, 16)) by {
        assert(vstd::arithmetic::power::pow(16, 16) == 0x1_0000_0000_0000_0000) by {
            reveal_with_fuel(vstd::arithmetic::power::pow, 17);
        }
    }
    lemma_lower_hex_digits(n, 16);
    lemma_lower_hex_first(n);
}

/// The first hexadecimal digit of a number is zero only if the number is.
proof fn lemma_lower_hex_first(n: nat)
    ensures
        lower_hex(n).len() >= 1,
        lower_hex(n)[0] == '0' <==> n == 0,
    decreases n,
{
    if n >= 16 {
        lemma_lower_hex_first(n / 16);
    }
}

/// Whether a character is a lower-case hexadecimal digit.
pub open spec fn is_hex_digit(c: char) -> bool {
    '0' <= c <= '9' || 'a' <= c <= 'f'
}

/// A number below a power of sixteen has no more digits than the exponent says.
proof fn lemma_lower_hex_digits(n: nat, k: nat)
    requires
        k >= 1,
        n < vstd::arithmetic::power::pow(16, k),
    ensures
        1 <= lower_hex(n).len() <= k,
        forall|i: int|
            0 <= i < lower_hex(n).len() ==> is_hex_digit(#[trigger] lower_hex(n)[i]),
    decreases n,
{
    reveal(vstd::arithmetic::power::pow);
    if n >= 16 {
        if k == 1 {
            assert(vstd::arithmetic::power::pow(16, 0) == 1);
            assert(vstd::arithmetic::power::pow(16, 1) == 16);
        }
        assert(vstd::arithmetic::power::pow(16, k) == 16 * vstd::arithmetic::power::pow(
            16,
            (k - 1) as nat,
        ));
        lemma_lower_hex_digits(n / 16, (k - 1) as nat);
    }
}

/// Once a type was added, adding one with the same schema and name fails.
pub proof fn law_type_is_added_once(
    builder: BuilderView,
    schema: Seq<char>,
    name: Seq<char>,
    values: Seq<Seq<char>>,
    comment: Option<Seq<char>>,
    other_values: Seq<Seq<char>>,
    other_comment: Option<Seq<char>>,
)
    requires
        other_values.no_duplicates(),
    ensures
        builder.add_enum(schema, name, values, comment) matches Ok(next) ==> next.add_enum(
            schema,
            name,
            other_values,
            other_comment,
        ) == Err::<BuilderView, ErrorView>(
            ErrorView::DuplicatedType { schema: builder.resolve(schema), enum_name: name },
        ),
{
    lemma_first_repeat(other_values);
    if let Ok(next) = builder.add_enum(schema, name, values, comment) {
        assert(next.enums[next.enums.len() - 1].has_key(builder.resolve(schema), name));
    }
}

/// A type that repeats a value is never added.
pub proof fn law_repeated_value_is_rejected(
    builder: BuilderView,
    schema: Seq<char>,
    name: Seq<char>,
    values: Seq<Seq<char>>,
    comment: Option<Seq<char>>,
)
    requires
        !values.no_duplicates(),
    ensures
        builder.add_enum(schema, name, values, comment) matches Err(ErrorView::DuplicatedValue {
            schema: s,
            enum_name,
            value,
        }) && s == builder.resolve(schema) && enum_name == name && values.contains(value),
{
    lemma_first_repeat(values);
    lemma_first_repeat_is_a_value(values);
}

/// A repeated value is one of the values.
proof fn lemma_first_repeat_is_a_value(values: Seq<Seq<char>>)
    ensures
        first_repeat(values) matches Some(value) ==> values.contains(value),
    decreases values.len(),
{
    if values.len() > 0 {
        let init = values.drop_last();
        lemma_first_repeat_is_a_value(init);
        match first_repeat(init) {
            Some(value) => {
                let i = choose|i: int| 0 <= i < init.len() && init[i] == value;
                assert(values[i] == value);
            },
            None => {
                assert(values[values.len() - 1] == values.last());
            },
        }
    }
}

/// To name no schema is to name the default schema.
pub proof fn law_no_schema_means_default_schema(
    builder: BuilderView,
    name: Seq<char>,
    values: Seq<Seq<char>>,
    comment: Option<Seq<char>>,
    text: Seq<char>,
)
    ensures
        builder.add_enum(Seq::empty(), name, values, comment) == builder.add_enum(
            builder.default_schema,
            name,
            values,
            comment,
        ),
        builder.set_comment(Seq::empty(), name, text) == builder.set_comment(
            builder.default_schema,
            name,
            text,
        ),
{
    assert(builder.set_comment(Seq::empty(), name, text).enums =~= builder.set_comment(
        builder.default_schema,
        name,
        text,
    ).enums);
}

/// Of two comments on the same type the later one stays.
pub proof fn law_last_comment_wins(
    builder: BuilderView,
    schema: Seq<char>,
    name: Seq<char>,
    first: Seq<char>,
    second: Seq<char>,
)
    ensures
        builder.set_comment(schema, name, first).set_comment(schema, name, second)
            == builder.set_comment(schema, name, second),
{
    assert(builder.set_comment(schema, name, first).set_comment(schema, name, second).enums
        =~= builder.set_comment(schema, name, second).enums);
}

/// A comment on a type that is not there changes nothing.
pub proof fn law_comment_on_unknown_type_is_dropped(
    builder: BuilderView,
    schema: Seq<char>,
    name: Seq<char>,
    comment: Seq<char>,
)
    requires
        !declares(builder.enums, builder.resolve(schema), name),
    ensures
        builder.set_comment(schema, name, comment) == builder,
{
    assert(builder.set_comment(schema, name, comment).enums =~= builder.enums);
}

/// A comment makes no enum unequal to what it was.
pub proof fn law_comment_keeps_equality(
    builder: BuilderView,
    schema: Seq<char>,
    name: Seq<char>,
    comment: Seq<char>,
)
    ensures
        same_enums(builder.set_comment(schema, name, comment).enums, builder.enums),
{
}

/// Whether two enums agree in all but their comments.
pub open spec fn agree_but_for_comment(a: EnumView, b: EnumView) -> bool {
    EnumView { comment: b.comment, ..a } == b
}

/// Statements leave the enums that are there in their places and change at most their comments.
pub proof fn law_enums_keep_their_places(builder: BuilderView, statements: Seq<Statement>)
    ensures
        apply_all(builder, statements) matches Ok(done) ==> {
            &&& done.enums.len() >= builder.enums.len()
            &&& forall|i: int|
                0 <= i < builder.enums.len() ==> agree_but_for_comment(
                    builder.enums[i],
                    #[trigger] done.enums[i],
                )
        },
    decreases statements.len(),
{
    if statements.len() > 0 {
        law_enums_keep_their_places(builder, statements.drop_last());
    }
}

/// How many statements declare an enum.
pub open spec fn declarations(statements: Seq<Statement>) -> nat
    decreases statements.len(),
{
    if statements.len() == 0 {
        0
    } else {
        declarations(statements.drop_last()) + if statements.last() is CreateEnum {
            1nat
        } else {
            0nat
        }
    }
}

/// Each declaration gives one enum.
pub proof fn law_one_enum_per_declaration(
    name: Seq<char>,
    statements: Vec<Statement>,
    default_schema: Seq<char>,
)
    ensures
        extract(name, Ok(statements), default_schema) matches Ok(database) ==> database.enums.len()
            == declarations(statements@),
{
    lemma_count(BuilderView { name, enums: Seq::empty(), default_schema }, statements@);
}

pub(crate) proof fn lemma_count(builder: BuilderView, statements: Seq<Statement>)
    ensures
        apply_all(builder, statements) matches Ok(done) ==> done.enums.len()
            == builder.enums.len() + declarations(statements),
    decreases statements.len(),
{
    if statements.len() > 0 {
        lemma_count(builder, statements.drop_last());
    }
}

/// The schema that a type belongs to, given the schema of types that name none.
pub open spec fn resolved(names: Seq<ListNode>, default_schema: Seq<char>) -> Seq<char> {
    if schema_part(names).len() == 0 {
        default_schema
    } else {
        schema_part(names)
    }
}

/// The text of the last comment on the type with the given schema and name.
pub open spec fn last_comment(
    statements: Seq<Statement>,
    default_schema: Seq<char>,
    schema: Seq<char>,
    name: Seq<char>,
) -> Option<Seq<char>>
    decreases statements.len(),
{
    if statements.len() == 0 {
        None
    } else {
        let earlier = last_comment(statements.drop_last(), default_schema, schema, name);
        match statements.last() {
            Statement::Comment {
                objtype: ObjectType::Type,
                object: Some(ObjectNode::TypeName { names }),
                comment,
            } => if resolved(names@, default_schema) == schema && name_part(names@) == name {
                Some(comment@)
            } else {
                earlier
            },
            _ => earlier,
        }
    }
}

/// The enum that the declaration at position `p` gives: with its resolved schema, its name and its
/// labels, and the last comment on it that follows the declaration.
pub open spec fn declared_enum(
    statements: Seq<Statement>,
    default_schema: Seq<char>,
    p: int,
) -> EnumView
    recommends
        0 <= p < statements.len(),
        statements[p] is CreateEnum,
{
    let names = statements[p]->names@;
    let schema = resolved(names, default_schema);
    let name = name_part(names);
    EnumView::of(
        schema,
        name,
        last_comment(statements.skip(p + 1), default_schema, schema, name),
        node_texts(statements[p]->vals@),
    )
}

/// The enum that a declaration gives stands where as many enums precede it as declarations
/// precede the declaration, and is what the declaration and the comments after it say.
pub proof fn law_enums_are_as_declared(
    name: Seq<char>,
    statements: Vec<Statement>,
    default_schema: Seq<char>,
    p: int,
)
    requires
        0 <= p < statements@.len(),
        statements@[p] is CreateEnum,
    ensures
        extract(name, Ok(statements), default_schema) matches Ok(database) ==> {
            let k = declarations(statements@.take(p)) as int;
            &&& k < database.enums.len()
            &&& database.enums[k] == declared_enum(statements@, default_schema, p)
        },
{
    lemma_declared(BuilderView { name, enums: Seq::empty(), default_schema }, statements@, p);
}

pub(crate) proof fn lemma_declared(builder: BuilderView, statements: Seq<Statement>, p: int)
    requires
        0 <= p < statements.len(),
        statements[p] is CreateEnum,
    ensures
        apply_all(builder, statements) matches Ok(done) ==> {
            let k = builder.enums.len() + declarations(statements.take(p));
            &&& k < done.enums.len()
            &&& done.enums[k as int] == declared_enum(statements, builder.default_schema, p)
        },
    decreases statements.len(),
{
    let init = statements.drop_last();
    lemma_apply_all_keeps(builder, init);
    if p == init.len() {
        assert(statements.take(p) =~= init);
        assert(statements.skip(p + 1).len() == 0);
        lemma_count(builder, init);
    } else {
        assert(init.take(p) =~= statements.take(p));
        assert(statements.skip(p + 1).drop_last() =~= init.skip(p + 1));
        assert(statements.skip(p + 1).last() == statements.last());
        lemma_declared(builder, init, p);
    }
}

/// Every extracted enum comes from a declaration.
pub proof fn law_every_enum_is_declared(
    name: Seq<char>,
    statements: Vec<Statement>,
    default_schema: Seq<char>,
    k: int,
)
    ensures
        extract(name, Ok(statements), default_schema) matches Ok(database) ==> (0 <= k
            < database.enums.len() ==> exists|p: int|
            0 <= p < statements@.len() && #[trigger] statements@[p] is CreateEnum && declarations(
                statements@.take(p),
            ) == k),
{
    law_one_enum_per_declaration(name, statements, default_schema);
    if 0 <= k < declarations(statements@) {
        lemma_declaration_of(statements@, k);
    }
}

pub(crate) proof fn lemma_declaration_of(statements: Seq<Statement>, k: int)
    requires
        0 <= k < declarations(statements),
    ensures
        exists|p: int|
            0 <= p < statements.len() && #[trigger] statements[p] is CreateEnum && declarations(
                statements.take(p),
            ) == k,
    decreases statements.len(),
{
    let init = statements.drop_last();
    if k < declarations(init) {
        lemma_declaration_of(init, k);
        let p = choose|p: int|
            0 <= p < init.len() && #[trigger] init[p] is CreateEnum && declarations(init.take(p))
                == k;
        assert(init.take(p) =~= statements.take(p));
        assert(statements[p] is CreateEnum);
    } else {
        let p = init.len() as int;
        assert(statements.take(p) =~= init);
        assert(statements[p] is CreateEnum);
    }
}

/// SQL that declares no enum gives a database without enums.
pub proof fn law_no_declaration_no_enums(
    name: Seq<char>,
    statements: Vec<Statement>,
    default_schema: Seq<char>,
)
    requires
        forall|i: int| 0 <= i < statements@.len() ==> !(#[trigger] statements@[i] is CreateEnum),
    ensures
        extract(name, Ok(statements), default_schema) == Ok::<DatabaseView, ErrorView>(
            DatabaseView { name, enums: Seq::empty() },
        ),
{
    lemma_no_declaration(BuilderView { name, enums: Seq::empty(), default_schema }, statements@);
}

proof fn lemma_no_declaration(builder: BuilderView, statements: Seq<Statement>)
    requires
        builder.enums.len() == 0,
        forall|i: int| 0 <= i < statements.len() ==> !(#[trigger] statements[i] is CreateEnum),
    ensures
        apply_all(builder, statements) == Ok::<BuilderView, ErrorView>(builder),
    decreases statements.len(),
{
    if statements.len() > 0 {
        let init = statements.drop_last();
        assert(forall|i: int| 0 <= i < init.len() ==> #[trigger] init[i] == statements[i]);
        lemma_no_declaration(builder, init);
        assert(!(statements[statements.len() - 1] is CreateEnum));
        if let Ok(next) = apply(builder, statements.last()) {
            assert(next.enums =~= builder.enums);
        }
    }
}

/// Whether a statement tells of enum types: it declares an enum, or comments on a type by name.
pub open spec fn tells_of_enums(statement: Statement) -> bool {
    match statement {
        Statement::CreateEnum { .. } => true,
        Statement::Comment {
            objtype: ObjectType::Type,
            object: Some(ObjectNode::TypeName { .. }),
            ..
        } => true,
        _ => false,
    }
}

/// The statements that tell of enum types, in their order.
pub open spec fn telling(statements: Seq<Statement>) -> Seq<Statement> {
    statements.filter(|s: Statement| tells_of_enums(s))
}

/// Statements that tell nothing of enum types change nothing in a builder, wherever they stand
/// among the others.
pub proof fn law_other_statements_do_not_matter(builder: BuilderView, statements: Seq<Statement>)
    ensures
        apply_all(builder, statements) == apply_all(builder, telling(statements)),
    decreases statements.len(),
{
    reveal(Seq::filter);
    if statements.len() > 0 {
        let init = statements.drop_last();
        law_other_statements_do_not_matter(builder, init);
        if tells_of_enums(statements.last()) {
            assert(telling(statements).drop_last() =~= telling(init));
        }
    }
}

/// Two texts whose statements on enum types are the same, in the same order, have the same
/// outcome.
pub proof fn law_extraction_goes_by_enum_statements(
    name: Seq<char>,
    first: Vec<Statement>,
    second: Vec<Statement>,
    default_schema: Seq<char>,
)
    requires
        telling(first@) == telling(second@),
    ensures
        extract(name, Ok(first), default_schema) == extract(name, Ok(second), default_schema),
{
    let builder = BuilderView { name, enums: Seq::empty(), default_schema };
    law_other_statements_do_not_matter(builder, first@);
    law_other_statements_do_not_matter(builder, second@);
}

/// Statements may be applied in two parts.
pub proof fn law_statements_compose(
    builder: BuilderView,
    first: Seq<Statement>,
    second: Seq<Statement>,
)
    ensures
        apply_all(builder, first + second) == match apply_all(builder, first) {
            Ok(next) => apply_all(next, second),
            Err(e) => Err(e),
        },
    decreases second.len(),
{
    if second.len() == 0 {
        assert(first + second =~= first);
    } else {
        assert((first + second).drop_last() =~= first + second.drop_last());
        law_statements_compose(builder, first, second.drop_last());
    }
}

/// Every extracted enum has a schema, if there is a default schema.
pub proof fn law_every_enum_has_a_schema(
    name: Seq<char>,
    parsed: Result<Vec<Statement>, String>,
    default_schema: Seq<char>,
)
    requires
        default_schema.len() > 0,
    ensures
        extract(name, parsed, default_schema) matches Ok(database) ==> forall|i: int|
            0 <= i < database.enums.len() ==> (#[trigger] database.enums[i]).schema.len() > 0,
{
    if let Ok(statements) = parsed {
        lemma_schemas(BuilderView { name, enums: Seq::empty(), default_schema }, statements@);
    }
}

proof fn lemma_schemas(builder: BuilderView, statements: Seq<Statement>)
    requires
        builder.default_schema.len() > 0,
        builder.enums.len() == 0,
    ensures
        apply_all(builder, statements) matches Ok(done) ==> {
            &&& done.default_schema == builder.default_schema
            &&& forall|i: int|
                0 <= i < done.enums.len() ==> (#[trigger] done.enums[i]).schema.len() > 0
        },
    decreases statements.len(),
{
    if statements.len() > 0 {
        lemma_schemas(builder, statements.drop_last());
    }
}

} // verus!
