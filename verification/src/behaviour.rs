//! What each operation does, told by positions in its lists and by the fields of its values.
use std::collections::hash_map::DefaultHasher;

use vstd::prelude::*;
use vstd::std_specs::cmp::PartialEqSpec;
use vstd::std_specs::hash::DefaultHasherAdditionalSpecFns;

use crate::builder::{
    consistent, declares, first_objection, lemma_first_objection, lemma_first_objection_of_prefix,
    BuilderView,
};
use crate::database::{lookup_enum, Database, DatabaseView};
use crate::digest::{digest_of, list_writes, lower_hex, string_writes};
use crate::enum_type::{enum_views, EnumType, EnumView};
use crate::error::{outcome, ErrorView, PGEnumError};
use crate::index::{
    indexed, key_indexed, name_indexed, names_in, schemas_of, with_key, with_name, EnumLookup,
    SchemaMap, SchemalessLookup,
};
use crate::laws::{
    declarations, law_extracted_database_is_consistent, lemma_count, lemma_declaration_of,
    lemma_declared, resolved,
};
use crate::representation::{parsed_view, read_back, DatabaseV1, V1View};
use crate::sql::{
    apply_all, extract, lemma_apply_all_keeps, name_part, node_text, node_texts, schema_part,
    split_name, ListNode, ObjectNode, ObjectType, Statement,
};
use crate::text::{
    first_repeat, lemma_first_repeat, lemma_first_repeat_of_prefix, optional_str, optional_text,
    texts,
};

verus! {

// Views.

/// A list of strings is seen string by string, and a missing string is seen as missing.
pub proof fn law_texts_are_seen_one_by_one(strings: Seq<String>, string: String, slice: &str)
    ensures
        texts(strings).len() == strings.len(),
        forall|i: int| 0 <= i < strings.len() ==> #[trigger] texts(strings)[i] == strings[i]@,
        optional_text(Some(string)) == Some(string@),
        optional_text(None) == None::<Seq<char>>,
        optional_str(Some(slice)) == Some(slice@),
        optional_str(None) == None::<Seq<char>>,
{
}

/// An enum is seen field by field.
pub proof fn law_enum_is_seen_by_its_fields(e: EnumType)
    ensures
        e@.schema == e.schema@,
        e@.name == e.name@,
        e.comment matches Some(comment) ==> e@.comment == Some(comment@),
        e.comment is None ==> e@.comment is None,
        e@.values.len() == e.values@.len(),
        forall|i: int| 0 <= i < e.values@.len() ==> #[trigger] e@.values[i] == e.values@[i]@,
        e@.digest == e.digest@,
{
}

/// A list of enums, and with it a serialised form, is seen enum by enum.
pub proof fn law_enums_are_seen_one_by_one(enums: Seq<EnumType>, v1: DatabaseV1)
    ensures
        enum_views(enums).len() == enums.len(),
        forall|i: int| 0 <= i < enums.len() ==> #[trigger] enum_views(enums)[i] == enums[i]@,
        v1@.version == v1.version,
        v1@.name == v1.name@,
        v1@.enums.len() == v1.enums@.len(),
        forall|i: int| 0 <= i < v1.enums@.len() ==> #[trigger] v1@.enums[i] == v1.enums@[i]@,
        parsed_view(Ok(v1)) == Ok::<V1View, ron::error::SpannedError>(v1@),
{
}

/// An error is seen field by field, and no error as another.
pub proof fn law_error_is_seen_by_its_fields(error: PGEnumError)
    ensures
        match error {
            PGEnumError::DuplicatedType { schema, enum_name } => error@
                == (ErrorView::DuplicatedType { schema: schema@, enum_name: enum_name@ }),
            PGEnumError::DuplicatedValue { schema, enum_name, value } => error@
                == (ErrorView::DuplicatedValue {
                schema: schema@,
                enum_name: enum_name@,
                value: value@,
            }),
            PGEnumError::EnumConflict { name, schemas } => {
                &&& error@ matches ErrorView::EnumConflict { name: n, schemas: s }
                &&& n == name@
                &&& s.len() == schemas@.len()
                &&& forall|i: int| 0 <= i < s.len() ==> #[trigger] s[i] == schemas@[i]@
            },
            PGEnumError::EnumNotFound { name, schema: Some(s) } => error@
                == (ErrorView::EnumNotFound { name: name@, schema: Some(s@) }),
            PGEnumError::EnumNotFound { name, schema: None } => error@
                == (ErrorView::EnumNotFound { name: name@, schema: None }),
            PGEnumError::InvalidRepresentation(e) => error@ == ErrorView::InvalidRepresentation(e),
            PGEnumError::IOError(e) => error@ == ErrorView::IOError(e),
            PGEnumError::SQLParseError(message) => error@ == ErrorView::SQLParseError(message@),
            PGEnumError::UnknownVersion(version) => error@ == ErrorView::UnknownVersion(version),
        },
{
}

/// A success is seen by its value and a failure by its error.
pub proof fn law_outcome_is_seen_by_its_content<T: View>(value: T, error: PGEnumError)
    ensures
        outcome(Ok(value)) == Ok::<T::V, ErrorView>(value@),
        outcome(Err::<T, PGEnumError>(error)) == Err::<T::V, ErrorView>(error@),
{
}

/// What the parser could not read is seen as its error.
pub proof fn law_unreadable_text_is_seen_as_its_error(error: ron::error::SpannedError)
    ensures
        parsed_view(Err(error)) == Err::<V1View, ron::error::SpannedError>(error),
{
}

// Digests and equality.

/// A digest is the hexadecimal form of the hash of exactly three things written one after the
/// other: the schema, the name, and the list of values.
pub proof fn law_digest_hashes_schema_name_and_values(
    schema: Seq<char>,
    name: Seq<char>,
    values: Seq<Seq<char>>,
)
    ensures
        digest_of(schema, name, values) == lower_hex(
            DefaultHasher::spec_finish(
                string_writes(schema) + string_writes(name) + list_writes(values),
            ) as nat,
        ),
{
}

/// A number below ten is written as that digit of `0` to `9`, one below sixteen as a letter of `a`
/// to `f`, and any other as its sixteenth followed by the rest.
pub proof fn law_hexadecimal_is_positional(n: nat, d: nat)
    requires
        d < 16,
    ensures
        lower_hex(d).len() == 1,
        d < 10 ==> lower_hex(d)[0] as int == '0' as int + d,
        d >= 10 ==> lower_hex(d)[0] as int == 'a' as int + (d - 10),
        n > 0 ==> lower_hex(16 * n + d) == lower_hex(n) + lower_hex(d),
{
    if n > 0 {
        assert((16 * n + d) / 16 == n);
        assert((16 * n + d) % 16 == d as int);
        assert(lower_hex(n).push(lower_hex(d)[0]) =~= lower_hex(n) + lower_hex(d));
    }
}

/// Two enums are equal exactly when their digests are.
pub proof fn law_enums_are_compared_by_digest(a: EnumType, b: EnumType)
    ensures
        a.eq_spec(&b) <==> a.digest@ == b.digest@,
        a@.same(b@) <==> a.digest@ == b.digest@,
{
}

/// Two databases are equal exactly when they have the same label, equally many enums, and the same
/// digest at every position.
pub proof fn law_databases_are_compared_by_label_and_digests(a: Database, b: Database)
    ensures
        a.eq_spec(&b) <==> {
            &&& a@.name == b@.name
            &&& a@.enums.len() == b@.enums.len()
            &&& forall|i: int|
                0 <= i < a@.enums.len() ==> (#[trigger] a@.enums[i]).digest == b@.enums[i].digest
        },
{
    if a@.name == b@.name && a@.enums.len() == b@.enums.len() && forall|i: int|
        0 <= i < a@.enums.len() ==> (#[trigger] a@.enums[i]).digest == b@.enums[i].digest {
        assert(a.eq_spec(&b));
    }
    if a.eq_spec(&b) {
        assert forall|i: int| 0 <= i < a@.enums.len() implies (#[trigger] a@.enums[i]).digest
            == b@.enums[i].digest by {
            assert(a@.enums[i].same(b@.enums[i]));
        }
    }
}

/// A different digest at any one position makes two databases unequal.
pub proof fn law_one_different_digest_is_enough(a: DatabaseView, b: DatabaseView, i: int)
    requires
        0 <= i < a.enums.len(),
        0 <= i < b.enums.len(),
        a.enums[i].digest != b.enums[i].digest,
    ensures
        !a.same(b),
{
    assert(!a.enums[i].same(b.enums[i]));
}

// Looking enums up.

/// The enums with a name are those at the positions where the name stands.
proof fn lemma_positions(enums: Seq<EnumView>, name: Seq<char>, at: Seq<int>)
    requires
        forall|k: int|
            0 <= k < at.len() ==> 0 <= #[trigger] at[k] < enums.len() && enums[at[k]].name == name,
        forall|k: int, l: int| 0 <= k < l < at.len() ==> #[trigger] at[k] < #[trigger] at[l],
        forall|i: int| 0 <= i < enums.len() && (#[trigger] enums[i]).name == name ==> at.contains(i),
    ensures
        with_name(enums, name) == Seq::new(at.len(), |k: int| enums[at[k]]),
    decreases enums.len(),
{
    reveal(Seq::filter);
    let found = Seq::new(at.len(), |k: int| enums[at[k]]);
    if enums.len() == 0 {
        assert(at.len() == 0) by {
            if at.len() > 0 {
                assert(0 <= at[0] < enums.len());
            }
        }
        assert(with_name(enums, name) =~= found);
    } else {
        let init = enums.drop_last();
        let n = enums.len() - 1;
        if enums[n].name == name {
            let m = choose|m: int| 0 <= m < at.len() && at[m] == n;
            assert(m == at.len() - 1) by {
                if m < at.len() - 1 {
                    assert(at[m] < at[at.len() - 1]);
                }
            }
            let rest = at.drop_last();
            assert forall|k: int| 0 <= k < rest.len() implies 0 <= #[trigger] rest[k] < init.len()
                && init[rest[k]].name == name by {
                assert(at[k] < at[m]);
            }
            assert forall|k: int, l: int| 0 <= k < l < rest.len() implies #[trigger] rest[k]
                < #[trigger] rest[l] by {
                assert(at[k] < at[l]);
            }
            assert forall|i: int|
                0 <= i < init.len() && (#[trigger] init[i]).name == name implies rest.contains(
                i,
            ) by {
                assert(enums[i].name == name);
                let k = choose|k: int| 0 <= k < at.len() && at[k] == i;
                assert(rest[k] == i);
            }
            lemma_positions(init, name, rest);
            assert(with_name(enums, name) =~= with_name(init, name).push(enums[n]));
            assert(with_name(enums, name) =~= found);
        } else {
            assert forall|k: int| 0 <= k < at.len() implies 0 <= #[trigger] at[k] < init.len()
                && init[at[k]].name == name by {
                assert(enums[at[k]].name == name);
            }
            assert forall|i: int|
                0 <= i < init.len() && (#[trigger] init[i]).name == name implies at.contains(i) by {
                assert(enums[i].name == name);
            }
            lemma_positions(init, name, at);
            assert(with_name(enums, name) =~= with_name(init, name));
            assert(with_name(enums, name) =~= found);
        }
    }
}

/// The last enum with a key is the one at the last position with that key.
proof fn lemma_last_with_key(enums: Seq<EnumView>, schema: Seq<char>, name: Seq<char>, i: int)
    requires
        0 <= i < enums.len(),
        enums[i].schema == schema,
        enums[i].name == name,
        forall|j: int|
            i < j < enums.len() ==> !((#[trigger] enums[j]).schema == schema && enums[j].name
                == name),
    ensures
        with_key(enums, schema, name).len() > 0,
        with_key(enums, schema, name).last() == enums[i],
    decreases enums.len(),
{
    reveal(Seq::filter);
    if i < enums.len() - 1 {
        let init = enums.drop_last();
        assert(forall|j: int| 0 <= j < init.len() ==> #[trigger] init[j] == enums[j]);
        lemma_last_with_key(init, schema, name, i);
        assert(enums[enums.len() - 1] == enums.last());
    }
}

proof fn lemma_no_key(enums: Seq<EnumView>, schema: Seq<char>, name: Seq<char>)
    requires
        forall|j: int|
            0 <= j < enums.len() ==> !((#[trigger] enums[j]).schema == schema && enums[j].name
                == name),
    ensures
        with_key(enums, schema, name).len() == 0,
    decreases enums.len(),
{
    reveal(Seq::filter);
    if enums.len() > 0 {
        let init = enums.drop_last();
        assert(forall|j: int| 0 <= j < init.len() ==> #[trigger] init[j] == enums[j]);
        lemma_no_key(init, schema, name);
        assert(enums[enums.len() - 1] == enums.last());
    }
}

/// Whatever positions a name stands at, `at` in rising order, a lookup without a schema goes by
/// their number: with none the name is not found, with one the enum there is found, and with more
/// there is a conflict between the schemas at all of them.
pub proof fn law_lookup_without_schema_goes_by_positions(
    enums: Seq<EnumView>,
    name: Seq<char>,
    at: Seq<int>,
)
    requires
        forall|k: int|
            0 <= k < at.len() ==> 0 <= #[trigger] at[k] < enums.len() && enums[at[k]].name == name,
        forall|k: int, l: int| 0 <= k < l < at.len() ==> #[trigger] at[k] < #[trigger] at[l],
        forall|i: int| 0 <= i < enums.len() && (#[trigger] enums[i]).name == name ==> at.contains(i),
    ensures
        at.len() == 0 ==> lookup_enum(enums, None, name) == Err::<EnumView, ErrorView>(
            ErrorView::EnumNotFound { name, schema: None },
        ),
        at.len() == 1 ==> lookup_enum(enums, None, name) == Ok::<EnumView, ErrorView>(enums[at[0]]),
        at.len() >= 2 ==> lookup_enum(enums, None, name) == Err::<EnumView, ErrorView>(
            ErrorView::EnumConflict {
                name,
                schemas: Seq::new(at.len(), |k: int| enums[at[k]].schema),
            },
        ),
{
    lemma_positions(enums, name, at);
    assert(schemas_of(with_name(enums, name)) =~= Seq::new(
        at.len(),
        |k: int| enums[at[k]].schema,
    ));
}

/// The positions at which a name stands can be listed in rising order.
pub proof fn law_name_has_positions(enums: Seq<EnumView>, name: Seq<char>) -> (at: Seq<int>)
    ensures
        forall|k: int|
            0 <= k < at.len() ==> 0 <= #[trigger] at[k] < enums.len() && enums[at[k]].name == name,
        forall|k: int, l: int| 0 <= k < l < at.len() ==> #[trigger] at[k] < #[trigger] at[l],
        forall|i: int| 0 <= i < enums.len() && (#[trigger] enums[i]).name == name ==> at.contains(i),
    decreases enums.len(),
{
    if enums.len() == 0 {
        Seq::empty()
    } else {
        let init = enums.drop_last();
        let n = enums.len() - 1;
        let rest = law_name_has_positions(init, name);
        assert(forall|k: int|
            0 <= k < rest.len() ==> 0 <= #[trigger] rest[k] < n && init[rest[k]] == enums[rest[k]]);
        let at = if enums[n].name == name {
            rest.push(n)
        } else {
            rest
        };
        assert forall|i: int| 0 <= i < enums.len() && (#[trigger] enums[i]).name == name implies
            at.contains(i) by {
            if i < n {
                assert(init[i].name == name);
                let k = choose|k: int| 0 <= k < rest.len() && rest[k] == i;
                assert(at[k] == i);
            } else {
                assert(at[rest.len() as int] == i);
            }
        }
        at
    }
}

/// A name at two positions is a conflict, which lists the schemas at both of them.
pub proof fn law_two_positions_conflict(enums: Seq<EnumView>, name: Seq<char>, i: int, j: int)
    requires
        0 <= i < j < enums.len(),
        enums[i].name == name,
        enums[j].name == name,
    ensures
        lookup_enum(enums, None, name) matches Err(ErrorView::EnumConflict { name: n, schemas }) && n
            == name && schemas.len() >= 2 && schemas.contains(enums[i].schema) && schemas.contains(
            enums[j].schema,
        ),
{
    let at = law_name_has_positions(enums, name);
    law_lookup_without_schema_goes_by_positions(enums, name, at);
    let k = choose|k: int| 0 <= k < at.len() && at[k] == i;
    let l = choose|l: int| 0 <= l < at.len() && at[l] == j;
    let schemas = Seq::new(at.len(), |k: int| enums[at[k]].schema);
    assert(schemas[k] == enums[i].schema);
    assert(schemas[l] == enums[j].schema);
}

/// A lookup without a schema succeeds exactly when one position alone has the name, and then finds
/// the enum there.
pub proof fn law_lookup_without_schema_needs_a_unique_name(enums: Seq<EnumView>, name: Seq<char>)
    ensures
        lookup_enum(enums, None, name) matches Ok(e) ==> exists|i: int|
            0 <= i < enums.len() && #[trigger] enums[i] == e && e.name == name && forall|j: int|
                0 <= j < enums.len() && j != i ==> (#[trigger] enums[j]).name != name,
        forall|i: int|
            0 <= i < enums.len() && (#[trigger] enums[i]).name == name && (forall|j: int|
                0 <= j < enums.len() && j != i ==> (#[trigger] enums[j]).name != name)
                ==> lookup_enum(enums, None, name) == Ok::<EnumView, ErrorView>(enums[i]),
{
    let at = law_name_has_positions(enums, name);
    law_lookup_without_schema_goes_by_positions(enums, name, at);
    if at.len() == 1 {
        let i = at[0];
        assert forall|j: int| 0 <= j < enums.len() && j != i implies (#[trigger] enums[j]).name
            != name by {
            if enums[j].name == name {
                assert(at.contains(j));
            }
        }
        assert(enums[i].name == name);
    }
    assert forall|i: int|
        0 <= i < enums.len() && (#[trigger] enums[i]).name == name && (forall|j: int|
            0 <= j < enums.len() && j != i ==> (#[trigger] enums[j]).name != name) implies
        lookup_enum(enums, None, name) == Ok::<EnumView, ErrorView>(enums[i]) by {
        assert(at.contains(i));
        if at.len() >= 2 {
            assert(at[0] < at[1]);
            assert(enums[at[0]].name == name);
            assert(enums[at[1]].name == name);
        }
        assert(enums[at[0]].name == name);
    }
}

/// A lookup with a schema finds the enum at the last position with that schema and name.
pub proof fn law_lookup_with_schema_finds_the_last(
    enums: Seq<EnumView>,
    schema: Seq<char>,
    name: Seq<char>,
    i: int,
)
    requires
        0 <= i < enums.len(),
        enums[i].schema == schema,
        enums[i].name == name,
        forall|j: int|
            i < j < enums.len() ==> !((#[trigger] enums[j]).schema == schema && enums[j].name
                == name),
    ensures
        lookup_enum(enums, Some(schema), name) == Ok::<EnumView, ErrorView>(enums[i]),
{
    lemma_last_with_key(enums, schema, name, i);
}

/// A lookup with a schema finds nothing where no position has that schema and name.
pub proof fn law_lookup_with_schema_finds_nothing_else(
    enums: Seq<EnumView>,
    schema: Seq<char>,
    name: Seq<char>,
)
    requires
        forall|j: int|
            0 <= j < enums.len() ==> !((#[trigger] enums[j]).schema == schema && enums[j].name
                == name),
    ensures
        lookup_enum(enums, Some(schema), name) == Err::<EnumView, ErrorView>(
            ErrorView::EnumNotFound { name, schema: Some(schema) },
        ),
{
    lemma_no_key(enums, schema, name);
}

/// The index of names knows a name exactly where it stands at some position: by that position if
/// it is the only one, and else by the schemas at all its positions, `at` in rising order.
pub proof fn law_index_of_names_goes_by_positions(
    enums: Seq<EnumView>,
    lookup: SchemalessLookup,
    schemas: SchemaMap,
    name: Seq<char>,
    at: Seq<int>,
)
    requires
        indexed(enums, lookup, schemas),
        forall|k: int|
            0 <= k < at.len() ==> 0 <= #[trigger] at[k] < enums.len() && enums[at[k]].name == name,
        forall|k: int, l: int| 0 <= k < l < at.len() ==> #[trigger] at[k] < #[trigger] at[l],
        forall|i: int| 0 <= i < enums.len() && (#[trigger] enums[i]).name == name ==> at.contains(i),
    ensures
        lookup@.contains_key(name) <==> at.len() > 0,
        at.len() == 1 ==> (lookup@[name] matches EnumLookup::Found(i) && i == at[0]),
        at.len() >= 2 ==> {
            &&& lookup@[name] matches EnumLookup::Conflict(listed)
            &&& listed@.len() == at.len()
            &&& forall|k: int| 0 <= k < at.len() ==> (#[trigger] listed@[k])@ == enums[at[k]].schema
        },
{
    lemma_positions(enums, name, at);
    assert(name_indexed(enums, lookup@, name));
    let hits = with_name(enums, name);
    if at.len() == 1 {
        match lookup@[name] {
            EnumLookup::Found(i) => {
                assert(hits[0] == enums[at[0]]);
                assert(enums[i as int].name == name);
                assert(at.contains(i as int));
            },
            EnumLookup::Conflict(_) => {},
        }
    }
    if at.len() >= 2 {
        match lookup@[name] {
            EnumLookup::Found(_) => {},
            EnumLookup::Conflict(listed) => {
                assert(texts(listed@).len() == listed@.len());
                assert forall|k: int| 0 <= k < at.len() implies (#[trigger] listed@[k])@
                    == enums[at[k]].schema by {
                    assert(texts(listed@)[k] == schemas_of(hits)[k]);
                }
            },
        }
    }
}

/// The index of schemas knows the schemas of the enums and no others, and in each the names of its
/// enums and no others, by the last position with that schema and name.
pub proof fn law_index_of_schemas_goes_by_positions(
    enums: Seq<EnumView>,
    lookup: SchemalessLookup,
    schemas: SchemaMap,
    i: int,
    schema: Seq<char>,
    name: Seq<char>,
)
    requires
        indexed(enums, lookup, schemas),
    ensures
        0 <= i < enums.len() && enums[i].schema == schema ==> schemas@.contains_key(schema),
        schemas@.contains_key(schema) ==> exists|j: int|
            0 <= j < enums.len() && (#[trigger] enums[j]).schema == schema,
        0 <= i < enums.len() && enums[i].schema == schema && enums[i].name == name && (forall|j: int|
            i < j < enums.len() ==> !((#[trigger] enums[j]).schema == schema && enums[j].name
                == name)) ==> schemas@[schema]@.contains_key(name) && schemas@[schema]@[name] == i,
        schemas@.contains_key(schema) && schemas@[schema]@.contains_key(name) ==> exists|j: int|
            0 <= j < enums.len() && (#[trigger] enums[j]).schema == schema && enums[j].name == name,
{
    assert(key_indexed(enums, schemas@, schema, name));
    if 0 <= i < enums.len() && enums[i].schema == schema {
        assert(schemas@.contains_key(schema));
        if enums[i].name == name && (forall|j: int|
            i < j < enums.len() ==> !((#[trigger] enums[j]).schema == schema && enums[j].name
                == name)) {
            lemma_last_with_key(enums, schema, name, i);
            let found = names_in(schemas@, schema)[name] as int;
            if found < i {
                assert(!enums[i].has_key(schema, name));
            }
        }
    }
}

// Collecting enums.

/// The first value that repeats an earlier one is the first repeated value.
proof fn lemma_first_repeat_at(values: Seq<Seq<char>>, i: int, j: int)
    requires
        0 <= i < j < values.len(),
        values[i] == values[j],
        values.take(j).no_duplicates(),
    ensures
        first_repeat(values) == Some(values[j]),
{
    let front = values.take(j + 1);
    assert(front.drop_last() =~= values.take(j));
    assert(front.last() == values[j]);
    lemma_first_repeat(values.take(j));
    assert(values.take(j)[i] == values[j]);
    assert(values.take(j).contains(values[j]));
    lemma_first_repeat_of_prefix(values, j + 1);
}

/// An enum is added whenever its own values are pairwise different and no enum has its schema and
/// name; what other enums hold does not matter. It then stands after the others, which stay as
/// they are, with what was given and the digest of that.
pub proof fn law_consistent_enum_is_added(
    builder: BuilderView,
    schema: Seq<char>,
    name: Seq<char>,
    values: Seq<Seq<char>>,
    comment: Option<Seq<char>>,
)
    requires
        forall|i: int, j: int| 0 <= i < j < values.len() ==> values[i] != values[j],
        forall|i: int|
            0 <= i < builder.enums.len() ==> !((#[trigger] builder.enums[i]).schema == (if schema.len()
                == 0 {
                builder.default_schema
            } else {
                schema
            }) && builder.enums[i].name == name),
    ensures
        builder.add_enum(schema, name, values, comment) matches Ok(next) && {
            let own = if schema.len() == 0 {
                builder.default_schema
            } else {
                schema
            };
            let n = builder.enums.len() as int;
            &&& next.name == builder.name
            &&& next.default_schema == builder.default_schema
            &&& next.enums.len() == n + 1
            &&& forall|i: int| 0 <= i < n ==> #[trigger] next.enums[i] == builder.enums[i]
            &&& next.enums[n].schema == own
            &&& next.enums[n].name == name
            &&& next.enums[n].comment == comment
            &&& next.enums[n].values == values
            &&& next.enums[n].digest == lower_hex(
                DefaultHasher::spec_finish(
                    string_writes(own) + string_writes(name) + list_writes(values),
                ) as nat,
            )
        },
{
    assert(values.no_duplicates());
    lemma_first_repeat(values);
}

/// Where values repeat, the first that repeats an earlier one is reported, whatever enums there are.
pub proof fn law_first_repeated_value_is_reported(
    builder: BuilderView,
    schema: Seq<char>,
    name: Seq<char>,
    values: Seq<Seq<char>>,
    comment: Option<Seq<char>>,
    i: int,
    j: int,
)
    requires
        0 <= i < j < values.len(),
        values[i] == values[j],
        forall|a: int, b: int| 0 <= a < b < j ==> values[a] != values[b],
    ensures
        builder.add_enum(schema, name, values, comment) == Err::<BuilderView, ErrorView>(
            ErrorView::DuplicatedValue {
                schema: if schema.len() == 0 {
                    builder.default_schema
                } else {
                    schema
                },
                enum_name: name,
                value: values[j],
            },
        ),
{
    assert(values.take(j).no_duplicates());
    lemma_first_repeat_at(values, i, j);
}

/// Where no value repeats, a schema and name that some enum has are reported.
pub proof fn law_taken_name_is_reported(
    builder: BuilderView,
    schema: Seq<char>,
    name: Seq<char>,
    values: Seq<Seq<char>>,
    comment: Option<Seq<char>>,
    i: int,
)
    requires
        forall|a: int, b: int| 0 <= a < b < values.len() ==> values[a] != values[b],
        0 <= i < builder.enums.len(),
        builder.enums[i].schema == (if schema.len() == 0 {
            builder.default_schema
        } else {
            schema
        }),
        builder.enums[i].name == name,
    ensures
        builder.add_enum(schema, name, values, comment) == Err::<BuilderView, ErrorView>(
            ErrorView::DuplicatedType {
                schema: if schema.len() == 0 {
                    builder.default_schema
                } else {
                    schema
                },
                enum_name: name,
            },
        ),
{
    assert(values.no_duplicates());
    lemma_first_repeat(values);
    assert(builder.enums[i].has_key(builder.resolve(schema), name));
}

/// A comment is set on the enums with its schema and name and on no others, and nothing else
/// changes.
pub proof fn law_comment_is_set_where_it_belongs(
    builder: BuilderView,
    schema: Seq<char>,
    name: Seq<char>,
    comment: Seq<char>,
)
    ensures
        ({
            let own = if schema.len() == 0 {
                builder.default_schema
            } else {
                schema
            };
            let next = builder.set_comment(schema, name, comment);
            &&& next.name == builder.name
            &&& next.default_schema == builder.default_schema
            &&& next.enums.len() == builder.enums.len()
            &&& forall|i: int|
                0 <= i < builder.enums.len() ==> {
                    &&& (#[trigger] next.enums[i]).schema == builder.enums[i].schema
                    &&& next.enums[i].name == builder.enums[i].name
                    &&& next.enums[i].values == builder.enums[i].values
                    &&& next.enums[i].digest == builder.enums[i].digest
                    &&& next.enums[i].comment == if builder.enums[i].schema == own
                        && builder.enums[i].name == name {
                        Some(comment)
                    } else {
                        builder.enums[i].comment
                    }
                }
        }),
{
}

// Reading statements.

/// The strings of a list of nodes are those of its string nodes, in their order; other nodes add
/// nothing.
pub proof fn law_node_texts_skip_other_nodes(nodes: Seq<ListNode>, s: String)
    ensures
        node_texts(Seq::empty()) == Seq::<Seq<char>>::empty(),
        node_texts(nodes.push(ListNode::String(s))) == node_texts(nodes).push(s@),
        node_texts(nodes.push(ListNode::Other)) == node_texts(nodes),
        node_text(ListNode::String(s)) == Some(s@),
        node_text(ListNode::Other) == None::<Seq<char>>,
{
    assert(nodes.push(ListNode::String(s)).drop_last() =~= nodes);
    assert(nodes.push(ListNode::Other).drop_last() =~= nodes);
}

/// Of string nodes alone every string is kept, at its position.
pub proof fn law_node_texts_keep_every_string(nodes: Seq<ListNode>)
    requires
        forall|i: int| 0 <= i < nodes.len() ==> #[trigger] nodes[i] is String,
    ensures
        node_texts(nodes).len() == nodes.len(),
        forall|i: int|
            0 <= i < nodes.len() ==> #[trigger] node_texts(nodes)[i] == nodes[i]->String_0@,
    decreases nodes.len(),
{
    if nodes.len() > 0 {
        let init = nodes.drop_last();
        assert(forall|i: int| 0 <= i < init.len() ==> #[trigger] init[i] == nodes[i]);
        law_node_texts_keep_every_string(init);
        assert(nodes[nodes.len() - 1] is String);
        assert forall|i: int| 0 <= i < nodes.len() implies #[trigger] node_texts(nodes)[i]
            == nodes[i]->String_0@ by {
            if i < init.len() {
                assert(node_texts(nodes)[i] == node_texts(init)[i]);
                assert(init[i] == nodes[i]);
            }
        }
    }
}

/// The first of several parts of a name is the schema and the last is the name; a single part is
/// the name alone. A type without a schema, or with an empty one, is in the default schema.
pub proof fn law_first_part_is_schema_and_last_is_name(
    nodes: Seq<ListNode>,
    default_schema: Seq<char>,
)
    ensures
        ({
            let parts = node_texts(nodes);
            &&& parts.len() == 0 ==> name_part(nodes) == Seq::<char>::empty()
            &&& parts.len() > 0 ==> name_part(nodes) == parts[parts.len() - 1]
            &&& parts.len() < 2 ==> schema_part(nodes) == Seq::<char>::empty()
            &&& parts.len() >= 2 ==> schema_part(nodes) == parts[0]
            &&& split_name(parts).1 == name_part(nodes)
            &&& parts.len() < 2 ==> split_name(parts).0 is None
            &&& parts.len() >= 2 ==> split_name(parts).0 == Some(parts[0])
            &&& resolved(nodes, default_schema) == if parts.len() >= 2 && parts[0].len() > 0 {
                parts[0]
            } else {
                default_schema
            }
        }),
{
}

/// A text that cannot be parsed gives the parser's message.
pub proof fn law_unparsed_sql_gives_the_message(
    name: Seq<char>,
    message: String,
    default_schema: Seq<char>,
)
    ensures
        extract(name, Err(message), default_schema) == Err::<DatabaseView, ErrorView>(
            ErrorView::SQLParseError(message@),
        ),
{
}

/// No statements give a database without enums, under the given label.
pub proof fn law_no_statements_give_no_enums(
    name: Seq<char>,
    statements: Vec<Statement>,
    default_schema: Seq<char>,
)
    requires
        statements@.len() == 0,
    ensures
        extract(name, Ok(statements), default_schema) matches Ok(database) && database.name == name
            && database.enums.len() == 0,
{
}

/// What failed stays failed, for the same reason, whatever statement follows.
pub proof fn law_failure_is_final(
    name: Seq<char>,
    earlier: Vec<Statement>,
    statements: Vec<Statement>,
    statement: Statement,
    default_schema: Seq<char>,
)
    requires
        statements@ == earlier@.push(statement),
    ensures
        extract(name, Ok(earlier), default_schema) matches Err(e) ==> extract(
            name,
            Ok(statements),
            default_schema,
        ) == Err::<DatabaseView, ErrorView>(e),
{
    assert(statements@.drop_last() =~= earlier@);
}

/// One more declaration with pairwise different labels, of a schema and name that no enum has so
/// far, adds its enum after the others and changes nothing else.
pub proof fn law_declaration_adds_its_enum(
    name: Seq<char>,
    earlier: Vec<Statement>,
    statements: Vec<Statement>,
    names: Vec<ListNode>,
    vals: Vec<ListNode>,
    default_schema: Seq<char>,
)
    requires
        statements@ == earlier@.push(Statement::CreateEnum { names, vals }),
    ensures
        ({
            let parts = node_texts(names@);
            let labels = node_texts(vals@);
            let schema = if parts.len() >= 2 && parts[0].len() > 0 {
                parts[0]
            } else {
                default_schema
            };
            let own = if parts.len() == 0 {
                Seq::<char>::empty()
            } else {
                parts[parts.len() - 1]
            };
            extract(name, Ok(earlier), default_schema) matches Ok(database) ==> ((forall|
                a: int,
                b: int,
            |
                0 <= a < b < labels.len() ==> labels[a] != labels[b]) && (forall|i: int|
                0 <= i < database.enums.len() ==> !((#[trigger] database.enums[i]).schema == schema
                    && database.enums[i].name == own)) ==> extract(
                name,
                Ok(statements),
                default_schema,
            ) == Ok::<DatabaseView, ErrorView>(
                DatabaseView {
                    name,
                    enums: database.enums.push(
                        EnumView {
                            schema,
                            name: own,
                            comment: None,
                            values: labels,
                            digest: lower_hex(
                                DefaultHasher::spec_finish(
                                    string_writes(schema) + string_writes(own) + list_writes(labels),
                                ) as nat,
                            ),
                        },
                    ),
                },
            ))
        }),
{
    let builder = BuilderView { name, enums: Seq::empty(), default_schema };
    let labels = node_texts(vals@);
    assert(statements@.drop_last() =~= earlier@);
    lemma_apply_all_keeps(builder, earlier@);
    if forall|a: int, b: int| 0 <= a < b < labels.len() ==> labels[a] != labels[b] {
        assert(labels.no_duplicates());
        lemma_first_repeat(labels);
    }
}

/// One more declaration that repeats a label is refused for the first label that repeats an earlier
/// one.
pub proof fn law_declaration_with_a_repeated_label_fails(
    name: Seq<char>,
    earlier: Vec<Statement>,
    statements: Vec<Statement>,
    names: Vec<ListNode>,
    vals: Vec<ListNode>,
    default_schema: Seq<char>,
    i: int,
    j: int,
)
    requires
        statements@ == earlier@.push(Statement::CreateEnum { names, vals }),
        0 <= i < j < node_texts(vals@).len(),
        node_texts(vals@)[i] == node_texts(vals@)[j],
        forall|a: int, b: int| 0 <= a < b < j ==> node_texts(vals@)[a] != node_texts(vals@)[b],
    ensures
        ({
            let parts = node_texts(names@);
            extract(name, Ok(earlier), default_schema) is Ok ==> extract(
                name,
                Ok(statements),
                default_schema,
            ) == Err::<DatabaseView, ErrorView>(
                ErrorView::DuplicatedValue {
                    schema: if parts.len() >= 2 && parts[0].len() > 0 {
                        parts[0]
                    } else {
                        default_schema
                    },
                    enum_name: if parts.len() == 0 {
                        Seq::<char>::empty()
                    } else {
                        parts[parts.len() - 1]
                    },
                    value: node_texts(vals@)[j],
                },
            )
        }),
{
    let builder = BuilderView { name, enums: Seq::empty(), default_schema };
    assert(statements@.drop_last() =~= earlier@);
    lemma_apply_all_keeps(builder, earlier@);
    assert(node_texts(vals@).take(j).no_duplicates());
    lemma_first_repeat_at(node_texts(vals@), i, j);
}

/// One more declaration with pairwise different labels is refused if some enum has its schema and
/// name already.
pub proof fn law_declaration_of_a_taken_name_fails(
    name: Seq<char>,
    earlier: Vec<Statement>,
    statements: Vec<Statement>,
    names: Vec<ListNode>,
    vals: Vec<ListNode>,
    default_schema: Seq<char>,
    i: int,
)
    requires
        statements@ == earlier@.push(Statement::CreateEnum { names, vals }),
        forall|a: int, b: int|
            0 <= a < b < node_texts(vals@).len() ==> node_texts(vals@)[a] != node_texts(vals@)[b],
    ensures
        ({
            let parts = node_texts(names@);
            let schema = if parts.len() >= 2 && parts[0].len() > 0 {
                parts[0]
            } else {
                default_schema
            };
            let own = if parts.len() == 0 {
                Seq::<char>::empty()
            } else {
                parts[parts.len() - 1]
            };
            extract(name, Ok(earlier), default_schema) matches Ok(database) ==> (0 <= i
                < database.enums.len() && database.enums[i].schema == schema
                && database.enums[i].name == own ==> extract(name, Ok(statements), default_schema)
                == Err::<DatabaseView, ErrorView>(
                ErrorView::DuplicatedType { schema, enum_name: own },
            ))
        }),
{
    let builder = BuilderView { name, enums: Seq::empty(), default_schema };
    assert(statements@.drop_last() =~= earlier@);
    lemma_apply_all_keeps(builder, earlier@);
    assert(node_texts(vals@).no_duplicates());
    lemma_first_repeat(node_texts(vals@));
    if let Ok(database) = extract(name, Ok(earlier), default_schema) {
        if 0 <= i < database.enums.len() && database.enums[i].schema == resolved(
            names@,
            default_schema,
        ) && database.enums[i].name == name_part(names@) {
            assert(database.enums[i].has_key(resolved(names@, default_schema), name_part(names@)));
            assert(declares(
                database.enums,
                resolved(names@, default_schema),
                name_part(names@),
            ));
        }
    }
}

/// One more comment on a type is set on the enums with its schema and name and on no others, and
/// nothing else changes.
pub proof fn law_comment_statement_sets_the_comment(
    name: Seq<char>,
    earlier: Vec<Statement>,
    statements: Vec<Statement>,
    names: Vec<ListNode>,
    comment: String,
    default_schema: Seq<char>,
)
    requires
        statements@ == earlier@.push(
            Statement::Comment {
                objtype: ObjectType::Type,
                object: Some(ObjectNode::TypeName { names }),
                comment,
            },
        ),
    ensures
        ({
            let parts = node_texts(names@);
            let schema = if parts.len() >= 2 && parts[0].len() > 0 {
                parts[0]
            } else {
                default_schema
            };
            let own = if parts.len() == 0 {
                Seq::<char>::empty()
            } else {
                parts[parts.len() - 1]
            };
            extract(name, Ok(earlier), default_schema) matches Ok(database) ==> {
                &&& extract(name, Ok(statements), default_schema) matches Ok(next)
                &&& next.name == database.name
                &&& next.enums.len() == database.enums.len()
                &&& forall|i: int|
                    0 <= i < database.enums.len() ==> #[trigger] next.enums[i] == EnumView {
                        schema: database.enums[i].schema,
                        name: database.enums[i].name,
                        comment: if database.enums[i].schema == schema && database.enums[i].name
                            == own {
                            Some(comment@)
                        } else {
                            database.enums[i].comment
                        },
                        values: database.enums[i].values,
                        digest: database.enums[i].digest,
                    }
            }
        }),
{
    let builder = BuilderView { name, enums: Seq::empty(), default_schema };
    assert(statements@.drop_last() =~= earlier@);
    lemma_apply_all_keeps(builder, earlier@);
}

/// One more statement that neither declares an enum nor comments on a type by its name changes
/// nothing.
pub proof fn law_other_statement_changes_nothing(
    name: Seq<char>,
    earlier: Vec<Statement>,
    statements: Vec<Statement>,
    statement: Statement,
    default_schema: Seq<char>,
)
    requires
        statements@ == earlier@.push(statement),
        match statement {
            Statement::CreateEnum { names, vals } => false,
            Statement::Comment { objtype, object, comment } => objtype is Other || object is None
                || object == Some(ObjectNode::Other),
            Statement::Other => true,
        },
    ensures
        extract(name, Ok(statements), default_schema) == extract(name, Ok(earlier), default_schema),
{
    let builder = BuilderView { name, enums: Seq::empty(), default_schema };
    assert(statements@.drop_last() =~= earlier@);
    lemma_apply_all_keeps(builder, earlier@);
}

/// SQL is accepted exactly when no declaration repeats a label within itself and no two
/// declarations have the same schema and name.
pub proof fn law_consistent_declarations_are_accepted(
    name: Seq<char>,
    statements: Vec<Statement>,
    default_schema: Seq<char>,
)
    ensures
        extract(name, Ok(statements), default_schema) is Ok <==> {
            &&& forall|p: int|
                0 <= p < statements@.len() && #[trigger] statements@[p] is CreateEnum ==> node_texts(
                    statements@[p]->vals@,
                ).no_duplicates()
            &&& forall|p: int, q: int|
                0 <= p < q < statements@.len() && #[trigger] statements@[p] is CreateEnum
                    && #[trigger] statements@[q] is CreateEnum ==> !(resolved(
                    statements@[p]->names@,
                    default_schema,
                ) == resolved(statements@[q]->names@, default_schema) && name_part(
                    statements@[p]->names@,
                ) == name_part(statements@[q]->names@))
        },
{
    lemma_accepted(BuilderView { name, enums: Seq::empty(), default_schema }, statements@);
}

proof fn lemma_accepted(builder: BuilderView, statements: Seq<Statement>)
    requires
        builder.enums.len() == 0,
    ensures
        apply_all(builder, statements) is Ok <==> {
            &&& forall|p: int|
                0 <= p < statements.len() && #[trigger] statements[p] is CreateEnum ==> node_texts(
                    statements[p]->vals@,
                ).no_duplicates()
            &&& forall|p: int, q: int|
                0 <= p < q < statements.len() && #[trigger] statements[p] is CreateEnum
                    && #[trigger] statements[q] is CreateEnum ==> !(resolved(
                    statements[p]->names@,
                    builder.default_schema,
                ) == resolved(statements[q]->names@, builder.default_schema) && name_part(
                    statements[p]->names@,
                ) == name_part(statements[q]->names@))
        },
    decreases statements.len(),
{
    if statements.len() > 0 {
        let init = statements.drop_last();
        let n = init.len() as int;
        assert(forall|p: int| 0 <= p < n ==> #[trigger] init[p] == statements[p]);
        lemma_accepted(builder, init);
        lemma_apply_all_keeps(builder, init);
        if apply_all(builder, init) is Err {
            if forall|p: int|
                0 <= p < n && #[trigger] init[p] is CreateEnum ==> node_texts(
                    init[p]->vals@,
                ).no_duplicates() {
                let (p, q) = choose|p: int, q: int|
                    0 <= p < q < n && #[trigger] init[p] is CreateEnum && #[trigger] init[q] is CreateEnum
                        && resolved(init[p]->names@, builder.default_schema) == resolved(
                        init[q]->names@,
                        builder.default_schema,
                    ) && name_part(init[p]->names@) == name_part(init[q]->names@);
                assert(statements[p] is CreateEnum && statements[q] is CreateEnum);
            } else {
                let p = choose|p: int|
                    0 <= p < n && #[trigger] init[p] is CreateEnum && !node_texts(
                        init[p]->vals@,
                    ).no_duplicates();
                assert(statements[p] is CreateEnum);
            }
        } else {
            let next = apply_all(builder, init)->Ok_0;
            assert(statements[n] == statements.last());
            assert forall|p: int| 0 <= p < n && #[trigger] statements[p] is CreateEnum implies
                node_texts(statements[p]->vals@).no_duplicates() by {
                assert(init[p] is CreateEnum);
            }
            assert forall|p: int, q: int|
                0 <= p < q < n && #[trigger] statements[p] is CreateEnum
                    && #[trigger] statements[q] is CreateEnum implies !(resolved(
                statements[p]->names@,
                builder.default_schema,
            ) == resolved(statements[q]->names@, builder.default_schema) && name_part(
                statements[p]->names@,
            ) == name_part(statements[q]->names@)) by {
                assert(init[p] is CreateEnum && init[q] is CreateEnum);
            }
            if let Statement::CreateEnum { names, vals } = statements.last() {
                let schema = resolved(names@, builder.default_schema);
                let own = name_part(names@);
                lemma_first_repeat(node_texts(vals@));
                if declares(next.enums, schema, own) {
                    let k = choose|k: int|
                        0 <= k < next.enums.len() && (#[trigger] next.enums[k]).has_key(schema, own);
                    lemma_count(builder, init);
                    lemma_declaration_of(init, k);
                    let p = choose|p: int|
                        0 <= p < init.len() && #[trigger] init[p] is CreateEnum && declarations(
                            init.take(p),
                        ) == k;
                    lemma_declared(builder, init, p);
                    assert(statements[p] is CreateEnum && statements[n] is CreateEnum);
                } else {
                    assert forall|p: int| 0 <= p < n && #[trigger] statements[p] is CreateEnum implies !(
                    resolved(statements[p]->names@, builder.default_schema) == schema && name_part(
                        statements[p]->names@,
                    ) == own) by {
                        lemma_declared(builder, init, p);
                        let k = (builder.enums.len() + declarations(init.take(p))) as int;
                        assert(!next.enums[k].has_key(schema, own));
                    }
                }
            }
        }
    }
}

/// An extracted database has the given label, no enum of it repeats a value, no two of them have
/// the same schema and name, and every digest is that of its enum.
pub proof fn law_extracted_enums_are_distinct(
    name: Seq<char>,
    parsed: Result<Vec<Statement>, String>,
    default_schema: Seq<char>,
)
    ensures
        extract(name, parsed, default_schema) matches Ok(database) ==> {
            &&& database.name == name
            &&& forall|i: int|
                0 <= i < database.enums.len() ==> {
                    &&& (#[trigger] database.enums[i]).values.no_duplicates()
                    &&& database.enums[i].digest == lower_hex(
                        DefaultHasher::spec_finish(
                            string_writes(database.enums[i].schema) + string_writes(
                                database.enums[i].name,
                            ) + list_writes(database.enums[i].values),
                        ) as nat,
                    )
                }
            &&& forall|i: int, j: int|
                0 <= i < j < database.enums.len() ==> !((#[trigger] database.enums[i]).schema == (
                #[trigger] database.enums[j]).schema && database.enums[i].name
                    == database.enums[j].name)
        },
{
    law_extracted_database_is_consistent(name, parsed, default_schema);
    if let Ok(database) = extract(name, parsed, default_schema) {
        assert forall|i: int| 0 <= i < database.enums.len() implies (
        #[trigger] database.enums[i]).digest == lower_hex(
            DefaultHasher::spec_finish(
                string_writes(database.enums[i].schema) + string_writes(database.enums[i].name)
                    + list_writes(database.enums[i].values),
            ) as nat,
        ) by {
            assert(database.enums[i].wf());
        }
        assert forall|i: int, j: int| 0 <= i < j < database.enums.len() implies !((
        #[trigger] database.enums[i]).schema == (#[trigger] database.enums[j]).schema
            && database.enums[i].name == database.enums[j].name) by {
            assert(!database.enums[i].has_key(database.enums[j].schema, database.enums[j].name));
        }
    }
}

// The serialised form.

/// The serialised form has version 1, the label of the database, and at every position the schema,
/// name, comment and values of the database's enum there.
pub proof fn law_serialised_form_shows_every_field(database: DatabaseView)
    ensures
        V1View::of(database).version == 1,
        V1View::of(database).name == database.name,
        V1View::of(database).enums.len() == database.enums.len(),
        forall|i: int|
            0 <= i < database.enums.len() ==> {
                &&& (#[trigger] V1View::of(database).enums[i]).schema == database.enums[i].schema
                &&& V1View::of(database).enums[i].name == database.enums[i].name
                &&& V1View::of(database).enums[i].comment == database.enums[i].comment
                &&& V1View::of(database).enums[i].values == database.enums[i].values
                &&& V1View::of(database).enums[i].digest == database.enums[i].digest
            },
{
}

/// The database of a serialised form has its label, and at every position the schema, name, comment
/// and values of the form's enum there, with the digest of those.
pub proof fn law_database_of_a_form_shows_every_field(v1: V1View)
    ensures
        v1.database().name == v1.name,
        v1.database().enums.len() == v1.enums.len(),
        forall|i: int|
            0 <= i < v1.enums.len() ==> {
                &&& (#[trigger] v1.database().enums[i]).schema == v1.enums[i].schema
                &&& v1.database().enums[i].name == v1.enums[i].name
                &&& v1.database().enums[i].comment == v1.enums[i].comment
                &&& v1.database().enums[i].values == v1.enums[i].values
                &&& v1.database().enums[i].digest == lower_hex(
                    DefaultHasher::spec_finish(
                        string_writes(v1.enums[i].schema) + string_writes(v1.enums[i].name)
                            + list_writes(v1.enums[i].values),
                    ) as nat,
                )
            },
{
}

/// A version other than 1 is refused: first the one asked for, then that of the form. Between the
/// two comes what the parser could not read.
pub proof fn law_reading_looks_at_versions_first(
    version: u32,
    parsed: Result<V1View, ron::error::SpannedError>,
)
    ensures
        version != 1 ==> read_back(version, parsed) == Err::<DatabaseView, ErrorView>(
            ErrorView::UnknownVersion(version),
        ),
        version == 1 ==> (parsed matches Err(e) ==> read_back(version, parsed) == Err::<
            DatabaseView,
            ErrorView,
        >(ErrorView::InvalidRepresentation(e))),
        version == 1 ==> (parsed matches Ok(v1) ==> (v1.version != 1 ==> read_back(version, parsed)
            == Err::<DatabaseView, ErrorView>(ErrorView::UnknownVersion(v1.version)))),
{
}

/// A form of version 1 whose enums each have pairwise different values, and no two of which have
/// the same schema and name, is read as its label and, position by position, its enums.
pub proof fn law_consistent_form_is_read(v1: V1View)
    requires
        v1.version == 1,
        forall|i: int| 0 <= i < v1.enums.len() ==> (#[trigger] v1.enums[i]).values.no_duplicates(),
        forall|i: int, j: int|
            0 <= i < j < v1.enums.len() ==> !((#[trigger] v1.enums[i]).schema == (
            #[trigger] v1.enums[j]).schema && v1.enums[i].name == v1.enums[j].name),
    ensures
        read_back(1, Ok(v1)) matches Ok(database) && database.name == v1.name
            && database.enums.len() == v1.enums.len() && forall|i: int|
            0 <= i < v1.enums.len() ==> {
                &&& (#[trigger] database.enums[i]).schema == v1.enums[i].schema
                &&& database.enums[i].name == v1.enums[i].name
                &&& database.enums[i].comment == v1.enums[i].comment
                &&& database.enums[i].values == v1.enums[i].values
                &&& database.enums[i].digest == lower_hex(
                    DefaultHasher::spec_finish(
                        string_writes(v1.enums[i].schema) + string_writes(v1.enums[i].name)
                            + list_writes(v1.enums[i].values),
                    ) as nat,
                )
            },
{
    lemma_first_objection(v1.enums);
}

/// The front of a list of enums meets no objection if it is consistent.
proof fn lemma_front_is_fine(enums: Seq<EnumView>, k: int)
    requires
        0 <= k < enums.len(),
        forall|i: int| 0 <= i < k ==> (#[trigger] enums[i]).values.no_duplicates(),
        forall|i: int, j: int|
            0 <= i < j < k ==> !((#[trigger] enums[i]).schema == (#[trigger] enums[j]).schema
                && enums[i].name == enums[j].name),
    ensures
        first_objection(enums.take(k)) is None,
        enums.take(k + 1).drop_last() == enums.take(k),
        enums.take(k + 1).last() == enums[k],
{
    let front = enums.take(k);
    assert(forall|i: int| 0 <= i < k ==> #[trigger] front[i] == enums[i]);
    assert(consistent(front));
    lemma_first_objection(front);
    assert(enums.take(k + 1).drop_last() =~= front);
}

/// Where the enums before it are consistent, an enum of a form that repeats a value is reported,
/// with the first value that repeats an earlier one.
pub proof fn law_reading_reports_a_repeated_value(v1: V1View, k: int, a: int, b: int)
    requires
        v1.version == 1,
        0 <= k < v1.enums.len(),
        forall|i: int| 0 <= i < k ==> (#[trigger] v1.enums[i]).values.no_duplicates(),
        forall|i: int, j: int|
            0 <= i < j < k ==> !((#[trigger] v1.enums[i]).schema == (#[trigger] v1.enums[j]).schema
                && v1.enums[i].name == v1.enums[j].name),
        0 <= a < b < v1.enums[k].values.len(),
        v1.enums[k].values[a] == v1.enums[k].values[b],
        v1.enums[k].values.take(b).no_duplicates(),
    ensures
        read_back(1, Ok(v1)) == Err::<DatabaseView, ErrorView>(
            ErrorView::DuplicatedValue {
                schema: v1.enums[k].schema,
                enum_name: v1.enums[k].name,
                value: v1.enums[k].values[b],
            },
        ),
{
    lemma_front_is_fine(v1.enums, k);
    lemma_first_repeat_at(v1.enums[k].values, a, b);
    lemma_first_objection_of_prefix(v1.enums, k + 1);
}

/// Where the enums before it are consistent, an enum of a form whose values are pairwise different
/// and whose schema and name an earlier one has is reported.
pub proof fn law_reading_reports_a_taken_name(v1: V1View, k: int, a: int)
    requires
        v1.version == 1,
        0 <= a < k < v1.enums.len(),
        forall|i: int| 0 <= i <= k ==> (#[trigger] v1.enums[i]).values.no_duplicates(),
        forall|i: int, j: int|
            0 <= i < j < k ==> !((#[trigger] v1.enums[i]).schema == (#[trigger] v1.enums[j]).schema
                && v1.enums[i].name == v1.enums[j].name),
        v1.enums[a].schema == v1.enums[k].schema,
        v1.enums[a].name == v1.enums[k].name,
    ensures
        read_back(1, Ok(v1)) == Err::<DatabaseView, ErrorView>(
            ErrorView::DuplicatedType { schema: v1.enums[k].schema, enum_name: v1.enums[k].name },
        ),
{
    lemma_front_is_fine(v1.enums, k);
    assert(v1.enums[k].values.no_duplicates());
    lemma_first_repeat(v1.enums[k].values);
    assert(v1.enums.take(k)[a].has_key(v1.enums[k].schema, v1.enums[k].name));
    lemma_first_objection_of_prefix(v1.enums, k + 1);
}

} // verus!
