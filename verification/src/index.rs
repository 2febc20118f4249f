//! The indexes by which a database finds its enum types.
use vstd::prelude::*;

use crate::enum_type::{enum_views, EnumType, EnumView};
use crate::string_map::StringMap;
use crate::text::texts;

verus! {

/// What is known of an enum name when no schema is given.
#[derive(Debug)]
pub enum EnumLookup {
    /// The position of the only enum with the name.
    Found(usize),
    /// The schemas in which the name was found, one for each enum with the name.
    Conflict(Vec<String>),
}

/// What is known of each enum name.
pub type SchemalessLookup = StringMap<EnumLookup>;

/// From schema and enum name to the position of the enum.
pub type SchemaMap = StringMap<StringMap<usize>>;

/// The enums with a name, in their order.
pub open spec fn with_name(enums: Seq<EnumView>, name: Seq<char>) -> Seq<EnumView> {
    enums.filter(|e: EnumView| e.name == name)
}

/// The enums with a schema and a name, in their order.
pub open spec fn with_key(enums: Seq<EnumView>, schema: Seq<char>, name: Seq<char>) -> Seq<
    EnumView,
> {
    enums.filter(|e: EnumView| e.has_key(schema, name))
}

/// The schemas of enums, in their order.
pub open spec fn schemas_of(enums: Seq<EnumView>) -> Seq<Seq<char>> {
    enums.map_values(|e: EnumView| e.schema)
}

/// Whether the index of names says of `name` what the enums do.
pub open spec fn name_indexed(
    enums: Seq<EnumView>,
    lookup: Map<Seq<char>, EnumLookup>,
    name: Seq<char>,
) -> bool {
    let hits = with_name(enums, name);
    &&& lookup.contains_key(name) <==> hits.len() > 0
    &&& lookup.contains_key(name) ==> match lookup[name] {
        EnumLookup::Found(i) => hits.len() == 1 && i < enums.len() && enums[i as int] == hits[0],
        EnumLookup::Conflict(schemas) => hits.len() >= 2 && texts(schemas@) == schemas_of(hits),
    }
}

/// Whether some enum has the given schema.
pub open spec fn has_schema(enums: Seq<EnumView>, schema: Seq<char>) -> bool {
    exists|i: int| 0 <= i < enums.len() && (#[trigger] enums[i]).schema == schema
}

/// What the index of schemas holds for a schema, by enum name.
pub open spec fn names_in(
    schemas: Map<Seq<char>, StringMap<usize>>,
    schema: Seq<char>,
) -> Map<Seq<char>, usize> {
    if schemas.contains_key(schema) {
        schemas[schema]@
    } else {
        Map::empty()
    }
}

/// Whether the index of schemas says of `schema` and `name` what the enums do: it holds the
/// position of the last enum with that schema and name.
pub open spec fn key_indexed(
    enums: Seq<EnumView>,
    schemas: Map<Seq<char>, StringMap<usize>>,
    schema: Seq<char>,
    name: Seq<char>,
) -> bool {
    let hits = with_key(enums, schema, name);
    let names = names_in(schemas, schema);
    &&& names.contains_key(name) <==> hits.len() > 0
    &&& names.contains_key(name) ==> {
        &&& names[name] < enums.len()
        &&& enums[names[name] as int] == hits.last()
        &&& enums[names[name] as int].has_key(schema, name)
        &&& forall|j: int|
            names[name] < j < enums.len() ==> !(#[trigger] enums[j]).has_key(schema, name)
    }
}

/// Whether the indexes are those of the enums.
pub open spec fn indexed(
    enums: Seq<EnumView>,
    lookup: SchemalessLookup,
    schemas: SchemaMap,
) -> bool {
    &&& lookup.wf()
    &&& schemas.wf()
    &&& forall|schema: Seq<char>| #[trigger]
        schemas@.contains_key(schema) ==> schemas@[schema].wf()
    &&& forall|schema: Seq<char>| #[trigger]
        schemas@.contains_key(schema) <==> has_schema(enums, schema)
    &&& forall|name: Seq<char>| #[trigger] name_indexed(enums, lookup@, name)
    &&& forall|schema: Seq<char>, name: Seq<char>| #[trigger]
        key_indexed(enums, schemas@, schema, name)
}

proof fn lemma_filter_push(enums: Seq<EnumView>, e: EnumView, keep: spec_fn(EnumView) -> bool)
    ensures
        enums.push(e).filter(keep) == if keep(e) {
            enums.filter(keep).push(e)
        } else {
            enums.filter(keep)
        },
{
    reveal(Seq::filter);
    assert(enums.push(e).drop_last() =~= enums);
}

/// One more enum adds itself to the enums with its name, and changes no other name.
pub proof fn lemma_with_name_push(enums: Seq<EnumView>, e: EnumView, name: Seq<char>)
    ensures
        with_name(enums.push(e), name) == if e.name == name {
            with_name(enums, name).push(e)
        } else {
            with_name(enums, name)
        },
{
    lemma_filter_push(enums, e, |e: EnumView| e.name == name);
}

/// One more enum adds itself to the enums with its key, and changes no other key.
pub proof fn lemma_with_key_push(
    enums: Seq<EnumView>,
    e: EnumView,
    schema: Seq<char>,
    name: Seq<char>,
)
    ensures
        with_key(enums.push(e), schema, name) == if e.has_key(schema, name) {
            with_key(enums, schema, name).push(e)
        } else {
            with_key(enums, schema, name)
        },
{
    lemma_filter_push(enums, e, |e: EnumView| e.has_key(schema, name));
}

/// Adds an enum, which stands at position `i`, to the index of schemas.
fn index_key(schemas: &mut SchemaMap, e: &EnumType, i: usize)
    requires
        old(schemas).wf(),
        forall|schema: Seq<char>| #[trigger]
            old(schemas)@.contains_key(schema) ==> old(schemas)@[schema].wf(),
    ensures
        final(schemas).wf(),
        forall|schema: Seq<char>| #[trigger]
            final(schemas)@.contains_key(schema) ==> final(schemas)@[schema].wf(),
        forall|schema: Seq<char>| #[trigger]
            final(schemas)@.contains_key(schema) <==> old(schemas)@.contains_key(schema) || schema
                == e@.schema,
        forall|schema: Seq<char>| #[trigger]
            names_in(final(schemas)@, schema) == if schema == e@.schema {
                names_in(old(schemas)@, schema).insert(e@.name, i)
            } else {
                names_in(old(schemas)@, schema)
            },
{
    match schemas.get_mut(e.schema.as_str()) {
        Some(names) => {
            names.insert(e.name.clone(), i);
        },
        None => {
            let mut names = StringMap::new();
            names.insert(e.name.clone(), i);
            schemas.insert(e.schema.clone(), names);
        },
    }
}

/// Adds an enum, which stands at position `i`, to the index of names.
fn index_name(lookup: &mut SchemalessLookup, enums: &[EnumType], i: usize)
    requires
        old(lookup).wf(),
        i < enums@.len(),
        forall|name: Seq<char>| #[trigger]
            name_indexed(enum_views(enums@).take(i as int), old(lookup)@, name),
    ensures
        final(lookup).wf(),
        forall|name: Seq<char>| #[trigger]
            name_indexed(enum_views(enums@).take(i + 1), final(lookup)@, name),
{
    let e = &enums[i];
    let ghost before = enum_views(enums@).take(i as int);
    let ghost after = enum_views(enums@).take(i + 1);
    let ghost hits = with_name(before, e@.name);
    proof {
        assert(after =~= before.push(e@));
        assert(name_indexed(before, lookup@, e@.name));
    }
    match lookup.get_mut(e.name.as_str()) {
        Some(existing) => match existing {
            EnumLookup::Found(previous) => {
                let first = enums[*previous].schema.clone();
                *existing = EnumLookup::Conflict(vec![first, e.schema.clone()]);
            },
            EnumLookup::Conflict(schemas) => {
                schemas.push(e.schema.clone());
            },
        },
        None => {
            lookup.insert(e.name.clone(), EnumLookup::Found(i));
        },
    }
    assert forall|name: Seq<char>| #[trigger] name_indexed(after, lookup@, name) by {
        lemma_with_name_push(before, e@, name);
        assert(name_indexed(before, old(lookup)@, name));
        if name == e@.name {
            assert(schemas_of(hits.push(e@)) =~= schemas_of(hits).push(e@.schema));
            match lookup@[name] {
                EnumLookup::Found(_) => {},
                EnumLookup::Conflict(schemas) => {
                    assert(texts(schemas@) =~= schemas_of(hits).push(e@.schema));
                },
            }
        }
    }
}

/// Builds the indexes of the given enums.
pub(crate) fn build_indexes(enums: &[EnumType]) -> (r: (SchemalessLookup, SchemaMap))
    ensures
        indexed(enum_views(enums@), r.0, r.1),
{
    let mut lookup: SchemalessLookup = StringMap::new();
    let mut schemas: SchemaMap = StringMap::new();
    let mut i: usize = 0;
    let ghost all = enum_views(enums@);
    proof {
        reveal(Seq::filter);
        assert(all.take(0) =~= Seq::<EnumView>::empty());
    }
    while i < enums.len()
        invariant
            i <= enums@.len(),
            all == enum_views(enums@),
            indexed(all.take(i as int), lookup, schemas),
        decreases enums@.len() - i,
    {
        let ghost known = schemas@;
        index_key(&mut schemas, &enums[i], i);
        index_name(&mut lookup, enums, i);
        proof {
            let e = enums@[i as int]@;
            let before = all.take(i as int);
            let after = all.take(i + 1);
            assert(after =~= before.push(e));
            assert forall|schema: Seq<char>| #[trigger]
                schemas@.contains_key(schema) <==> has_schema(after, schema) by {
                if has_schema(before, schema) {
                    let j = choose|j: int|
                        0 <= j < before.len() && (#[trigger] before[j]).schema == schema;
                    assert(after[j].schema == schema);
                }
                if has_schema(after, schema) {
                    let j = choose|j: int|
                        0 <= j < after.len() && (#[trigger] after[j]).schema == schema;
                    if j < before.len() {
                        assert(before[j].schema == schema);
                    }
                }
                assert(after[i as int] == e);
            }
            assert forall|schema: Seq<char>, name: Seq<char>| #[trigger]
                key_indexed(after, schemas@, schema, name) by {
                lemma_with_key_push(before, e, schema, name);
                assert(key_indexed(before, known, schema, name));
                assert(names_in(schemas@, schema) == if schema == e.schema {
                    names_in(known, schema).insert(e.name, i)
                } else {
                    names_in(known, schema)
                });
            }
        }
        i = i + 1;
    }
    assert(all.take(i as int) =~= all);
    (lookup, schemas)
}

} // verus!
