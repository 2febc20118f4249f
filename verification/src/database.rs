//! Databases: the enum types of one PostgreSQL database, found by name.
use vstd::prelude::*;

use crate::enum_type::{enum_views, EnumType, EnumView};
use crate::error::{outcome, ErrorView, PGEnumError};
use crate::index::{
    build_indexes, indexed, key_indexed, name_indexed, schemas_of, with_key, with_name,
    EnumLookup, SchemaMap, SchemalessLookup,
};
use crate::text::{copy_texts, optional_str, same_text};

verus! {

/// The top-level representation of the database structure, containing all enum types
/// and various methods for looking an enum up by name (and optional schema).
#[derive(Debug)]
pub struct Database {
    /// An identifier for the database. Note that it does not have to match the
    /// actual database name, it's just a label for this set of enums that can
    /// be used to distinguish it from others if needed.
    name: String,
    /// The list of `EnumType`s defined in this database. It is open for reading and for taking
    /// out of the database; a list that was changed no longer agrees with the indexes, and `get`
    /// may then panic.
    pub enums: Vec<EnumType>,
    /// What is known of each enum name when no schema is given, with the conflicts of names
    /// that exist in multiple schemas.
    lookup: SchemalessLookup,
    /// From schema and enum name to the position in `enums`.
    schemas: SchemaMap,
}

/// A database: its label and its enum types, in their order.
#[verifier::ext_equal]
pub struct DatabaseView {
    pub name: Seq<char>,
    pub enums: Seq<EnumView>,
}

/// Whether every digest belongs to its enum.
pub open spec fn digested(enums: Seq<EnumView>) -> bool {
    forall|i: int| 0 <= i < enums.len() ==> (#[trigger] enums[i]).wf()
}

/// What `==` says of two lists of enums: that they agree position by position.
pub open spec fn same_enums(a: Seq<EnumView>, b: Seq<EnumView>) -> bool {
    a.len() == b.len() && forall|i: int| 0 <= i < a.len() ==> (#[trigger] a[i]).same(b[i])
}

impl DatabaseView {
    /// What `==` says of two databases: that their labels and their enums agree.
    pub open spec fn same(self, other: DatabaseView) -> bool {
        self.name == other.name && same_enums(self.enums, other.enums)
    }
}

/// The outcome of looking up an enum by name, optionally qualified by schema.
///
/// Without a schema the name has to be unique. With a schema the enum with that schema and name
/// is found, the last one if there are several.
pub open spec fn lookup_enum(
    enums: Seq<EnumView>,
    schema: Option<Seq<char>>,
    name: Seq<char>,
) -> Result<EnumView, ErrorView> {
    match schema {
        Some(s) => if with_key(enums, s, name).len() > 0 {
            Ok(with_key(enums, s, name).last())
        } else {
            Err(ErrorView::EnumNotFound { name, schema })
        },
        None => {
            let hits = with_name(enums, name);
            if hits.len() == 0 {
                Err(ErrorView::EnumNotFound { name, schema })
            } else if hits.len() == 1 {
                Ok(hits[0])
            } else {
                Err(ErrorView::EnumConflict { name, schemas: schemas_of(hits) })
            }
        },
    }
}

impl View for Database {
    type V = DatabaseView;

    closed spec fn view(&self) -> DatabaseView {
        DatabaseView { name: self.name@, enums: enum_views(self.enums@) }
    }
}

impl Database {
    /// Every digest belongs to its enum, and the indexes are those of the enums.
    pub closed spec fn wf(&self) -> bool {
        &&& digested(enum_views(self.enums@))
        &&& indexed(enum_views(self.enums@), self.lookup, self.schemas)
    }

    /// The digests of a valid database belong to its enums.
    pub proof fn law_digests_belong_to_enums(&self)
        requires
            self.wf(),
        ensures
            digested(self@.enums),
    {
    }

    /// A database of the given enums.
    pub(crate) fn assemble(name: String, enums: Vec<EnumType>) -> (r: Self)
        ensures
            digested(enum_views(enums@)) ==> r.wf(),
            r@ == (DatabaseView { name: name@, enums: enum_views(enums@) }),
    {
        let (lookup, schemas) = build_indexes(enums.as_slice());
        Database { name, enums, lookup, schemas }
    }

    /// The label and the enums of a database.
    pub(crate) fn into_parts(self) -> (r: (String, Vec<EnumType>))
        ensures
            self@ == (DatabaseView { name: r.0@, enums: enum_views(r.1@) }),
    {
        (self.name, self.enums)
    }

    /// Get a slice of all enums in this database.
    pub fn enums(&self) -> (r: &[EnumType])
        ensures
            enum_views(r@) == self@.enums,
            r@.len() == self@.enums.len(),
            forall|i: int| 0 <= i < r@.len() ==> (#[trigger] r@[i])@ == self@.enums[i],
    {
        self.enums.as_slice()
    }

    /// Look up an enum by name, optionally qualified by schema.
    /// If `schema` is `None`, this will attempt to find an enum with the given name
    /// that is unique across all schemas. If there's a conflict, an `EnumConflict`
    /// error will be returned. If no enum with the given name is found, an `EnumNotFound`
    /// error will be returned.
    ///
    /// If `schema` is provided, it will look for an enum with the given
    /// name within that schema. If the enum is not found, an `EnumNotFound`
    /// error will be returned.
    pub fn get(&self, schema: Option<&str>, name: &str) -> (r: Result<&EnumType, PGEnumError>)
        requires
            self.wf(),
        ensures
            outcome(r) == lookup_enum(self@.enums, optional_str(schema), name@),
    {
        match schema {
            Some(s) => {
                assert(key_indexed(self@.enums, self.schemas@, s@, name@));
                if let Some(names) = self.schemas.get(s) {
                    if let Some(i) = names.get(name) {
                        return Ok(&self.enums[*i]);
                    }
                }
                Err(
                    PGEnumError::EnumNotFound {
                        name: name.to_string(),
                        schema: Some(s.to_string()),
                    },
                )
            },
            None => {
                assert(name_indexed(self@.enums, self.lookup@, name@));
                match self.lookup.get(name) {
                    Some(EnumLookup::Found(i)) => Ok(&self.enums[*i]),
                    Some(EnumLookup::Conflict(schemas)) => Err(
                        PGEnumError::EnumConflict {
                            name: name.to_string(),
                            schemas: copy_texts(schemas),
                        },
                    ),
                    None => Err(
                        PGEnumError::EnumNotFound { name: name.to_string(), schema: None },
                    ),
                }
            },
        }
    }

    /// Get the name of this database.
    pub fn name(&self) -> (r: &str)
        ensures
            r@ == self@.name,
    {
        self.name.as_str()
    }
}

/// A copy of a list of enums.
pub(crate) fn copy_enums(enums: &[EnumType]) -> (r: Vec<EnumType>)
    ensures
        enum_views(r@) == enum_views(enums@),
{
    let mut r: Vec<EnumType> = Vec::new();
    let mut i: usize = 0;
    while i < enums.len()
        invariant
            i <= enums@.len(),
            r@.len() == i,
            forall|j: int| 0 <= j < i ==> (#[trigger] r@[j])@ == enums@[j]@,
        decreases enums@.len() - i,
    {
        r.push(enums[i].clone());
        i = i + 1;
    }
    assert(enum_views(r@) =~= enum_views(enums@));
    r
}

impl Clone for Database {
    fn clone(&self) -> (r: Self)
        ensures
            r@ == self@,
            self.wf() ==> r.wf(),
    {
        let enums = copy_enums(self.enums.as_slice());
        let (lookup, schemas) = build_indexes(enums.as_slice());
        Database { name: self.name.clone(), enums, lookup, schemas }
    }
}

impl PartialEq for Database {
    fn eq(&self, other: &Self) -> (r: bool)
        ensures
            r <==> {
                &&& self@.name == other@.name
                &&& self@.enums.len() == other@.enums.len()
                &&& forall|i: int|
                    0 <= i < self@.enums.len() ==> (#[trigger] self@.enums[i]).digest
                        == other@.enums[i].digest
            },
    {
        if !same_text(self.name.as_str(), other.name.as_str()) {
            return false;
        }
        if self.enums.len() != other.enums.len() {
            return false;
        }
        let mut i: usize = 0;
        while i < self.enums.len()
            invariant
                self.enums@.len() == other.enums@.len(),
                i <= self.enums@.len(),
                forall|j: int| 0 <= j < i ==> (#[trigger] self@.enums[j]).same(other@.enums[j]),
            decreases self.enums@.len() - i,
        {
            if self.enums[i] != other.enums[i] {
                assert(!self@.enums[i as int].same(other@.enums[i as int]));
                return false;
            }
            i = i + 1;
        }
        true
    }
}

impl vstd::std_specs::cmp::PartialEqSpecImpl for Database {
    open spec fn obeys_eq_spec() -> bool {
        true
    }

    open spec fn eq_spec(&self, other: &Self) -> bool {
        self@.same(other@)
    }
}

impl Eq for Database {

}

} // verus!
