//! The serialised form of a database.
use vstd::prelude::*;

use crate::builder::{find_first_objection, first_objection};
use crate::database::{copy_enums, Database, DatabaseView};
use crate::enum_type::{enum_views, EnumType, EnumView};
use crate::error::{outcome, ErrorView, PGEnumError};

verus! {

/// The current version of the RON serialization format.
pub const RON_VERSION: u32 = 1;

/// The first version of the serialised form: what is written to and read from RON.
///
/// Digests are no part of it: those of its enums are computed anew when a database is made.
#[derive(Debug, Clone, PartialEq, Eq)]
pub struct DatabaseV1 {
    pub version: u32,
    pub name: String,
    pub enums: Vec<EnumType>,
}

/// A serialised form, with its strings as sequences of characters.
#[verifier::ext_equal]
pub struct V1View {
    pub version: u32,
    pub name: Seq<char>,
    pub enums: Seq<EnumView>,
}

impl View for DatabaseV1 {
    type V = V1View;

    open spec fn view(&self) -> V1View {
        V1View { version: self.version, name: self.name@, enums: enum_views(self.enums@) }
    }
}

impl V1View {
    /// The serialised form of a database.
    pub open spec fn of(database: DatabaseView) -> V1View {
        V1View { version: RON_VERSION, name: database.name, enums: database.enums }
    }

    /// The database of a serialised form.
    pub open spec fn database(self) -> DatabaseView {
        DatabaseView {
            name: self.name,
            enums: self.enums.map_values(|e: EnumView| e.redigested()),
        }
    }
}

/// The outcome of reading a database back, given the version asked for and what the parser made
/// of the text.
pub open spec fn read_back(
    version: u32,
    parsed: Result<V1View, ron::error::SpannedError>,
) -> Result<DatabaseView, ErrorView> {
    if version != RON_VERSION {
        Err(ErrorView::UnknownVersion(version))
    } else {
        match parsed {
            Err(e) => Err(ErrorView::InvalidRepresentation(e)),
            Ok(v1) => if v1.version != RON_VERSION {
                Err(ErrorView::UnknownVersion(v1.version))
            } else {
                match first_objection(v1.enums) {
                    Some(e) => Err(e),
                    None => Ok(v1.database()),
                }
            },
        }
    }
}

/// What the parser made of a text, by view.
pub open spec fn parsed_view(
    parsed: Result<DatabaseV1, ron::error::SpannedError>,
) -> Result<V1View, ron::error::SpannedError> {
    match parsed {
        Ok(v1) => Ok(v1@),
        Err(e) => Err(e),
    }
}

impl From<Database> for DatabaseV1 {
    /// The serialised form of a database.
    fn from(es: Database) -> (r: Self)
        ensures
            r@ == V1View::of(es@),
    {
        let (name, enums) = es.into_parts();
        DatabaseV1 { version: RON_VERSION, name, enums }
    }
}

/// What `from` returns is stated by its own contract.
impl vstd::std_specs::convert::FromSpecImpl<Database> for DatabaseV1 {
    open spec fn obeys_from_spec() -> bool {
        false
    }

    open spec fn from_spec(es: Database) -> Self {
        arbitrary()
    }
}

impl From<DatabaseV1> for Database {
    /// The database of a serialised form, with digests computed anew.
    fn from(v1: DatabaseV1) -> (r: Self)
        ensures
            r.wf(),
            r@ == v1@.database(),
    {
        let mut enums = v1.enums;
        let ghost before = enum_views(enums@);
        let ghost after = v1@.database().enums;
        let mut i: usize = 0;
        while i < enums.len()
            invariant
                i <= enums@.len(),
                enums@.len() == before.len(),
                forall|j: int| 0 <= j < i ==> (#[trigger] enums@[j])@ == before[j].redigested(),
                forall|j: int| i <= j < enums@.len() ==> (#[trigger] enums@[j])@ == before[j],
            decreases enums@.len() - i,
        {
            let digest = EnumType::compute_digest(
                enums[i].schema.as_str(),
                enums[i].name.as_str(),
                &enums[i].values,
            );
            enums[i].digest = digest;
            i = i + 1;
        }
        assert(enum_views(enums@) =~= after);
        Database::assemble(v1.name, enums)
    }
}

/// What `from` returns is stated by its own contract.
impl vstd::std_specs::convert::FromSpecImpl<DatabaseV1> for Database {
    open spec fn obeys_from_spec() -> bool {
        false
    }

    open spec fn from_spec(v1: DatabaseV1) -> Self {
        arbitrary()
    }
}

impl Database {
    /// Make a `Database` of a parsed RON text.
    ///
    /// The `version` argument is used to allow for future versions of the RON format.
    pub fn from_ron(
        version: u32,
        parsed: Result<DatabaseV1, ron::error::SpannedError>,
    ) -> (r: Result<Self, PGEnumError>)
        ensures
            outcome(r) == read_back(version, parsed_view(parsed)),
            r matches Ok(database) ==> database.wf(),
    {
        if version != RON_VERSION {
            return Err(PGEnumError::UnknownVersion(version));
        }
        let v1 = match parsed {
            Ok(v1) => v1,
            Err(e) => {
                return Err(PGEnumError::InvalidRepresentation(e));
            },
        };
        if v1.version != RON_VERSION {
            return Err(PGEnumError::UnknownVersion(v1.version));
        }
        if let Some(e) = find_first_objection(&v1.enums) {
            return Err(e);
        }
        Ok(Database::from(v1))
    }

    /// Make a `Database` of a RON file, given what came of reading and parsing it.
    pub fn from_ron_file(
        version: u32,
        read: Result<Result<DatabaseV1, ron::error::SpannedError>, std::io::Error>,
    ) -> (r: Result<Self, PGEnumError>)
        ensures
            outcome(r) == match read {
                Ok(parsed) => read_back(version, parsed_view(parsed)),
                Err(e) => Err(ErrorView::IOError(e)),
            },
            r matches Ok(database) ==> database.wf(),
    {
        match read {
            Ok(parsed) => Self::from_ron(version, parsed),
            Err(e) => Err(PGEnumError::IOError(e)),
        }
    }

    /// The form in which this database is serialised to RON.
    pub fn to_ron(&self) -> (r: DatabaseV1)
        ensures
            r@ == V1View::of(self@),
            r.version == 1,
            r.name@ == self@.name,
            r.enums@.len() == self@.enums.len(),
            forall|i: int| 0 <= i < r.enums@.len() ==> (#[trigger] r.enums@[i])@ == self@.enums[i],
    {
        DatabaseV1 {
            version: RON_VERSION,
            name: self.name().to_string(),
            enums: copy_enums(self.enums()),
        }
    }
}

} // verus!
