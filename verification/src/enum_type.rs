//! PostgreSQL enum types.
use vstd::prelude::*;

use crate::digest::digest_of;
use crate::text::{copy_optional, copy_texts, optional_text, same_text, texts};

verus! {

/// A representation of a PostgreSQL enum type.
#[derive(Debug)]
pub struct EnumType {
    pub schema: String,
    pub name: String,
    pub comment: Option<String>,
    pub values: Vec<String>,
    pub digest: String,
}

/// An enum type, with its strings as sequences of characters.
#[verifier::ext_equal]
pub struct EnumView {
    pub schema: Seq<char>,
    pub name: Seq<char>,
    pub comment: Option<Seq<char>>,
    pub values: Seq<Seq<char>>,
    pub digest: Seq<char>,
}

impl EnumView {
    /// An enum with the digest that belongs to its schema, name and values.
    pub open spec fn of(
        schema: Seq<char>,
        name: Seq<char>,
        comment: Option<Seq<char>>,
        values: Seq<Seq<char>>,
    ) -> EnumView {
        EnumView { schema, name, comment, values, digest: digest_of(schema, name, values) }
    }

    /// The same enum with the digest that belongs to its schema, name and values.
    pub open spec fn redigested(self) -> EnumView {
        EnumView::of(self.schema, self.name, self.comment, self.values)
    }

    /// Whether the digest belongs to the schema, name and values.
    pub open spec fn wf(self) -> bool {
        self == self.redigested()
    }

    /// Whether the enum has the given schema and name.
    pub open spec fn has_key(self, schema: Seq<char>, name: Seq<char>) -> bool {
        self.schema == schema && self.name == name
    }

    /// What `==` says of two enums: that their digests agree.
    pub open spec fn same(self, other: EnumView) -> bool {
        self.digest == other.digest
    }
}

/// The enum types of a list, each by its view.
pub open spec fn enum_views(enums: Seq<EnumType>) -> Seq<EnumView> {
    enums.map_values(|e: EnumType| e@)
}

impl View for EnumType {
    type V = EnumView;

    open spec fn view(&self) -> EnumView {
        EnumView {
            schema: self.schema@,
            name: self.name@,
            comment: optional_text(self.comment),
            values: texts(self.values@),
            digest: self.digest@,
        }
    }
}

impl EnumType {
    /// Get the comment (if present) for this enum type.
    pub fn comment(&self) -> (r: Option<&str>)
        ensures
            match r {
                Some(s) => self@.comment == Some(s@),
                None => self@.comment is None,
            },
    {
        match &self.comment {
            Some(s) => Some(s.as_str()),
            None => None,
        }
    }

    /// Read the digest of the enum. This should serve as a unique-enough identifier for any given
    /// enum, for the sake of caching and quick comparisons.
    pub fn digest(&self) -> (r: &str)
        ensures
            r@ == self@.digest,
    {
        self.digest.as_str()
    }

    /// Retrieve the name of this enum type.
    pub fn name(&self) -> (r: &str)
        ensures
            r@ == self@.name,
    {
        self.name.as_str()
    }

    /// Build a new `EnumType` instance, computing the digest for later comparison.
    pub fn new(
        schema: String,
        name: String,
        comment: Option<String>,
        values: Vec<String>,
    ) -> (r: Self)
        ensures
            r@ == EnumView::of(schema@, name@, optional_text(comment), texts(values@)),
            r.schema == schema,
            r.name == name,
            r.comment == comment,
            r.values == values,
            r.digest@ == digest_of(schema@, name@, texts(values@)),
    {
        let digest = Self::compute_digest(schema.as_str(), name.as_str(), &values);
        EnumType { schema, name, comment, values, digest }
    }

    /// Retrieve the schema of this enum type.
    pub fn schema(&self) -> (r: &str)
        ensures
            r@ == self@.schema,
    {
        self.schema.as_str()
    }
}

impl Clone for EnumType {
    fn clone(&self) -> (r: Self)
        ensures
            r@ == self@,
            r.schema@ == self.schema@,
            r.name@ == self.name@,
            r.digest@ == self.digest@,
    {
        EnumType {
            schema: self.schema.clone(),
            name: self.name.clone(),
            comment: copy_optional(&self.comment),
            values: copy_texts(&self.values),
            digest: self.digest.clone(),
        }
    }
}

impl PartialEq for EnumType {
    fn eq(&self, other: &Self) -> (r: bool)
        ensures
            r <==> self.digest@ == other.digest@,
    {
        same_text(self.digest.as_str(), other.digest.as_str())
    }
}

impl vstd::std_specs::cmp::PartialEqSpecImpl for EnumType {
    open spec fn obeys_eq_spec() -> bool {
        true
    }

    open spec fn eq_spec(&self, other: &Self) -> bool {
        self@.same(other@)
    }
}

impl Eq for EnumType {

}

} // verus!
