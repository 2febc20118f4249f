//! Extracting enum types from parsed SQL.
use vstd::prelude::*;

use crate::builder::{BuilderView, DatabaseBuilder, SQLParsingOptions};
use crate::database::{Database, DatabaseView};
use crate::error::{outcome, ErrorView, PGEnumError};
use crate::text::{optional_text, texts};

verus! {

/// A node of a list, such as a part of a qualified name or a value of an enum.
#[derive(Debug, Clone)]
pub enum ListNode {
    /// A string.
    String(String),
    /// An empty node, or a node of any other kind.
    Other,
}

/// The node that a comment is on.
#[derive(Debug, Clone)]
pub enum ObjectNode {
    /// The name of a type, part by part.
    TypeName { names: Vec<ListNode> },
    /// An empty node, or a node of any other kind.
    Other,
}

/// The kind of object that a comment is on.
#[derive(Debug, Clone)]
pub enum ObjectType {
    /// A type, as in `COMMENT ON TYPE`.
    Type,
    /// Any other kind of object.
    Other,
}

/// A statement of parsed SQL, with the parts that tell of enum types.
#[derive(Debug, Clone)]
pub enum Statement {
    /// `CREATE TYPE names AS ENUM (vals)`.
    CreateEnum { names: Vec<ListNode>, vals: Vec<ListNode> },
    /// `COMMENT ON objtype object IS comment`.
    Comment { objtype: ObjectType, object: Option<ObjectNode>, comment: String },
    /// An empty statement, or a statement of any other kind.
    Other,
}

/// The characters of a string node.
pub open spec fn node_text(node: ListNode) -> Option<Seq<char>> {
    match node {
        ListNode::String(s) => Some(s@),
        ListNode::Other => None,
    }
}

/// The characters of the string nodes of a list; other nodes are skipped.
pub open spec fn node_texts(nodes: Seq<ListNode>) -> Seq<Seq<char>>
    decreases nodes.len(),
{
    if nodes.len() == 0 {
        Seq::empty()
    } else {
        match node_text(nodes.last()) {
            Some(s) => node_texts(nodes.drop_last()).push(s),
            None => node_texts(nodes.drop_last()),
        }
    }
}

/// The schema, if one is given, and the name that the parts of a qualified name stand for.
pub open spec fn split_name(parts: Seq<Seq<char>>) -> (Option<Seq<char>>, Seq<char>) {
    if parts.len() == 0 {
        (None, Seq::empty())
    } else if parts.len() == 1 {
        (None, parts[0])
    } else {
        (Some(parts[0]), parts.last())
    }
}

/// The schema of a qualified name, empty if none is given.
pub open spec fn schema_part(nodes: Seq<ListNode>) -> Seq<char> {
    match split_name(node_texts(nodes)).0 {
        Some(schema) => schema,
        None => Seq::empty(),
    }
}

/// The name of a qualified name without its schema.
pub open spec fn name_part(nodes: Seq<ListNode>) -> Seq<char> {
    split_name(node_texts(nodes)).1
}

/// The builder after one more statement.
///
/// A `CREATE TYPE ... AS ENUM` adds an enum, a `COMMENT ON TYPE` sets a comment, and any other
/// statement does nothing.
pub open spec fn apply(builder: BuilderView, statement: Statement) -> Result<
    BuilderView,
    ErrorView,
> {
    match statement {
        Statement::CreateEnum { names, vals } => builder.add_enum(
            schema_part(names@),
            name_part(names@),
            node_texts(vals@),
            None,
        ),
        Statement::Comment {
            objtype: ObjectType::Type,
            object: Some(ObjectNode::TypeName { names }),
            comment,
        } => Ok(builder.set_comment(schema_part(names@), name_part(names@), comment@)),
        _ => Ok(builder),
    }
}

/// The builder after statements one after the other, up to the first that fails.
pub open spec fn apply_all(builder: BuilderView, statements: Seq<Statement>) -> Result<
    BuilderView,
    ErrorView,
>
    decreases statements.len(),
{
    if statements.len() == 0 {
        Ok(builder)
    } else {
        match apply_all(builder, statements.drop_last()) {
            Ok(next) => apply(next, statements.last()),
            Err(e) => Err(e),
        }
    }
}

/// The outcome of extracting the enum types of SQL, given what the parser made of it.
pub open spec fn extract(
    name: Seq<char>,
    parsed: Result<Vec<Statement>, String>,
    default_schema: Seq<char>,
) -> Result<DatabaseView, ErrorView> {
    match parsed {
        Err(message) => Err(ErrorView::SQLParseError(message@)),
        Ok(statements) => {
            let builder = BuilderView { name, enums: Seq::empty(), default_schema };
            match apply_all(builder, statements@) {
                Ok(done) => Ok(DatabaseView { name, enums: done.enums }),
                Err(e) => Err(e),
            }
        },
    }
}

/// The string of a string node.
pub fn node_to_string(node: &ListNode) -> (r: Option<String>)
    ensures
        optional_text(r) == node_text(*node),
{
    match node {
        ListNode::String(s) => Some(s.clone()),
        ListNode::Other => None,
    }
}

/// The strings of the string nodes of a list; other nodes are skipped.
fn nodes_to_strings(nodes: &Vec<ListNode>) -> (r: Vec<String>)
    ensures
        texts(r@) == node_texts(nodes@),
{
    let mut r: Vec<String> = Vec::new();
    let mut i: usize = 0;
    assert(texts(r@) =~= node_texts(nodes@.take(0)));
    while i < nodes.len()
        invariant
            i <= nodes@.len(),
            texts(r@) == node_texts(nodes@.take(i as int)),
        decreases nodes@.len() - i,
    {
        let ghost before = r@;
        assert(nodes@.take(i + 1).drop_last() =~= nodes@.take(i as int));
        if let Some(s) = node_to_string(&nodes[i]) {
            r.push(s);
            assert(texts(r@) =~= texts(before).push(s@));
        }
        i = i + 1;
    }
    assert(nodes@.take(i as int) =~= nodes@);
    r
}

/// Extract schema and type name from a list of name nodes (e.g. `[public, access_management]`).
pub fn extract_type_name(nodes: &Vec<ListNode>) -> (r: (Option<String>, String))
    ensures
        (optional_text(r.0), r.1@) == split_name(node_texts(nodes@)),
        r.0 is Some <==> node_texts(nodes@).len() >= 2,
        r.0 matches Some(schema) ==> schema@ == node_texts(nodes@)[0],
        r.1@ == (if node_texts(nodes@).len() == 0 {
            Seq::empty()
        } else {
            node_texts(nodes@)[node_texts(nodes@).len() - 1]
        }),
{
    let parts = nodes_to_strings(nodes);
    assert(forall|i: int| 0 <= i < parts@.len() ==> texts(parts@)[i] == (#[trigger] parts@[i])@);
    match parts.len() {
        0 => (None, String::new()),
        1 => (None, parts[0].clone()),
        n => (Some(parts[0].clone()), parts[n - 1].clone()),
    }
}

/// Lets a builder take in one statement.
fn apply_statement(builder: &mut DatabaseBuilder, statement: &Statement) -> (r: Result<
    (),
    PGEnumError,
>)
    requires
        old(builder).wf(),
    ensures
        final(builder).wf(),
        match r {
            Ok(()) => apply(old(builder)@, *statement) == Ok::<BuilderView, ErrorView>(
                final(builder)@,
            ),
            Err(e) => apply(old(builder)@, *statement) == Err::<BuilderView, ErrorView>(e@),
        },
{
    match statement {
        Statement::CreateEnum { names, vals } => {
            let (schema, name) = extract_type_name(names);
            let schema_key = schema.unwrap_or_default();
            let values = nodes_to_strings(vals);
            builder.add_enum(schema_key.as_str(), name.as_str(), values, None)
        },
        Statement::Comment {
            objtype: ObjectType::Type,
            object: Some(ObjectNode::TypeName { names }),
            comment,
        } => {
            let (schema, name) = extract_type_name(names);
            let schema_key = schema.unwrap_or_default();
            builder.set_comment(schema_key.as_str(), name.as_str(), comment.as_str());
            Ok(())
        },
        _ => Ok(()),
    }
}

/// A failure among the first statements is the outcome of all.
proof fn lemma_apply_all_of_prefix(builder: BuilderView, statements: Seq<Statement>, n: int)
    requires
        0 <= n <= statements.len(),
        apply_all(builder, statements.take(n)) is Err,
    ensures
        apply_all(builder, statements) == apply_all(builder, statements.take(n)),
    decreases statements.len(),
{
    if n < statements.len() {
        assert(statements.drop_last().take(n) =~= statements.take(n));
        lemma_apply_all_of_prefix(builder, statements.drop_last(), n);
    } else {
        assert(statements.take(n) =~= statements);
    }
}

/// The label and the default schema of a builder stay as they are.
pub proof fn lemma_apply_all_keeps(builder: BuilderView, statements: Seq<Statement>)
    ensures
        apply_all(builder, statements) matches Ok(done) ==> done.name == builder.name
            && done.default_schema == builder.default_schema,
    decreases statements.len(),
{
    if statements.len() > 0 {
        lemma_apply_all_keeps(builder, statements.drop_last());
    }
}

impl Database {
    /// Collect the enum declarations of parsed SQL and their values.
    ///
    /// It uses default parsing options, which can be customized with `from_sql_with_options`.
    pub fn from_sql(name: &str, parsed: Result<Vec<Statement>, String>) -> (r: Result<
        Self,
        PGEnumError,
    >)
        ensures
            outcome(r) == extract(name@, parsed, "public"@),
            r matches Ok(database) ==> database.wf(),
    {
        let options = SQLParsingOptions::default();
        Self::from_sql_with_options(name, parsed, options)
    }

    /// Collect the enum declarations of parsed SQL and their values, with options for parsing.
    ///
    /// `parsed` is what the SQL parser made of the text: its statements, or its error message.
    pub fn from_sql_with_options(
        name: &str,
        parsed: Result<Vec<Statement>, String>,
        options: SQLParsingOptions,
    ) -> (r: Result<Self, PGEnumError>)
        ensures
            outcome(r) == extract(name@, parsed, options.default_schema@),
            r matches Ok(database) ==> database.wf(),
    {
        let statements = match parsed {
            Ok(statements) => statements,
            Err(message) => {
                return Err(PGEnumError::SQLParseError(message));
            },
        };
        let mut builder = DatabaseBuilder::new(name, options);
        let ghost start = builder@;
        let mut i: usize = 0;
        assert(statements@.take(0) =~= Seq::<Statement>::empty());
        while i < statements.len()
            invariant
                i <= statements@.len(),
                builder.wf(),
                apply_all(start, statements@.take(i as int)) == Ok::<BuilderView, ErrorView>(
                    builder@,
                ),
                start == (BuilderView {
                    name: name@,
                    enums: Seq::empty(),
                    default_schema: options.default_schema@,
                }),
                parsed == Ok::<Vec<Statement>, String>(statements),
            decreases statements@.len() - i,
        {
            assert(statements@.take(i + 1).drop_last() =~= statements@.take(i as int));
            if let Err(e) = apply_statement(&mut builder, &statements[i]) {
                proof {
                    lemma_apply_all_of_prefix(start, statements@, i + 1);
                }
                return Err(e);
            }
            i = i + 1;
        }
        proof {
            assert(statements@.take(i as int) =~= statements@);
            lemma_apply_all_keeps(start, statements@);
        }
        Ok(Database::from(builder))
    }

    /// Collect the enum declarations of a SQL file, given what came of reading and parsing it.
    pub fn from_sql_file(
        name: &str,
        read: Result<Result<Vec<Statement>, String>, std::io::Error>,
    ) -> (r: Result<Self, PGEnumError>)
        ensures
            outcome(r) == match read {
                Ok(parsed) => extract(name@, parsed, "public"@),
                Err(e) => Err(ErrorView::IOError(e)),
            },
            r matches Ok(database) ==> database.wf(),
    {
        match read {
            Ok(parsed) => Self::from_sql(name, parsed),
            Err(e) => Err(PGEnumError::IOError(e)),
        }
    }
}

} // verus!
