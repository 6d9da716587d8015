//! The manifest as a structured document.
//!
//! A [`Document`] holds a `toml::Table`. Verus cannot look inside one, so the
//! contracts speak of a mathematical model of it instead: a map from keys to
//! [`Node`]s. The first part of this file is the trusted boundary with the
//! `toml` crate (the types it hands over, the model, and one small wrapper per
//! function called); everything after it is proved from those contracts.

use vstd::prelude::*;

use crate::error::DependencyError;

verus! {

/// Key of the section that lists the dependencies.
pub const DEPENDENCIES: &'static str = "dependencies";

/// Key of the section that describes the package.
pub const PACKAGE: &'static str = "package";

/// The version requirement written for every dependency: any version.
pub const ANY_VERSION: &'static str = "*";

/// The version a freshly created package starts with.
pub const INITIAL_VERSION: &'static str = "v0.1";

/// The entry-point file a freshly created package names.
pub const ENTRY_POINT: &'static str = "init.luna";

// ---------------------------------------------------------------------------
// Types of the `toml` crate
// ---------------------------------------------------------------------------

/// `toml::map::Map`, the key-ordered map behind `toml::Table`. Opaque here.
#[verifier::external_type_specification]
#[verifier::external_body]
#[verifier::reject_recursive_types(K)]
#[verifier::reject_recursive_types(V)]
pub struct ExTomlMap<K, V>(toml::map::Map<K, V>);

/// `toml::Value`, one value of a table. Opaque here.
#[verifier::external_type_specification]
#[verifier::external_body]
pub struct ExTomlValue(toml::Value);

/// `toml::de::Error`, the parser's account of malformed text. Opaque here.
#[verifier::external_type_specification]
#[verifier::external_body]
pub struct ExTomlParseError(toml::de::Error);

// ---------------------------------------------------------------------------
// The model
// ---------------------------------------------------------------------------

/// What a value of a document is, as far as the manifest rules care.
pub enum Node {
    /// A string.
    Text(Seq<char>),
    /// A table: a map from keys to values. Keys are unique by construction.
    Table(Map<Seq<char>, Node>),
    /// Any other value (number, boolean, date, array), standing for itself
    /// through the text `toml` writes for it.
    Other(Seq<char>),
    /// A value for which `toml` has no text: a date assembled by hand from
    /// fields that are not a date. The parser never yields one.
    Unwritable,
}

/// The contents of a `toml::Table`: for each key it holds, the model of the
/// value stored under that key.
pub uninterp spec fn entries(table: toml::Table) -> Map<Seq<char>, Node>;

/// The model of a single `toml::Value`: `Text` for `Value::String`, `Table`
/// over [`entries`] for `Value::Table`, `Other` or `Unwritable` for the rest.
pub uninterp spec fn node(value: toml::Value) -> Node;

/// What `toml::from_str::<toml::Table>` makes of a text: the contents of the
/// table it returns, or `None` where it reports an error.
pub uninterp spec fn parsed(text: Seq<char>) -> Option<Map<Seq<char>, Node>>;

/// The text that `toml` writes for a table with the given contents.
pub uninterp spec fn rendered(doc: Map<Seq<char>, Node>) -> Seq<char>;

/// The contents of a table that holds nothing.
pub open spec fn no_entries() -> Map<Seq<char>, Node> {
    Map::empty()
}

/// Whether `toml` can write the value: no `Unwritable` anywhere inside it.
pub open spec fn printable(n: Node) -> bool
    decreases n,
{
    match n {
        Node::Text(_) => true,
        Node::Table(m) => forall|k: Seq<char>| #[trigger] m.dom().contains(k) ==> printable(m[k]),
        Node::Other(_) => true,
        Node::Unwritable => false,
    }
}

// ---------------------------------------------------------------------------
// Calls into the `toml` crate
// ---------------------------------------------------------------------------

/// `toml::from_str` at the type `toml::Table`. Trusted: the outcome is a
/// function of the text alone, named by [`parsed`]; and a table that comes out
/// of the parser holds only values that `toml` can write again (its dates were
/// read from text, so they are dates).
#[verifier::external_body]
fn parse(text: &str) -> (r: Result<toml::Table, toml::de::Error>)
    ensures
        match r {
            Ok(table) => parsed(text@) == Some(entries(table)) && printable(
                Node::Table(entries(table)),
            ),
            Err(_) => parsed(text@) is None,
        },
{
    toml::from_str::<toml::Table>(text)
}

/// `Display` for `toml::Table`, through `to_string`. It serialises the table
/// and panics where serialising fails, which for a table happens only on a
/// date that is none; `requires` leaves those out. Trusted: the text is a
/// function of the contents, named by [`rendered`].
#[verifier::external_body]
fn render(table: &toml::Table) -> (text: String)
    requires
        printable(Node::Table(entries(*table))),
    ensures
        text@ == rendered(entries(*table)),
{
    table.to_string()
}

/// `toml::Table::new`. Trusted: the new table holds nothing.
#[verifier::external_body]
fn empty_table() -> (table: toml::Table)
    ensures
        entries(table) == no_entries(),
{
    toml::Table::new()
}

/// `toml::Table::insert`, the value it replaced being dropped. Trusted: the
/// key now leads to the new value, whether or not it was present, and no other
/// entry changes.
#[verifier::external_body]
fn put(table: &mut toml::Table, key: String, value: toml::Value)
    ensures
        entries(*final(table)) == entries(*old(table)).insert(key@, node(value)),
{
    table.insert(key, value);
}

/// `toml::Table::remove`, the value it took out being dropped. Trusted: the
/// key is gone if it was there, and no other entry changes.
#[verifier::external_body]
fn discard(table: &mut toml::Table, key: &str)
    ensures
        entries(*final(table)) == entries(*old(table)).remove(key@),
{
    table.remove(key);
}

/// `toml::Table::get_mut`. Trusted: it finds the value under the key exactly
/// when the key is present, and whatever the caller leaves in that value is
/// what the table then holds under the key; nothing else changes.
#[verifier::external_body]
fn lookup_mut<'a>(table: &'a mut toml::Table, key: &str) -> (r: Option<&'a mut toml::Value>)
    ensures
        match r {
            Some(value) => {
                &&& entries(*old(table)).dom().contains(key@)
                &&& node(*value) == entries(*old(table))[key@]
                &&& entries(*final(table)) == entries(*old(table)).insert(
                    key@,
                    node(*final(value)),
                )
            },
            None => !entries(*old(table)).dom().contains(key@) && *final(table) == *old(table),
        },
{
    table.get_mut(key)
}

/// `toml::Value::as_table_mut`. Trusted: it hands out the table inside the
/// value exactly when the value is a table, and the value stays a table around
/// whatever the caller leaves in it.
#[verifier::external_body]
fn as_table_mut<'a>(value: &'a mut toml::Value) -> (r: Option<&'a mut toml::Table>)
    ensures
        match r {
            Some(table) => {
                &&& node(*old(value)) == Node::Table(entries(*table))
                &&& node(*final(value)) == Node::Table(entries(*final(table)))
            },
            None => !(node(*old(value)) is Table) && *final(value) == *old(value),
        },
{
    value.as_table_mut()
}

/// The variant `toml::Value::String`. Trusted: the value is that string.
#[verifier::external_body]
fn text_value(text: String) -> (value: toml::Value)
    ensures
        node(value) == Node::Text(text@),
{
    toml::Value::String(text)
}

/// The variant `toml::Value::Table`. Trusted: the value is that table.
#[verifier::external_body]
fn table_value(table: toml::Table) -> (value: toml::Value)
    ensures
        node(value) == Node::Table(entries(table)),
{
    toml::Value::Table(table)
}

// ---------------------------------------------------------------------------
// The manifest rules, over the model
// ---------------------------------------------------------------------------

/// The manifest written for a new package called `name`.
pub open spec fn fresh_manifest(name: Seq<char>) -> Map<Seq<char>, Node> {
    map![
        PACKAGE@ => Node::Table(map![
            "name"@ => Node::Text(name),
            "version"@ => Node::Text(INITIAL_VERSION@),
            "lib"@ => Node::Text(ENTRY_POINT@),
        ]),
        DEPENDENCIES@ => Node::Table(Map::empty()),
    ]
}

/// The dependency mapping of a document: what its `dependencies` section
/// holds. A document without that section has no dependencies.
pub open spec fn dependencies(doc: Map<Seq<char>, Node>) -> Map<Seq<char>, Node> {
    if doc.dom().contains(DEPENDENCIES@) {
        match doc[DEPENDENCIES@] {
            Node::Table(m) => m,
            _ => Map::empty(),
        }
    } else {
        Map::empty()
    }
}

/// Whether the dependencies of a document can be edited: its `dependencies`
/// key, if it has one, must lead to a table.
pub open spec fn editable(doc: Map<Seq<char>, Node>) -> bool {
    doc.dom().contains(DEPENDENCIES@) ==> doc[DEPENDENCIES@] is Table
}

/// The document with `name` among its dependencies, at any version. Every
/// other section, and every other dependency, is as before.
pub open spec fn with_dependency(doc: Map<Seq<char>, Node>, name: Seq<char>) -> Map<
    Seq<char>,
    Node,
> {
    doc.insert(
        DEPENDENCIES@,
        Node::Table(dependencies(doc).insert(name, Node::Text(ANY_VERSION@))),
    )
}

/// The document with `name` not among its dependencies. Every other section,
/// and every other dependency, is as before.
pub open spec fn without_dependency(doc: Map<Seq<char>, Node>, name: Seq<char>) -> Map<
    Seq<char>,
    Node,
> {
    doc.insert(DEPENDENCIES@, Node::Table(dependencies(doc).remove(name)))
}

/// What a fresh manifest holds: under `package` the name given, the initial
/// version and the entry point, and nothing else; no dependencies; and no
/// other section.
pub proof fn lemma_fresh_manifest_contents(name: Seq<char>)
    ensures
        fresh_manifest(name).dom() == set![PACKAGE@, DEPENDENCIES@],
        fresh_manifest(name)[PACKAGE@] matches Node::Table(package) && {
            &&& package.dom() == set!["name"@, "version"@, "lib"@]
            &&& package["name"@] == Node::Text(name)
            &&& package["version"@] == Node::Text(INITIAL_VERSION@)
            &&& package["lib"@] == Node::Text(ENTRY_POINT@)
        },
        dependencies(fresh_manifest(name)) == no_entries(),
        editable(fresh_manifest(name)),
        printable(Node::Table(fresh_manifest(name))),
{
    reveal_strlit("package");
    reveal_strlit("dependencies");
    reveal_strlit("name");
    reveal_strlit("version");
    reveal_strlit("lib");
    let fresh = fresh_manifest(name);
    assert("package"@.len() != "dependencies"@.len());
    assert("name"@.len() != "version"@.len());
    assert("name"@.len() != "lib"@.len());
    assert("version"@.len() != "lib"@.len());
    assert(fresh.dom() =~= set![PACKAGE@, DEPENDENCIES@]);
    let package = fresh[PACKAGE@]->Table_0;
    assert(package.dom() =~= set!["name"@, "version"@, "lib"@]);
    lemma_printable_table(no_entries());
    lemma_printable_table(package);
    lemma_printable_table(fresh);
}

/// A table can be written exactly when each of its values can.
proof fn lemma_printable_table(m: Map<Seq<char>, Node>)
    ensures
        printable(Node::Table(m)) <==> (forall|k: Seq<char>| #[trigger]
            m.dom().contains(k) ==> printable(m[k])),
{
    let n = Node::Table(m);
    assert(n->Table_0 == m);
    assert(printable(n) == (forall|k: Seq<char>| #[trigger]
        m.dom().contains(k) ==> printable(m[k])));
}

proof fn lemma_printable_insert(m: Map<Seq<char>, Node>, k: Seq<char>, n: Node)
    requires
        printable(Node::Table(m)),
        printable(n),
    ensures
        printable(Node::Table(m.insert(k, n))),
{
    lemma_printable_table(m);
    lemma_printable_table(m.insert(k, n));
}

proof fn lemma_printable_remove(m: Map<Seq<char>, Node>, k: Seq<char>)
    requires
        printable(Node::Table(m)),
    ensures
        printable(Node::Table(m.remove(k))),
{
    lemma_printable_table(m);
    lemma_printable_table(m.remove(k));
}

// ---------------------------------------------------------------------------
// The document
// ---------------------------------------------------------------------------

/// A manifest in memory: a table of sections, read from text or made afresh,
/// that can always be written back as text.
#[derive(Debug)]
pub struct Document {
    table: toml::Table,
}

impl View for Document {
    type V = Map<Seq<char>, Node>;

    closed spec fn view(&self) -> Map<Seq<char>, Node> {
        entries(self.table)
    }
}

impl Document {
    #[verifier::type_invariant]
    spec fn writable(self) -> bool {
        printable(Node::Table(entries(self.table)))
    }

    /// Reads a document from its text. Fails exactly on the texts that are not
    /// well formed, with the parser's error.
    pub fn decode(text: &str) -> (r: Result<Document, toml::de::Error>)
        ensures
            match r {
                Ok(doc) => parsed(text@) == Some(doc@),
                Err(_) => parsed(text@) is None,
            },
    {
        match parse(text) {
            Ok(table) => Ok(Document { table }),
            Err(e) => Err(e),
        }
    }

    /// Writes the document as text.
    pub fn encode(&self) -> (text: String)
        ensures
            text@ == rendered(self@),
    {
        proof {
            use_type_invariant(self);
        }
        render(&self.table)
    }

    /// The manifest of a new package: a `package` section with its name, the
    /// initial version and the entry point, and no dependencies.
    pub fn fresh(name: &str) -> (doc: Document)
        ensures
            doc@ == fresh_manifest(name@),
    {
        let mut package = empty_table();
        put(&mut package, "name".to_owned(), text_value(name.to_owned()));
        put(&mut package, "version".to_owned(), text_value(INITIAL_VERSION.to_owned()));
        put(&mut package, "lib".to_owned(), text_value(ENTRY_POINT.to_owned()));
        let mut table = empty_table();
        put(&mut table, PACKAGE.to_owned(), table_value(package));
        put(&mut table, DEPENDENCIES.to_owned(), table_value(empty_table()));
        proof {
            lemma_fresh_manifest_contents(name@);
        }
        Document { table }
    }

    /// Lists `name` among the dependencies, at any version, creating the
    /// section if the document has none. An entry already there for `name` is
    /// overwritten. Fails, with `DependenciesNotTable`, exactly when the
    /// `dependencies` key leads to something that is not a table.
    pub fn add_dependency(self, name: &str) -> (r: Result<Document, DependencyError>)
        ensures
            match r {
                Ok(doc) => editable(self@) && doc@ == with_dependency(self@, name@),
                Err(e) => !editable(self@) && e is DependenciesNotTable,
            },
    {
        proof {
            use_type_invariant(&self);
        }
        let ghost before = self@;
        let ghost listed = dependencies(before).insert(name@, Node::Text(ANY_VERSION@));
        let mut table = self.table;
        match lookup_mut(&mut table, DEPENDENCIES) {
            Some(value) => match as_table_mut(value) {
                Some(section) => {
                    put(section, name.to_owned(), text_value(ANY_VERSION.to_owned()));
                },
                None => {
                    return Err(DependencyError::DependenciesNotTable);
                },
            },
            None => {
                let mut section = empty_table();
                put(&mut section, name.to_owned(), text_value(ANY_VERSION.to_owned()));
                put(&mut table, DEPENDENCIES.to_owned(), table_value(section));
            },
        }
        proof {
            lemma_printable_table(before);
            lemma_printable_table(dependencies(before));
            lemma_printable_insert(dependencies(before), name@, Node::Text(ANY_VERSION@));
            lemma_printable_insert(before, DEPENDENCIES@, Node::Table(listed));
            assert(entries(table) =~= with_dependency(before, name@));
        }
        Ok(Document { table })
    }

    /// Takes `name` off the dependencies, creating the section if the document
    /// has none. Where `name` is not listed no dependency changes. Fails, with
    /// `DependenciesNotTable`, exactly when the `dependencies` key leads to
    /// something that is not a table.
    pub fn remove_dependency(self, name: &str) -> (r: Result<Document, DependencyError>)
        ensures
            match r {
                Ok(doc) => editable(self@) && doc@ == without_dependency(self@, name@),
                Err(e) => !editable(self@) && e is DependenciesNotTable,
            },
    {
        proof {
            use_type_invariant(&self);
        }
        let ghost before = self@;
        let ghost listed = dependencies(before).remove(name@);
        let mut table = self.table;
        match lookup_mut(&mut table, DEPENDENCIES) {
            Some(value) => match as_table_mut(value) {
                Some(section) => {
                    discard(section, name);
                },
                None => {
                    return Err(DependencyError::DependenciesNotTable);
                },
            },
            None => {
                put(&mut table, DEPENDENCIES.to_owned(), table_value(empty_table()));
                assert(listed =~= no_entries());
            },
        }
        proof {
            lemma_printable_table(before);
            lemma_printable_table(dependencies(before));
            lemma_printable_remove(dependencies(before), name@);
            lemma_printable_insert(before, DEPENDENCIES@, Node::Table(listed));
            assert(entries(table) =~= without_dependency(before, name@));
        }
        Ok(Document { table })
    }
}

} // verus!
