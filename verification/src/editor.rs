//! Editing the dependencies of a manifest, from text to text.
//!
//! Reading the manifest file and writing it back are the caller's part. What
//! was read goes in, `None` standing for a manifest that could not be read;
//! what comes out is the full text to write, or the reason why nothing is to
//! be written.

use vstd::prelude::*;

use crate::document::{
    dependencies, editable, parsed, rendered, with_dependency, without_dependency, Document,
    Node, ANY_VERSION, DEPENDENCIES,
};
use crate::error::DependencyError;

verus! {

/// Lists `name` among the dependencies of a manifest, at any version.
///
/// Succeeds, with the manifest text to write, exactly when there is a
/// manifest, it is well formed, and its `dependencies` key, if it has one,
/// leads to a table. Otherwise the error says which of these failed, in that
/// order, and there is nothing to write.
pub fn add(manifest: Option<&str>, name: &str) -> (r: Result<String, DependencyError>)
    ensures
        match r {
            Ok(text) => {
                &&& manifest matches Some(m)
                &&& parsed(m@) matches Some(doc)
                &&& editable(doc)
                &&& text@ == rendered(with_dependency(doc, name@))
            },
            Err(DependencyError::NoPackage) => manifest is None,
            Err(DependencyError::ParsingTOML(_)) => {
                &&& manifest matches Some(m)
                &&& parsed(m@) is None
            },
            Err(DependencyError::DependenciesNotTable) => {
                &&& manifest matches Some(m)
                &&& parsed(m@) matches Some(doc)
                &&& !editable(doc)
            },
            Err(DependencyError::WritingFile(_)) => false,
        },
{
    let text = match manifest {
        Some(text) => text,
        None => {
            return Err(DependencyError::NoPackage);
        },
    };
    let document = match Document::decode(text) {
        Ok(document) => document,
        Err(cause) => {
            return Err(DependencyError::ParsingTOML(cause));
        },
    };
    match document.add_dependency(name) {
        Ok(document) => Ok(document.encode()),
        Err(e) => Err(e),
    }
}

/// Takes `name` off the dependencies of a manifest. A name that is not listed
/// is no error.
///
/// Succeeds, with the manifest text to write, exactly when there is a
/// manifest, it is well formed, and its `dependencies` key, if it has one,
/// leads to a table. Otherwise the error says which of these failed, in that
/// order, and there is nothing to write.
pub fn remove(manifest: Option<&str>, name: &str) -> (r: Result<String, DependencyError>)
    ensures
        match r {
            Ok(text) => {
                &&& manifest matches Some(m)
                &&& parsed(m@) matches Some(doc)
                &&& editable(doc)
                &&& text@ == rendered(without_dependency(doc, name@))
            },
            Err(DependencyError::NoPackage) => manifest is None,
            Err(DependencyError::ParsingTOML(_)) => {
                &&& manifest matches Some(m)
                &&& parsed(m@) is None
            },
            Err(DependencyError::DependenciesNotTable) => {
                &&& manifest matches Some(m)
                &&& parsed(m@) matches Some(doc)
                &&& !editable(doc)
            },
            Err(DependencyError::WritingFile(_)) => false,
        },
{
    let text = match manifest {
        Some(text) => text,
        None => {
            return Err(DependencyError::NoPackage);
        },
    };
    let document = match Document::decode(text) {
        Ok(document) => document,
        Err(cause) => {
            return Err(DependencyError::ParsingTOML(cause));
        },
    };
    match document.remove_dependency(name) {
        Ok(document) => Ok(document.encode()),
        Err(e) => Err(e),
    }
}

/// Whatever a document held, once a dependency was added or removed its
/// dependencies can be edited again.
pub proof fn lemma_edited_stays_editable(doc: Map<Seq<char>, Node>, name: Seq<char>)
    ensures
        editable(with_dependency(doc, name)),
        editable(without_dependency(doc, name)),
{
}

/// Adding a dependency lists it at any version and leaves every other
/// dependency, and every other section, as it was.
pub proof fn lemma_add_lists_the_dependency(doc: Map<Seq<char>, Node>, name: Seq<char>)
    ensures
        dependencies(with_dependency(doc, name)) == dependencies(doc).insert(
            name,
            Node::Text(ANY_VERSION@),
        ),
        forall|section: Seq<char>|
            section != DEPENDENCIES@ ==> (#[trigger] with_dependency(doc, name).dom().contains(
                section,
            ) <==> doc.dom().contains(section)),
        forall|section: Seq<char>|
            section != DEPENDENCIES@ && doc.dom().contains(section) ==> #[trigger] with_dependency(
                doc,
                name,
            )[section] == doc[section],
{
}

/// Adding is idempotent: a dependency added twice leaves what adding it once
/// leaves, a document with exactly one entry for it, at any version.
pub proof fn lemma_add_is_idempotent(doc: Map<Seq<char>, Node>, name: Seq<char>)
    ensures
        with_dependency(with_dependency(doc, name), name) == with_dependency(doc, name),
        dependencies(with_dependency(with_dependency(doc, name), name)).dom().contains(name),
        dependencies(with_dependency(with_dependency(doc, name), name))[name] == Node::Text(
            ANY_VERSION@,
        ),
{
    let once = with_dependency(doc, name);
    let twice = with_dependency(once, name);
    assert(dependencies(once).insert(name, Node::Text(ANY_VERSION@)) =~= dependencies(once));
    assert(twice =~= once);
}

/// Removing a dependency that is not listed leaves the dependencies as they
/// were; and where the document has its `dependencies` table, the whole
/// document.
pub proof fn lemma_remove_of_unlisted_changes_nothing(doc: Map<Seq<char>, Node>, name: Seq<char>)
    requires
        !dependencies(doc).dom().contains(name),
    ensures
        dependencies(without_dependency(doc, name)) == dependencies(doc),
        doc.dom().contains(DEPENDENCIES@) && editable(doc) ==> without_dependency(doc, name)
            == doc,
{
    assert(dependencies(doc).remove(name) =~= dependencies(doc));
    if doc.dom().contains(DEPENDENCIES@) && editable(doc) {
        assert(without_dependency(doc, name) =~= doc);
    }
}

/// Removing undoes adding: a dependency that was not listed, once added and
/// removed again, leaves the dependencies as they were; and where the
/// document had its `dependencies` table, the whole document.
pub proof fn lemma_remove_undoes_add(doc: Map<Seq<char>, Node>, name: Seq<char>)
    requires
        !dependencies(doc).dom().contains(name),
    ensures
        dependencies(without_dependency(with_dependency(doc, name), name)) == dependencies(doc),
        doc.dom().contains(DEPENDENCIES@) && editable(doc) ==> without_dependency(
            with_dependency(doc, name),
            name,
        ) == doc,
{
    let added = with_dependency(doc, name);
    assert(dependencies(added).remove(name) =~= dependencies(doc));
    if doc.dom().contains(DEPENDENCIES@) && editable(doc) {
        assert(without_dependency(added, name) =~= doc);
    }
}

} // verus!
