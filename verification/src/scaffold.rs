//! Creating a package: the directory, the manifest and the entry-point file.
//!
//! Scaffolding alternates work on the file system with decisions about what
//! to do next. The decisions live here, as a [`Scaffold`] that asks for one
//! file operation at a time through [`Scaffold::request`] and is told how it
//! went through [`Scaffold::advance`]. Whoever drives it performs the
//! operations; nothing in this module touches a file.
//!
//! A file that is there is never written over. Before each of its two writes
//! the scaffold asks whether the file exists, and writes only on the answer
//! that it does not. Whether the file could be read plays no part: a manifest
//! that nobody may read is a manifest all the same.

use vstd::prelude::*;
use vstd::string::StringExecFns;

use crate::document::{fresh_manifest, rendered, Document, ENTRY_POINT};
use crate::error::InitError;

verus! {

/// Name of the manifest file.
pub const MANIFEST_FILE: &'static str = "apollo.toml";

/// What a new entry-point file holds: an empty module.
pub const ENTRY_POINT_SOURCE: &'static str = "return {}";

/// Where a scaffold stands: the operation it is waiting on.
#[derive(Debug, Clone, Copy)]
pub enum Stage {
    /// Creating the package directory, which must not exist yet.
    CreateDirectory,
    /// Making sure the package directory, and all above it, exist.
    EnsureDirectory,
    /// Asking whether a manifest is already there.
    ProbeManifest,
    /// Writing the manifest.
    WriteManifest,
    /// Asking whether an entry-point file is already there.
    ProbeEntryPoint,
    /// Writing the entry-point file.
    WriteEntryPoint,
}

/// A file operation that a scaffold asks for.
#[derive(Debug)]
pub enum Request {
    /// Create the directory at `path`; fail if it exists.
    CreateDirectory { path: String },
    /// Create the directory at `path` and any missing parent; succeed if it
    /// exists.
    EnsureDirectory { path: String },
    /// Find out whether anything exists at `path`, readable or not.
    Exists { path: String },
    /// Write `contents` to the file at `path`.
    Write { path: String, contents: String },
}

/// A [`Request`] as plain data.
pub enum RequestView {
    CreateDirectory { path: Seq<char> },
    EnsureDirectory { path: Seq<char> },
    Exists { path: Seq<char> },
    Write { path: Seq<char>, contents: Seq<char> },
}

impl View for Request {
    type V = RequestView;

    open spec fn view(&self) -> RequestView {
        match self {
            Request::CreateDirectory { path } => RequestView::CreateDirectory { path: path@ },
            Request::EnsureDirectory { path } => RequestView::EnsureDirectory { path: path@ },
            Request::Exists { path } => RequestView::Exists { path: path@ },
            Request::Write { path, contents } => RequestView::Write {
                path: path@,
                contents: contents@,
            },
        }
    }
}

/// The answer to a [`Request`].
#[derive(Debug)]
pub enum Reply {
    /// The directory was created, or the file written.
    Done,
    /// Something exists at the path asked about.
    Found,
    /// Nothing exists at the path asked about.
    Missing,
    /// The operation failed, or it could not be found out whether anything
    /// exists at the path.
    Failed(std::io::Error),
}

/// A package being created: what is still to do, where, and the manifest text
/// to write.
#[derive(Debug)]
pub struct Scaffold {
    stage: Stage,
    directory: Option<String>,
    manifest: String,
}

/// A [`Scaffold`] as plain data.
pub struct ScaffoldView {
    pub stage: Stage,
    /// The package directory; `None` for the current directory.
    pub directory: Option<Seq<char>>,
    /// The manifest text to write.
    pub manifest: Seq<char>,
}

impl View for Scaffold {
    type V = ScaffoldView;

    closed spec fn view(&self) -> ScaffoldView {
        ScaffoldView {
            stage: self.stage,
            directory: directory_view(self.directory),
            manifest: self.manifest@,
        }
    }
}

/// How a scaffold goes on once a request has been answered.
#[derive(Debug)]
pub enum Outcome {
    /// More is to do: ask the scaffold for its next request.
    Next(Scaffold),
    /// The package is in place.
    Complete,
    /// The package could not be created. What was done so far stays.
    Failed(InitError),
}

/// An [`Outcome`] as plain data.
pub enum OutcomeView {
    Next(ScaffoldView),
    Complete,
    Failed(InitError),
}

impl View for Outcome {
    type V = OutcomeView;

    open spec fn view(&self) -> OutcomeView {
        match self {
            Outcome::Next(s) => OutcomeView::Next(s@),
            Outcome::Complete => OutcomeView::Complete,
            Outcome::Failed(e) => OutcomeView::Failed(*e),
        }
    }
}

/// A directory path as plain data.
pub open spec fn directory_view(path: Option<String>) -> Option<Seq<char>> {
    match path {
        Some(p) => Some(p@),
        None => None,
    }
}

/// The path of the file called `file` in `directory`, or in the current
/// directory where there is none.
pub open spec fn path_in(directory: Option<Seq<char>>, file: Seq<char>) -> Seq<char> {
    match directory {
        Some(d) => d + "/"@ + file,
        None => file,
    }
}

/// The path a request is about.
pub open spec fn path_of(request: RequestView) -> Seq<char> {
    match request {
        RequestView::CreateDirectory { path } => path,
        RequestView::EnsureDirectory { path } => path,
        RequestView::Exists { path } => path,
        RequestView::Write { path, .. } => path,
    }
}

/// The state in which scaffolding starts: with the directory where one is to
/// be created, else with the question whether a manifest is there.
pub open spec fn initial(name: Seq<char>, directory: Option<Seq<char>>) -> ScaffoldView {
    ScaffoldView {
        stage: if directory is Some {
            Stage::CreateDirectory
        } else {
            Stage::ProbeManifest
        },
        directory,
        manifest: rendered(fresh_manifest(name)),
    }
}

/// The operation a scaffold waits on in a given state.
pub open spec fn request_of(s: ScaffoldView) -> RequestView {
    match s.stage {
        Stage::CreateDirectory => RequestView::CreateDirectory { path: s.directory->0 },
        Stage::EnsureDirectory => RequestView::EnsureDirectory { path: s.directory->0 },
        Stage::ProbeManifest => RequestView::Exists { path: path_in(s.directory, MANIFEST_FILE@) },
        Stage::WriteManifest => RequestView::Write {
            path: path_in(s.directory, MANIFEST_FILE@),
            contents: s.manifest,
        },
        Stage::ProbeEntryPoint => RequestView::Exists {
            path: path_in(s.directory, ENTRY_POINT@),
        },
        Stage::WriteEntryPoint => RequestView::Write {
            path: path_in(s.directory, ENTRY_POINT@),
            contents: ENTRY_POINT_SOURCE@,
        },
    }
}

/// The state `s` at another stage.
pub open spec fn at(s: ScaffoldView, stage: Stage) -> ScaffoldView {
    ScaffoldView { stage, directory: s.directory, manifest: s.manifest }
}

/// What follows once the request of state `s` was answered by `reply`.
///
/// A directory that cannot be created and a file that cannot be written end
/// the work with their cause. A manifest that is found ends it with
/// `AlreadyExists`; one that is missing is written. An entry-point file that
/// is found is left alone; one that is missing is written. Where it cannot be
/// found out whether a file is there, the file is not written and the work
/// ends with the cause, as for a file that cannot be written. A reply that is
/// no answer to the request (`Done` to a question, `Found` or `Missing` to an
/// operation) changes nothing: the request stands.
pub open spec fn step(s: ScaffoldView, reply: Reply) -> OutcomeView {
    match (s.stage, reply) {
        (Stage::CreateDirectory, Reply::Done) => OutcomeView::Next(at(s, Stage::EnsureDirectory)),
        (Stage::CreateDirectory, Reply::Failed(e)) => OutcomeView::Failed(
            InitError::CreatingDirectory(e),
        ),
        (Stage::EnsureDirectory, Reply::Done) => OutcomeView::Next(at(s, Stage::ProbeManifest)),
        (Stage::EnsureDirectory, Reply::Failed(e)) => OutcomeView::Failed(
            InitError::CreatingDirectory(e),
        ),
        (Stage::ProbeManifest, Reply::Found) => OutcomeView::Failed(InitError::AlreadyExists),
        (Stage::ProbeManifest, Reply::Missing) => OutcomeView::Next(at(s, Stage::WriteManifest)),
        (Stage::ProbeManifest, Reply::Failed(e)) => OutcomeView::Failed(InitError::WritingFile(e)),
        (Stage::WriteManifest, Reply::Done) => OutcomeView::Next(at(s, Stage::ProbeEntryPoint)),
        (Stage::WriteManifest, Reply::Failed(e)) => OutcomeView::Failed(InitError::WritingFile(e)),
        (Stage::ProbeEntryPoint, Reply::Found) => OutcomeView::Complete,
        (Stage::ProbeEntryPoint, Reply::Missing) => OutcomeView::Next(
            at(s, Stage::WriteEntryPoint),
        ),
        (Stage::ProbeEntryPoint, Reply::Failed(e)) => OutcomeView::Failed(
            InitError::WritingFile(e),
        ),
        (Stage::WriteEntryPoint, Reply::Done) => OutcomeView::Complete,
        (Stage::WriteEntryPoint, Reply::Failed(e)) => OutcomeView::Failed(
            InitError::WritingFile(e),
        ),
        _ => OutcomeView::Next(s),
    }
}

/// Starts the creation of a package called `name`: in a new directory at
/// `path`, or in the current directory where `path` is `None`. The manifest
/// text is fixed here, before anything is looked at.
pub fn new(name: &str, path: Option<String>) -> (s: Scaffold)
    ensures
        s@ == initial(name@, directory_view(path)),
{
    let manifest = Document::fresh(name).encode();
    let stage = if path.is_some() {
        Stage::CreateDirectory
    } else {
        Stage::ProbeManifest
    };
    Scaffold { stage, directory: path, manifest }
}

impl Scaffold {
    #[verifier::type_invariant]
    spec fn has_its_directory(self) -> bool {
        (self.stage is CreateDirectory || self.stage is EnsureDirectory)
            ==> self.directory is Some
    }

    /// The path of `file` in the package directory.
    fn path_to(&self, file: &str) -> (path: String)
        ensures
            path@ == path_in(self@.directory, file@),
    {
        match &self.directory {
            Some(d) => {
                let mut path = d.clone();
                path.append("/");
                path.append(file);
                path
            },
            None => String::from_str(file),
        }
    }

    /// The package directory, for the stages that work on it.
    fn directory_path(&self) -> (path: String)
        requires
            self@.directory is Some,
        ensures
            path@ == self@.directory->0,
    {
        match &self.directory {
            Some(d) => d.clone(),
            None => unreached(),
        }
    }

    /// The file operation to perform now.
    pub fn request(&self) -> (r: Request)
        ensures
            r@ == request_of(self@),
    {
        proof {
            use_type_invariant(self);
        }
        match self.stage {
            Stage::CreateDirectory => Request::CreateDirectory { path: self.directory_path() },
            Stage::EnsureDirectory => Request::EnsureDirectory { path: self.directory_path() },
            Stage::ProbeManifest => Request::Exists { path: self.path_to(MANIFEST_FILE) },
            Stage::WriteManifest => Request::Write {
                path: self.path_to(MANIFEST_FILE),
                contents: self.manifest.clone(),
            },
            Stage::ProbeEntryPoint => Request::Exists { path: self.path_to(ENTRY_POINT) },
            Stage::WriteEntryPoint => Request::Write {
                path: self.path_to(ENTRY_POINT),
                contents: String::from_str(ENTRY_POINT_SOURCE),
            },
        }
    }

    /// Takes the answer to the current request and decides how to go on.
    pub fn advance(self, reply: Reply) -> (o: Outcome)
        ensures
            o@ == step(self@, reply),
    {
        proof {
            use_type_invariant(&self);
        }
        match self.stage {
            Stage::CreateDirectory => match reply {
                Reply::Done => Outcome::Next(self.moved_to(Stage::EnsureDirectory)),
                Reply::Failed(e) => Outcome::Failed(InitError::CreatingDirectory(e)),
                _ => Outcome::Next(self),
            },
            Stage::EnsureDirectory => match reply {
                Reply::Done => Outcome::Next(self.moved_to(Stage::ProbeManifest)),
                Reply::Failed(e) => Outcome::Failed(InitError::CreatingDirectory(e)),
                _ => Outcome::Next(self),
            },
            Stage::ProbeManifest => match reply {
                Reply::Found => Outcome::Failed(InitError::AlreadyExists),
                Reply::Missing => Outcome::Next(self.moved_to(Stage::WriteManifest)),
                Reply::Failed(e) => Outcome::Failed(InitError::WritingFile(e)),
                Reply::Done => Outcome::Next(self),
            },
            Stage::WriteManifest => match reply {
                Reply::Done => Outcome::Next(self.moved_to(Stage::ProbeEntryPoint)),
                Reply::Failed(e) => Outcome::Failed(InitError::WritingFile(e)),
                _ => Outcome::Next(self),
            },
            Stage::ProbeEntryPoint => match reply {
                Reply::Found => Outcome::Complete,
                Reply::Missing => Outcome::Next(self.moved_to(Stage::WriteEntryPoint)),
                Reply::Failed(e) => Outcome::Failed(InitError::WritingFile(e)),
                Reply::Done => Outcome::Next(self),
            },
            Stage::WriteEntryPoint => match reply {
                Reply::Done => Outcome::Complete,
                Reply::Failed(e) => Outcome::Failed(InitError::WritingFile(e)),
                _ => Outcome::Next(self),
            },
        }
    }

    /// This scaffold at a stage that needs no more than it has.
    fn moved_to(self, stage: Stage) -> (s: Scaffold)
        requires
            (stage is CreateDirectory || stage is EnsureDirectory) ==> self@.directory is Some,
        ensures
            s@ == at(self@, stage),
    {
        Scaffold { stage, directory: self.directory, manifest: self.manifest }
    }
}

/// Where a scaffold that starts in state `s` stands after its requests were
/// answered by `replies` in turn: still at work in some state, or done, with
/// the replies beyond the end of the work left unread.
pub open spec fn run(s: ScaffoldView, replies: Seq<Reply>) -> OutcomeView
    decreases replies.len(),
{
    if replies.len() == 0 {
        OutcomeView::Next(s)
    } else {
        match step(s, replies[0]) {
            OutcomeView::Next(t) => run(t, replies.drop_first()),
            done => done,
        }
    }
}

/// The requests that a scaffold starting in state `s` makes while `replies`
/// answer them in turn, the one it waits on at the end included. The reply
/// at an index, where there is one, answers the request at that index.
pub open spec fn requests(s: ScaffoldView, replies: Seq<Reply>) -> Seq<RequestView>
    decreases replies.len(),
{
    if replies.len() == 0 {
        seq![request_of(s)]
    } else {
        match step(s, replies[0]) {
            OutcomeView::Next(t) => seq![request_of(s)] + requests(t, replies.drop_first()),
            _ => seq![request_of(s)],
        }
    }
}

/// Whether, before the request at `i`, the same path was asked about and
/// answered `Missing`.
pub open spec fn missing_before(asked: Seq<RequestView>, replies: Seq<Reply>, i: int) -> bool {
    exists|j: int|
        0 <= j < i && j < replies.len() && replies[j] is Missing && #[trigger] asked[j] == (
        RequestView::Exists { path: path_of(asked[i]) })
}

/// A manifest that is there is never touched: initialising the current
/// directory where a manifest is found fails with `AlreadyExists` whatever is
/// answered afterwards, and the question whether the manifest exists is the
/// only operation asked for.
pub proof fn lemma_init_keeps_existing_manifest(name: Seq<char>, replies: Seq<Reply>)
    requires
        replies.len() > 0,
        replies[0] is Found,
    ensures
        run(initial(name, None), replies) == OutcomeView::Failed(InitError::AlreadyExists),
        requests(initial(name, None), replies) == seq![
            RequestView::Exists { path: MANIFEST_FILE@ },
        ],
{
}

/// Creating a package where nothing is in the way: with the directory
/// created, no manifest and no entry-point file there, and both writes done,
/// the work completes, having asked in turn for the directory, for the
/// manifest of the package at `apollo.toml` in it, and for an empty module at
/// `init.luna` beside it.
pub proof fn lemma_new_in_an_empty_place(
    name: Seq<char>,
    directory: Seq<char>,
    replies: Seq<Reply>,
)
    requires
        replies.len() == 6,
        replies[0] is Done,
        replies[1] is Done,
        replies[2] is Missing,
        replies[3] is Done,
        replies[4] is Missing,
        replies[5] is Done,
    ensures
        run(initial(name, Some(directory)), replies) == OutcomeView::Complete,
        requests(initial(name, Some(directory)), replies) == seq![
            RequestView::CreateDirectory { path: directory },
            RequestView::EnsureDirectory { path: directory },
            RequestView::Exists { path: directory + "/"@ + MANIFEST_FILE@ },
            RequestView::Write {
                path: directory + "/"@ + MANIFEST_FILE@,
                contents: rendered(fresh_manifest(name)),
            },
            RequestView::Exists { path: directory + "/"@ + ENTRY_POINT@ },
            RequestView::Write {
                path: directory + "/"@ + ENTRY_POINT@,
                contents: ENTRY_POINT_SOURCE@,
            },
        ],
{
    reveal_with_fuel(run, 7);
    reveal_with_fuel(requests, 7);
    let second = replies.drop_first();
    let third = second.drop_first();
    let fourth = third.drop_first();
    let fifth = fourth.drop_first();
    let sixth = fifth.drop_first();
    assert(second[0] == replies[1]);
    assert(third[0] == replies[2]);
    assert(fourth[0] == replies[3]);
    assert(fifth[0] == replies[4]);
    assert(sixth[0] == replies[5]);
}

/// Nothing that is there is written over: whatever the name, the directory
/// and the replies, a run never asks to write to a path of which it was told
/// that something exists there.
pub proof fn lemma_found_is_never_written(
    name: Seq<char>,
    directory: Option<Seq<char>>,
    replies: Seq<Reply>,
)
    ensures
        forall|i: int, j: int|
            #![trigger requests(initial(name, directory), replies)[i], requests(initial(name, directory), replies)[j]]
            0 <= i < replies.len() && i < requests(initial(name, directory), replies).len()
                && requests(initial(name, directory), replies)[i] is Exists && replies[i] is Found
                && 0 <= j < requests(initial(name, directory), replies).len() && requests(
                initial(name, directory),
                replies,
            )[j] is Write ==> path_of(requests(initial(name, directory), replies)[j]) != path_of(
                requests(initial(name, directory), replies)[i],
            ),
{
    let start = initial(name, directory);
    let asked = requests(start, replies);
    assert forall|i: int, j: int|
        0 <= i < replies.len() && i < asked.len() && asked[i] is Exists && replies[i] is Found && 0
            <= j < asked.len() && asked[j] is Write implies path_of(#[trigger] asked[j])
        != path_of(#[trigger] asked[i]) by {
        lemma_found_path_is_not_written(start, replies, i, j);
    }
}

/// Every write is of a file that was missing: whatever the name, the
/// directory and the replies, each write that a run asks for comes after the
/// question whether that file exists, answered `Missing`.
pub proof fn lemma_writes_only_what_was_missing(
    name: Seq<char>,
    directory: Option<Seq<char>>,
    replies: Seq<Reply>,
)
    ensures
        forall|i: int|
            0 <= i < requests(initial(name, directory), replies).len() && (#[trigger] requests(
                initial(name, directory),
                replies,
            )[i]) is Write ==> missing_before(
                requests(initial(name, directory), replies),
                replies,
                i,
            ),
{
    let start = initial(name, directory);
    assert forall|i: int|
        0 <= i < requests(start, replies).len() && (#[trigger] requests(
            start,
            replies,
        )[i]) is Write implies missing_before(requests(start, replies), replies, i) by {
        lemma_write_follows_missing(start, replies, i);
    }
}

/// No run that ends with `AlreadyExists` has written anything: whatever the
/// name, the directory and the replies, such a run has asked for no write at
/// all.
pub proof fn lemma_already_exists_writes_nothing(
    name: Seq<char>,
    directory: Option<Seq<char>>,
    replies: Seq<Reply>,
)
    requires
        run(initial(name, directory), replies) == OutcomeView::Failed(InitError::AlreadyExists),
    ensures
        forall|i: int|
            0 <= i < requests(initial(name, directory), replies).len() ==> !(#[trigger] requests(
                initial(name, directory),
                replies,
            )[i] is Write),
{
    let start = initial(name, directory);
    lemma_quiet_until_probe(start, replies);
}

/// Whether a stage comes before anything has been written.
spec fn before_writing(stage: Stage) -> bool {
    stage is CreateDirectory || stage is EnsureDirectory || stage is ProbeManifest
}

/// The manifest and the entry-point file of one directory are two files.
proof fn lemma_two_files(directory: Option<Seq<char>>)
    ensures
        path_in(directory, MANIFEST_FILE@) != path_in(directory, ENTRY_POINT@),
{
    reveal_strlit("apollo.toml");
    reveal_strlit("init.luna");
    assert(MANIFEST_FILE@.len() != ENTRY_POINT@.len());
    assert(path_in(directory, MANIFEST_FILE@).len() != path_in(directory, ENTRY_POINT@).len());
}

/// Once the manifest is being written, the only question still asked is
/// whether the entry-point file exists, and once that file is being written,
/// none.
proof fn lemma_later_questions(s: ScaffoldView, replies: Seq<Reply>, k: int)
    requires
        !before_writing(s.stage),
        0 <= k < requests(s, replies).len(),
        requests(s, replies)[k] is Exists,
    ensures
        requests(s, replies)[k] == (RequestView::Exists {
            path: path_in(s.directory, ENTRY_POINT@),
        }),
        !(s.stage is WriteEntryPoint),
    decreases replies.len(),
{
    if k > 0 {
        match step(s, replies[0]) {
            OutcomeView::Next(t) => {
                let rest = replies.drop_first();
                assert(requests(s, replies)[k] == requests(t, rest)[k - 1]);
                lemma_later_questions(t, rest, k - 1);
            },
            _ => {},
        }
    }
}

proof fn lemma_found_path_is_not_written(s: ScaffoldView, replies: Seq<Reply>, i: int, j: int)
    requires
        0 <= i < replies.len(),
        i < requests(s, replies).len(),
        requests(s, replies)[i] is Exists,
        replies[i] is Found,
        0 <= j < requests(s, replies).len(),
        requests(s, replies)[j] is Write,
    ensures
        path_of(requests(s, replies)[j]) != path_of(requests(s, replies)[i]),
    decreases replies.len(),
{
    if i > 0 {
        match step(s, replies[0]) {
            OutcomeView::Next(t) => {
                let rest = replies.drop_first();
                assert(requests(s, replies)[i] == requests(t, rest)[i - 1]);
                assert(rest[i - 1] == replies[i]);
                if j > 0 {
                    assert(requests(s, replies)[j] == requests(t, rest)[j - 1]);
                    lemma_found_path_is_not_written(t, rest, i - 1, j - 1);
                } else {
                    lemma_later_questions(s, replies, i);
                    lemma_two_files(s.directory);
                }
            },
            _ => {},
        }
    }
}

proof fn lemma_write_follows_missing(s: ScaffoldView, replies: Seq<Reply>, i: int)
    requires
        0 <= i < requests(s, replies).len(),
        requests(s, replies)[i] is Write,
    ensures
        requests(s, replies)[i] == request_of(s) || missing_before(
            requests(s, replies),
            replies,
            i,
        ),
    decreases replies.len(),
{
    let asked = requests(s, replies);
    if i > 0 {
        match step(s, replies[0]) {
            OutcomeView::Next(t) => {
                let rest = replies.drop_first();
                let later = requests(t, rest);
                assert(asked == seq![request_of(s)] + later);
                assert(asked[i] == later[i - 1]);
                lemma_write_follows_missing(t, rest, i - 1);
                if later[i - 1] == request_of(t) {
                    if t != s {
                        assert(replies[0] is Missing);
                        assert(asked[0] == (RequestView::Exists { path: path_of(asked[i]) }));
                        assert(missing_before(asked, replies, i));
                    }
                } else {
                    let j = choose|j: int|
                        0 <= j < i - 1 && j < rest.len() && rest[j] is Missing && #[trigger] later[j]
                            == (RequestView::Exists { path: path_of(later[i - 1]) });
                    assert(replies[j + 1] == rest[j]);
                    assert(asked[j + 1] == later[j]);
                    assert(missing_before(asked, replies, i));
                }
            },
            _ => {},
        }
    }
}

proof fn lemma_quiet_until_probe(s: ScaffoldView, replies: Seq<Reply>)
    requires
        before_writing(s.stage),
        run(s, replies) == OutcomeView::Failed(InitError::AlreadyExists),
    ensures
        forall|i: int|
            0 <= i < requests(s, replies).len() ==> !(#[trigger] requests(s, replies)[i] is Write),
    decreases replies.len(),
{
    if replies.len() > 0 {
        match step(s, replies[0]) {
            OutcomeView::Next(t) => {
                if before_writing(t.stage) {
                    lemma_quiet_until_probe(t, replies.drop_first());
                } else {
                    lemma_past_probe_never_already_exists(t, replies.drop_first());
                }
            },
            _ => {},
        }
    }
}

proof fn lemma_past_probe_never_already_exists(s: ScaffoldView, replies: Seq<Reply>)
    requires
        !before_writing(s.stage),
    ensures
        run(s, replies) != OutcomeView::Failed(InitError::AlreadyExists),
    decreases replies.len(),
{
    if replies.len() > 0 {
        match step(s, replies[0]) {
            OutcomeView::Next(t) => {
                lemma_past_probe_never_already_exists(t, replies.drop_first());
            },
            _ => {},
        }
    }
}

} // verus!
