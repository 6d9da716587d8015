//! What can go wrong while scaffolding a package or editing its manifest,
//! and how each failure is reported: in one line.

use vstd::prelude::*;
use vstd::string::{StrSliceExecFns, StringExecFns};

verus! {

/// `std::io::Error`, the cause of a failed file operation. Opaque here.
#[verifier::external_type_specification]
#[verifier::external_body]
pub struct ExIoError(std::io::Error);

/// `Display` for `std::io::Error`, through `to_string`. Nothing is promised
/// of the text: for an error of the operating system it is the system's own
/// message, which follows the locale.
#[verifier::external_body]
fn io_error_text(cause: &std::io::Error) -> (text: String) {
    cause.to_string()
}

/// `Display` for `toml::de::Error`, through `to_string`. Nothing is promised
/// of the text.
#[verifier::external_body]
fn parse_error_text(cause: &toml::de::Error) -> (text: String) {
    cause.to_string()
}

/// Whether a character ends a line.
pub open spec fn is_line_break(c: char) -> bool {
    c == '\n' || c == '\r'
}

/// A text without the line breaks it ends with.
pub open spec fn without_final_breaks(text: Seq<char>) -> Seq<char>
    decreases text.len(),
{
    if text.len() > 0 && is_line_break(text.last()) {
        without_final_breaks(text.drop_last())
    } else {
        text
    }
}

/// A text brought onto one line: the line breaks it ends with are dropped,
/// and each of the others becomes a space.
pub open spec fn one_line(text: Seq<char>) -> Seq<char> {
    without_final_breaks(text).map_values(
        |c: char|
            if is_line_break(c) {
                ' '
            } else {
                c
            },
    )
}

/// Whether a text holds no line break.
pub open spec fn is_one_line(text: Seq<char>) -> bool {
    forall|i: int| 0 <= i < text.len() ==> !is_line_break(#[trigger] text[i])
}

/// A text brought onto one line holds no line break.
pub proof fn lemma_one_line_has_no_break(text: Seq<char>)
    ensures
        is_one_line(one_line(text)),
{
}

/// Every report is one line: whatever the failure and the text of its cause,
/// what `describe` and `message` give holds no line break.
pub proof fn lemma_reports_are_one_line(init: InitError, edit: DependencyError, cause: Seq<char>)
    ensures
        is_one_line(init.report(one_line(cause))),
        is_one_line(edit.report(one_line(cause))),
{
    reveal_strlit("package already present");
    reveal_strlit("can not write to the `apollo.toml` file: ");
    reveal_strlit("can not create directory: ");
    reveal_strlit("no package in this directory");
    reveal_strlit("`dependencies` key is not a table");
    lemma_one_line_has_no_break(cause);
    assert(is_one_line("package already present"@));
    assert(is_one_line("can not write to the `apollo.toml` file: "@));
    assert(is_one_line("can not create directory: "@));
    assert(is_one_line("no package in this directory"@));
    assert(is_one_line("`dependencies` key is not a table"@));
}

/// Brings a text onto one line.
fn on_one_line(text: &str) -> (line: String)
    ensures
        line@ == one_line(text@),
{
    let length = text.unicode_len();
    let mut end: usize = length;
    assert(text@.subrange(0, length as int) =~= text@);
    while end > 0 && (text.get_char(end - 1) == '\n' || text.get_char(end - 1) == '\r')
        invariant
            end <= length,
            length == text@.len(),
            without_final_breaks(text@) == without_final_breaks(text@.subrange(0, end as int)),
        decreases end,
    {
        proof {
            let kept = text@.subrange(0, end as int);
            assert(kept.last() == text@[end - 1]);
            assert(kept.drop_last() =~= text@.subrange(0, end - 1));
        }
        end = end - 1;
    }
    let ghost kept = text@.subrange(0, end as int);
    let ghost spaced = |c: char|
        if is_line_break(c) {
            ' '
        } else {
            c
        };
    let mut line = String::new();
    let mut i: usize = 0;
    while i < end
        invariant
            i <= end <= length,
            length == text@.len(),
            kept == text@.subrange(0, end as int),
            spaced == |c: char|
                if is_line_break(c) {
                    ' '
                } else {
                    c
                },
            line@ == kept.subrange(0, i as int).map_values(spaced),
        decreases end - i,
    {
        let c = text.get_char(i);
        if c == '\n' || c == '\r' {
            proof {
                reveal_strlit(" ");
            }
            line.append(" ");
            assert(" "@ =~= seq![' ']);
        } else {
            line.append(text.substring_char(i, i + 1));
            assert(text@.subrange(i as int, i + 1) =~= seq![c]);
        }
        proof {
            let before = kept.subrange(0, i as int);
            let after = kept.subrange(0, i + 1);
            assert(after =~= before.push(kept[i as int]));
            assert(after.map_values(spaced) =~= before.map_values(spaced).push(
                spaced(kept[i as int]),
            ));
            assert(line@ =~= after.map_values(spaced));
        }
        i = i + 1;
    }
    proof {
        assert(kept.subrange(0, end as int) =~= kept);
    }
    line
}

/// Why a package could not be created.
#[derive(Debug)]
pub enum InitError {
    /// A manifest is already there; nothing was written.
    AlreadyExists,
    /// A file could not be written, or it could not be found out whether
    /// the file is already there.
    WritingFile(std::io::Error),
    /// The package directory could not be created.
    CreatingDirectory(std::io::Error),
}

/// Why the dependencies of a manifest could not be edited.
#[derive(Debug)]
pub enum DependencyError {
    /// No manifest could be read.
    NoPackage,
    /// The manifest could not be written back.
    WritingFile(std::io::Error),
    /// The manifest is not well-formed.
    ParsingTOML(toml::de::Error),
    /// The `dependencies` key leads to something that is not a table.
    DependenciesNotTable,
}

impl InitError {
    /// The one-line report of this failure, `cause` being the text of the
    /// underlying error where there is one.
    pub open spec fn report(self, cause: Seq<char>) -> Seq<char> {
        match self {
            InitError::AlreadyExists => "package already present"@,
            InitError::WritingFile(_) => "can not write to the `apollo.toml` file: "@ + cause,
            InitError::CreatingDirectory(_) => "can not create directory: "@ + cause,
        }
    }

    /// Words this failure around the text of its cause, brought onto one
    /// line. A failure without a cause ignores `cause`.
    pub fn describe(&self, cause: &str) -> (msg: String)
        ensures
            msg@ == self.report(one_line(cause@)),
    {
        let cause = on_one_line(cause);
        let cause = cause.as_str();
        match self {
            InitError::AlreadyExists => String::from_str("package already present"),
            InitError::WritingFile(_) => {
                let mut msg = String::from_str("can not write to the `apollo.toml` file: ");
                msg.append(cause);
                msg
            },
            InitError::CreatingDirectory(_) => {
                let mut msg = String::from_str("can not create directory: ");
                msg.append(cause);
                msg
            },
        }
    }

    /// The one-line report of this failure, worded around what the underlying
    /// error says of itself.
    pub fn message(&self) -> (msg: String)
        ensures
            exists|cause: Seq<char>| msg@ == self.report(one_line(cause)),
    {
        let cause = match self {
            InitError::AlreadyExists => String::new(),
            InitError::WritingFile(e) => io_error_text(e),
            InitError::CreatingDirectory(e) => io_error_text(e),
        };
        let msg = self.describe(cause.as_str());
        assert(msg@ == self.report(one_line(cause@)));
        msg
    }
}

impl DependencyError {
    /// The one-line report of this failure, `cause` being the text of the
    /// underlying error where there is one.
    pub open spec fn report(self, cause: Seq<char>) -> Seq<char> {
        match self {
            DependencyError::NoPackage => "no package in this directory"@,
            DependencyError::WritingFile(_) => "can not write to the `apollo.toml` file: "@
                + cause,
            DependencyError::ParsingTOML(_) => cause,
            DependencyError::DependenciesNotTable => "`dependencies` key is not a table"@,
        }
    }

    /// Words this failure around the text of its cause, brought onto one
    /// line. A failure without a cause ignores `cause`.
    pub fn describe(&self, cause: &str) -> (msg: String)
        ensures
            msg@ == self.report(one_line(cause@)),
    {
        let cause = on_one_line(cause);
        let cause = cause.as_str();
        match self {
            DependencyError::NoPackage => String::from_str("no package in this directory"),
            DependencyError::WritingFile(_) => {
                let mut msg = String::from_str("can not write to the `apollo.toml` file: ");
                msg.append(cause);
                msg
            },
            DependencyError::ParsingTOML(_) => String::from_str(cause),
            DependencyError::DependenciesNotTable => String::from_str(
                "`dependencies` key is not a table",
            ),
        }
    }

    /// The one-line report of this failure, worded around what the underlying
    /// error says of itself.
    pub fn message(&self) -> (msg: String)
        ensures
            exists|cause: Seq<char>| msg@ == self.report(one_line(cause)),
    {
        let cause = match self {
            DependencyError::NoPackage => String::new(),
            DependencyError::WritingFile(e) => io_error_text(e),
            DependencyError::ParsingTOML(e) => parse_error_text(e),
            DependencyError::DependenciesNotTable => String::new(),
        };
        let msg = self.describe(cause.as_str());
        assert(msg@ == self.report(one_line(cause@)));
        msg
    }
}

} // verus!
