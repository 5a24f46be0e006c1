//! The check of a host path volume against its declared type.

use vstd::prelude::*;

use crate::text;

verus! {

/// What the check of a host path against its declared type found.
#[derive(Debug, Clone, Copy, PartialEq, Eq, Structural)]
pub enum HostPathCheck {
    /// The path exists, or was created, and matches the declared type.
    Valid,
    /// The path does not exist and was not created.
    Missing,
    /// The path exists and is of another kind.
    WrongKind,
    /// There is no such type.
    UnsupportedType,
}

/// What stands at a path, links not followed.
#[derive(Debug, Clone, Copy, PartialEq, Eq, Structural)]
pub enum FileKind {
    Directory,
    File,
    Socket,
    CharDevice,
    BlockDevice,
    Other,
}

/// What is to be done about a host path.
#[derive(Debug, Clone, Copy, PartialEq, Eq, Structural)]
pub enum HostPathPlan {
    /// Nothing: this is the answer.
    Answer(HostPathCheck),
    /// Create the directory and the missing ones above it.
    CreateDirectory,
    /// Create an empty file, if the directory above it exists.
    CreateFile,
}

/// The kind of file that a declared type asks for.
pub open spec fn wanted_kind(type_: Seq<char>) -> Option<FileKind> {
    if type_ == "Directory"@ || type_ == "DirectoryOrCreate"@ {
        Some(FileKind::Directory)
    } else if type_ == "File"@ || type_ == "FileOrCreate"@ {
        Some(FileKind::File)
    } else if type_ == "Socket"@ {
        Some(FileKind::Socket)
    } else if type_ == "CharDevice"@ {
        Some(FileKind::CharDevice)
    } else if type_ == "BlockDevice"@ {
        Some(FileKind::BlockDevice)
    } else {
        None
    }
}

/// Whether a declared type has a missing path created.
pub open spec fn creates(type_: Seq<char>) -> bool {
    type_ == "DirectoryOrCreate"@ || type_ == "FileOrCreate"@
}

/// Whether a path is checked at all.
pub open spec fn is_checked(type_: Option<&str>) -> bool {
    type_ is Some && type_->0@.len() > 0
}

/// The answer of the check: `seen` is what stands at the path before it,
/// `parent_is_dir` whether the directory above exists, `created` whether
/// creating the path succeeds.
pub open spec fn host_path_answer(
    type_: Option<&str>,
    seen: Option<FileKind>,
    parent_is_dir: bool,
    created: bool,
) -> HostPathCheck {
    if !is_checked(type_) {
        HostPathCheck::Valid
    } else {
        match wanted_kind(type_->0@) {
            None => HostPathCheck::UnsupportedType,
            Some(kind) => match seen {
                Some(k) if k == kind => HostPathCheck::Valid,
                Some(_) => HostPathCheck::WrongKind,
                None => if creates(type_->0@) && created && (kind == FileKind::Directory
                    || parent_is_dir) {
                    HostPathCheck::Valid
                } else {
                    HostPathCheck::Missing
                },
            },
        }
    }
}

fn kind_of_type(type_: &str) -> (r: Option<FileKind>)
    ensures
        r == wanted_kind(type_@),
{
    if text::same_text(type_, "Directory") || text::same_text(type_, "DirectoryOrCreate") {
        Some(FileKind::Directory)
    } else if text::same_text(type_, "File") || text::same_text(type_, "FileOrCreate") {
        Some(FileKind::File)
    } else if text::same_text(type_, "Socket") {
        Some(FileKind::Socket)
    } else if text::same_text(type_, "CharDevice") {
        Some(FileKind::CharDevice)
    } else if text::same_text(type_, "BlockDevice") {
        Some(FileKind::BlockDevice)
    } else {
        None
    }
}

/// What is to be done about a path: either the check is decided, or the path
/// is to be created. Only a missing path of a type that says so is created.
pub fn plan_host_path(type_: Option<&str>, seen: Option<FileKind>) -> (r: HostPathPlan)
    ensures
        match r {
            HostPathPlan::Answer(c) => forall|parent_is_dir: bool, created: bool|
                host_path_answer(type_, seen, parent_is_dir, created) == c,
            HostPathPlan::CreateDirectory => is_checked(type_) && seen is None && type_->0@
                == "DirectoryOrCreate"@,
            HostPathPlan::CreateFile => is_checked(type_) && seen is None && type_->0@
                == "FileOrCreate"@,
        },
        r is Answer <==> !(is_checked(type_) && seen is None && creates(type_->0@)),
{
    proof {
        reveal_strlit("DirectoryOrCreate");
        reveal_strlit("FileOrCreate");
        reveal_strlit("Directory");
        reveal_strlit("File");
    }
    let declared = match type_ {
        None => {
            return HostPathPlan::Answer(HostPathCheck::Valid);
        },
        Some(t) => t,
    };
    if declared.unicode_len() == 0 {
        return HostPathPlan::Answer(HostPathCheck::Valid);
    }
    match kind_of_type(declared) {
        None => HostPathPlan::Answer(HostPathCheck::UnsupportedType),
        Some(kind) => match seen {
            Some(k) => {
                if k == kind {
                    HostPathPlan::Answer(HostPathCheck::Valid)
                } else {
                    HostPathPlan::Answer(HostPathCheck::WrongKind)
                }
            },
            None => {
                if text::same_text(declared, "DirectoryOrCreate") {
                    HostPathPlan::CreateDirectory
                } else if text::same_text(declared, "FileOrCreate") {
                    HostPathPlan::CreateFile
                } else {
                    HostPathPlan::Answer(HostPathCheck::Missing)
                }
            },
        },
    }
}

/// The answer of the check of a host path, given what stood at the path, and
/// for a path that was to be created whether the directory above exists and
/// whether it was created.
pub fn check_host_path_type(
    type_: Option<&str>,
    seen: Option<FileKind>,
    parent_is_dir: bool,
    created: bool,
) -> (r: HostPathCheck)
    ensures
        r == host_path_answer(type_, seen, parent_is_dir, created),
{
    proof {
        reveal_strlit("DirectoryOrCreate");
        reveal_strlit("FileOrCreate");
        reveal_strlit("Directory");
        reveal_strlit("File");
    }
    match plan_host_path(type_, seen) {
        HostPathPlan::Answer(c) => {
            assert(host_path_answer(type_, seen, parent_is_dir, created) == c);
            c
        },
        HostPathPlan::CreateDirectory => {
            if created {
                HostPathCheck::Valid
            } else {
                HostPathCheck::Missing
            }
        },
        HostPathPlan::CreateFile => {
            assert(type_->0@.len() == 12);
            if parent_is_dir && created {
                HostPathCheck::Valid
            } else {
                HostPathCheck::Missing
            }
        },
    }
}

/// On a path that exists, a type that creates and the one that does not give
/// the same answer.
pub proof fn law_create_types_agree_on_existing(
    seen: FileKind,
    parent_is_dir: bool,
    created: bool,
)
    ensures
        host_path_answer(Some("DirectoryOrCreate"), Some(seen), parent_is_dir, created)
            == host_path_answer(Some("Directory"), Some(seen), parent_is_dir, created),
        host_path_answer(Some("FileOrCreate"), Some(seen), parent_is_dir, created)
            == host_path_answer(Some("File"), Some(seen), parent_is_dir, created),
{
    reveal_strlit("DirectoryOrCreate");
    reveal_strlit("FileOrCreate");
    reveal_strlit("Directory");
    reveal_strlit("File");
}

/// Every path passes without a declared type, and none passes with an unknown
/// one.
pub proof fn law_untyped_and_unknown(
    type_: Option<&str>,
    seen: Option<FileKind>,
    parent_is_dir: bool,
    created: bool,
)
    ensures
        !is_checked(type_) ==> host_path_answer(type_, seen, parent_is_dir, created)
            == HostPathCheck::Valid,
        is_checked(type_) && wanted_kind(type_->0@) is None ==> host_path_answer(
            type_,
            seen,
            parent_is_dir,
            created,
        ) == HostPathCheck::UnsupportedType,
{
}

/// A path is valid under a type where what lies there is of the type, and of the
/// wrong kind where it is anything else.
pub proof fn law_kind_must_be_the_one_asked_for(
    type_: &str,
    kind: FileKind,
    seen: FileKind,
    parent_is_dir: bool,
    created: bool,
)
    requires
        (type_@ == "Directory"@ && kind is Directory) || (type_@ == "File"@ && kind is File) || (
        type_@ == "Socket"@ && kind is Socket) || (type_@ == "CharDevice"@ && kind is CharDevice)
            || (type_@ == "BlockDevice"@ && kind is BlockDevice) || (type_@
            == "DirectoryOrCreate"@ && kind is Directory) || (type_@ == "FileOrCreate"@
            && kind is File),
    ensures
        seen == kind ==> host_path_answer(Some(type_), Some(seen), parent_is_dir, created)
            == HostPathCheck::Valid,
        seen != kind ==> host_path_answer(Some(type_), Some(seen), parent_is_dir, created)
            == HostPathCheck::WrongKind,
{
    lemma_types_differ();
}

proof fn lemma_types_differ()
    ensures
        "Directory"@.len() == 9,
        "File"@.len() == 4,
        "Socket"@.len() == 6,
        "CharDevice"@.len() == 10,
        "BlockDevice"@.len() == 11,
        "DirectoryOrCreate"@.len() == 17,
        "FileOrCreate"@.len() == 12,
{
    reveal_strlit("Directory");
    reveal_strlit("File");
    reveal_strlit("Socket");
    reveal_strlit("CharDevice");
    reveal_strlit("BlockDevice");
    reveal_strlit("DirectoryOrCreate");
    reveal_strlit("FileOrCreate");
}

/// Where nothing lies at the path it is missing, unless the type has it made: a
/// directory anywhere, a file in a directory that is there.
pub proof fn law_missing_path_is_made_when_asked_for(type_: &str, parent_is_dir: bool)
    ensures
        type_@ == "DirectoryOrCreate"@ ==> host_path_answer(Some(type_), None, parent_is_dir, true)
            == HostPathCheck::Valid,
        type_@ == "FileOrCreate"@ ==> host_path_answer(Some(type_), None, true, true)
            == HostPathCheck::Valid,
        type_@ == "FileOrCreate"@ ==> host_path_answer(Some(type_), None, false, true)
            == HostPathCheck::Missing,
        type_@ == "DirectoryOrCreate"@ || type_@ == "FileOrCreate"@ ==> host_path_answer(
            Some(type_),
            None,
            parent_is_dir,
            false,
        ) == HostPathCheck::Missing,
        type_@ == "Directory"@ || type_@ == "File"@ || type_@ == "Socket"@ || type_@
            == "CharDevice"@ || type_@ == "BlockDevice"@ ==> host_path_answer(
            Some(type_),
            None,
            parent_is_dir,
            true,
        ) == HostPathCheck::Missing,
{
    lemma_types_differ();
}

/// A path without a type, and one under an empty type, is not looked at; one
/// under a type that nobody knows is refused.
pub proof fn law_type_decides_whether_a_path_is_looked_at(
    type_: &str,
    seen: Option<FileKind>,
    parent_is_dir: bool,
    created: bool,
)
    ensures
        host_path_answer(None, seen, parent_is_dir, created) == HostPathCheck::Valid,
        type_@.len() == 0 ==> host_path_answer(Some(type_), seen, parent_is_dir, created)
            == HostPathCheck::Valid,
        type_@.len() > 0 && type_@ != "Directory"@ && type_@ != "File"@ && type_@ != "Socket"@
            && type_@ != "CharDevice"@ && type_@ != "BlockDevice"@ && type_@
            != "DirectoryOrCreate"@ && type_@ != "FileOrCreate"@ ==> host_path_answer(
            Some(type_),
            seen,
            parent_is_dir,
            created,
        ) == HostPathCheck::UnsupportedType,
{
}

} // verus!
