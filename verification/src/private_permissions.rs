//! Which files and directories may hold private data.

use vstd::prelude::*;
#[allow(unused_imports)]
use vstd::string::StringExecFns;

verus! {

pub const FILE_ATTRIBUTE_DIRECTORY: u32 = 0x10;

pub const FILE_ATTRIBUTE_REPARSE_POINT: u32 = 0x400;

/// The error of a system call that says that there is no such entry.
pub const NO_SUCH_ENTRY: i32 = 2;

#[derive(Debug, Clone, Copy, PartialEq, Eq, Structural)]
pub enum WindowsPrivatePathKind {
    Directory,
    File,
}

/// Why a path may not hold private data.
#[derive(Debug, Clone, Copy, PartialEq, Eq, Structural)]
pub enum PrivatePathError {
    InteriorNul,
    ReparsePoint,
    NotADirectory,
    NotAFile,
    ForeignOwner,
    AclUnknown,
}

impl PrivatePathError {
    pub fn message(self) -> (out: &'static str)
        ensures
            out@ == match self {
                PrivatePathError::InteriorNul => {
                    "private app data path contains an interior NUL byte"@
                },
                PrivatePathError::ReparsePoint => {
                    "private app data path must not be a Windows reparse point"@
                },
                PrivatePathError::NotADirectory => "private app data path must be a directory"@,
                PrivatePathError::NotAFile => "private app data path must be a regular file"@,
                PrivatePathError::ForeignOwner => {
                    "private app data path must be owned by the current user"@
                },
                PrivatePathError::AclUnknown => {
                    "failed to inspect macOS ACL on private app data path"@
                },
            },
    {
        match self {
            PrivatePathError::InteriorNul => "private app data path contains an interior NUL byte",
            PrivatePathError::ReparsePoint => {
                "private app data path must not be a Windows reparse point"
            },
            PrivatePathError::NotADirectory => "private app data path must be a directory",
            PrivatePathError::NotAFile => "private app data path must be a regular file",
            PrivatePathError::ForeignOwner => {
                "private app data path must be owned by the current user"
            },
            PrivatePathError::AclUnknown => "failed to inspect macOS ACL on private app data path",
        }
    }
}

/// The path as the system takes it: with a zero at its end, and none before.
pub fn terminated_path(units: &[u16]) -> (out: Result<Vec<u16>, PrivatePathError>)
    ensures
        match out {
            Ok(wide) => !units@.contains(0) && wide@ == units@.push(0),
            Err(e) => units@.contains(0) && e == PrivatePathError::InteriorNul,
        },
{
    let mut wide: Vec<u16> = Vec::new();
    let mut i: usize = 0;
    while i < units.len()
        invariant
            i <= units@.len(),
            wide@ == units@.take(i as int),
            forall|j: int| 0 <= j < i ==> #[trigger] units@[j] != 0,
        decreases units@.len() - i,
    {
        if units[i] == 0 {
            assert(units@.contains(0)) by {
                assert(units@[i as int] == 0);
            }
            return Err(PrivatePathError::InteriorNul);
        }
        wide.push(units[i]);
        assert(units@.take(i + 1) =~= units@.take(i as int).push(units@[i as int]));
        i += 1;
    }
    assert(units@.take(units@.len() as int) =~= units@);
    wide.push(0);
    Ok(wide)
}

/// Whether the attributes of a path are those of a plain file or directory.
pub open spec fn attributes_fault(kind: WindowsPrivatePathKind, attributes: u32) -> Option<
    PrivatePathError,
> {
    let is_dir = attributes & FILE_ATTRIBUTE_DIRECTORY != 0;
    if attributes & FILE_ATTRIBUTE_REPARSE_POINT != 0 {
        Some(PrivatePathError::ReparsePoint)
    } else if kind == WindowsPrivatePathKind::Directory && !is_dir {
        Some(PrivatePathError::NotADirectory)
    } else if kind == WindowsPrivatePathKind::File && is_dir {
        Some(PrivatePathError::NotAFile)
    } else {
        None
    }
}

pub fn reject_windows_reparse_attributes(attributes: u32) -> (out: Result<(), PrivatePathError>)
    ensures
        match out {
            Ok(_) => attributes & FILE_ATTRIBUTE_REPARSE_POINT == 0,
            Err(e) => attributes & FILE_ATTRIBUTE_REPARSE_POINT != 0 && e
                == PrivatePathError::ReparsePoint,
        },
{
    if attributes & FILE_ATTRIBUTE_REPARSE_POINT != 0 {
        Err(PrivatePathError::ReparsePoint)
    } else {
        Ok(())
    }
}

/// What stands against a path: its attributes, then its owner.
pub open spec fn private_path_fault(
    kind: WindowsPrivatePathKind,
    attributes: u32,
    owned: bool,
) -> Option<PrivatePathError> {
    match attributes_fault(kind, attributes) {
        Some(e) => Some(e),
        None => if owned {
            None
        } else {
            Some(PrivatePathError::ForeignOwner)
        },
    }
}

/// `private_path_fault`, computed.
pub fn validate_windows_private_path(
    kind: WindowsPrivatePathKind,
    attributes: u32,
    owner: &[u8],
    current_user: &[u8],
) -> (out: Result<(), PrivatePathError>)
    ensures
        out == match private_path_fault(kind, attributes, same_sid(owner@, current_user@)) {
            Some(e) => Err::<(), PrivatePathError>(e),
            None => Ok(()),
        },
{
    if let Err(error) = reject_windows_reparse_attributes(attributes) {
        return Err(error);
    }
    let is_dir: bool = attributes & FILE_ATTRIBUTE_DIRECTORY != 0;
    match kind {
        WindowsPrivatePathKind::Directory => {
            if !is_dir {
                return Err(PrivatePathError::NotADirectory);
            }
        },
        WindowsPrivatePathKind::File => {
            if is_dir {
                return Err(PrivatePathError::NotAFile);
            }
        },
    }
    if windows_sids_equal(owner, current_user) {
        Ok(())
    } else {
        Err(PrivatePathError::ForeignOwner)
    }
}

/// The same user or group. An identifier without bytes is not valid, and is not the
/// same as any.
pub open spec fn same_sid(left: Seq<u8>, right: Seq<u8>) -> bool {
    left.len() > 0 && left == right
}

/// `same_sid`, computed.
pub fn windows_sids_equal(left: &[u8], right: &[u8]) -> (r: bool)
    ensures
        r == same_sid(left@, right@),
{
    if left.len() == 0 || left.len() != right.len() {
        return false;
    }
    let mut i: usize = 0;
    while i < left.len()
        invariant
            i <= left@.len() == right@.len(),
            forall|j: int| 0 <= j < i ==> left@[j] == right@[j],
        decreases left@.len() - i,
    {
        if left[i] != right[i] {
            return false;
        }
        i += 1;
    }
    assert(left@ =~= right@);
    true
}

/// Whether an owner is the current user.
pub fn windows_private_owner_sid_is_current_user(owner: &[u8], current_user: &[u8]) -> (r: bool)
    ensures
        r == same_sid(owner@, current_user@),
{
    windows_sids_equal(owner, current_user)
}

pub open spec fn inheritance(kind: WindowsPrivatePathKind) -> Seq<char> {
    match kind {
        WindowsPrivatePathKind::Directory => "OICI"@,
        WindowsPrivatePathKind::File => ""@,
    }
}

/// The access list of a private path: full access for the system, for the
/// administrators and for the user, and for nobody else.
pub open spec fn private_sddl(kind: WindowsPrivatePathKind, user_sid: Seq<char>) -> Seq<char> {
    let inherits = inheritance(kind);
    "D:P(A;"@ + inherits + ";FA;;;SY)(A;"@ + inherits + ";FA;;;BA)(A;"@ + inherits + ";FA;;;"@
        + user_sid + ")"@
}

/// `private_sddl`, computed.
pub fn windows_private_sddl(kind: WindowsPrivatePathKind, user_sid: &str) -> (out: String)
    ensures
        out@ == private_sddl(kind, user_sid@),
{
    let inherits: &str = match kind {
        WindowsPrivatePathKind::Directory => "OICI",
        WindowsPrivatePathKind::File => "",
    };
    let mut out: String = "D:P(A;".to_owned();
    out.append(inherits);
    out.append(";FA;;;SY)(A;");
    out.append(inherits);
    out.append(";FA;;;BA)(A;");
    out.append(inherits);
    out.append(";FA;;;");
    out.append(user_sid);
    out.append(")");
    out
}

/// What is known of the access list of a path: its entries, or the error of the
/// query for it.
#[derive(Debug, Clone, Copy, PartialEq, Eq, Structural)]
pub enum AclQuery {
    Listed { has_entries: bool },
    Failed { error: i32 },
}

/// Whether a path has an access list; one that is not there has none.
pub fn path_has_macos_acl(query: AclQuery) -> (out: Result<bool, PrivatePathError>)
    ensures
        match query {
            AclQuery::Listed { has_entries } => out matches Ok(r) && r == has_entries,
            AclQuery::Failed { error } => if error == NO_SUCH_ENTRY {
                out matches Ok(r) && !r
            } else {
                out matches Err(e) && e == PrivatePathError::AclUnknown
            },
        },
{
    match query {
        AclQuery::Listed { has_entries } => Ok(has_entries),
        AclQuery::Failed { error } => {
            if error == NO_SUCH_ENTRY {
                Ok(false)
            } else {
                Err(PrivatePathError::AclUnknown)
            }
        },
    }
}

/// A path is accepted exactly where it is no reparse point, is a directory where a
/// directory is meant and none where a file is, and belongs to the user; the first of
/// these that does not hold is the fault.
pub proof fn law_a_private_path_is_accepted(
    kind: WindowsPrivatePathKind,
    attributes: u32,
    owner: Seq<u8>,
    user: Seq<u8>,
)
    ensures
        ({
            let fault = private_path_fault(kind, attributes, same_sid(owner, user));
            let linked = attributes & 0x400 != 0;
            let directory = attributes & 0x10 != 0;
            &&& fault is None <==> !linked && directory == (kind
                == WindowsPrivatePathKind::Directory) && owner.len() > 0 && owner == user
            &&& linked <==> fault == Some(PrivatePathError::ReparsePoint)
            &&& !linked && !directory && kind == WindowsPrivatePathKind::Directory <==> fault
                == Some(PrivatePathError::NotADirectory)
            &&& !linked && directory && kind == WindowsPrivatePathKind::File <==> fault == Some(
                PrivatePathError::NotAFile,
            )
        }),
{
}

/// Full access for the system, the administrators and the user, and for nobody else: the
/// list is protected, and a directory hands it on to what it holds.
pub proof fn law_who_has_access(user_sid: Seq<char>)
    ensures
        private_sddl(WindowsPrivatePathKind::File, user_sid)
            == "D:P(A;;FA;;;SY)(A;;FA;;;BA)(A;;FA;;;"@ + user_sid + ")"@,
        private_sddl(WindowsPrivatePathKind::Directory, user_sid)
            == "D:P(A;OICI;FA;;;SY)(A;OICI;FA;;;BA)(A;OICI;FA;;;"@ + user_sid + ")"@,
{
    reveal_strlit("D:P(A;;FA;;;SY)(A;;FA;;;BA)(A;;FA;;;");
    reveal_strlit("D:P(A;OICI;FA;;;SY)(A;OICI;FA;;;BA)(A;OICI;FA;;;");
    reveal_strlit("D:P(A;");
    reveal_strlit("OICI");
    reveal_strlit("");
    reveal_strlit(";FA;;;SY)(A;");
    reveal_strlit(";FA;;;BA)(A;");
    reveal_strlit(";FA;;;");
    assert("D:P(A;"@ + ""@ + ";FA;;;SY)(A;"@ + ""@ + ";FA;;;BA)(A;"@ + ""@ + ";FA;;;"@
        =~= "D:P(A;;FA;;;SY)(A;;FA;;;BA)(A;;FA;;;"@);
    assert("D:P(A;"@ + "OICI"@ + ";FA;;;SY)(A;"@ + "OICI"@ + ";FA;;;BA)(A;"@ + "OICI"@ + ";FA;;;"@
        =~= "D:P(A;OICI;FA;;;SY)(A;OICI;FA;;;BA)(A;OICI;FA;;;"@);
}

} // verus!
