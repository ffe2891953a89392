use vstd::prelude::*;
use vstd::string::StrSliceExecFns;

use crate::errors::BottleError;
use crate::naming::file_name_of;
use crate::naming::file_name_spec;
use crate::strutil::ends_with_spec;
use crate::strutil::last_index_of;
use crate::strutil::lemma_last_index_of;
use crate::strutil::rfind_char;
use crate::strutil::str_ends_with;
use crate::strutil::str_eq;

verus! {

/// The four operations the tool can perform on a target, exactly one of which
/// applies to any existing path.
#[derive(Clone, Copy, PartialEq, Eq, Structural, Debug)]
pub enum Action {
    EncryptFile,
    DecryptFile,
    EncryptDir,
    DecryptDir,
}

/// True when the file name carries a final extension equal to `age`: a last
/// `.` that is not the leading character, with exactly `age` after it.
pub open spec fn has_age_extension(name: Seq<char>) -> bool {
    let i = last_index_of(name, '.');
    i > 0 && name.subrange(i + 1, name.len() as int) == "age"@
}

/// Which action an existing target calls for, decided by its kind and name:
/// a directory is encrypted whole; a `.tar.gz.age` file is a directory to
/// decrypt; a file with the `age` extension is a file to decrypt; anything
/// else is a file to encrypt.
pub open spec fn resolve_spec(is_dir: bool, target: Seq<char>) -> Action {
    if is_dir {
        Action::EncryptDir
    } else if ends_with_spec(target, ".tar.gz.age"@) {
        Action::DecryptDir
    } else if has_age_extension(file_name_spec(target)) {
        Action::DecryptFile
    } else {
        Action::EncryptFile
    }
}

/// Classifies an existing target. Total: every pair of a kind and a name maps
/// to exactly one action, and equal inputs always map to the same one.
pub fn resolve_action(is_dir: bool, target: &str) -> (r: Action)
    ensures
        r == resolve_spec(is_dir, target@),
{
    if is_dir {
        return Action::EncryptDir;
    }
    if str_ends_with(target, ".tar.gz.age") {
        return Action::DecryptDir;
    }
    let name = file_name_of(target);
    proof {
        lemma_last_index_of(name@, '.');
    }
    match rfind_char(name, '.') {
        Some(i) => {
            if i > 0 {
                let n = name.unicode_len();
                let ext = name.substring_char(i + 1, n);
                if str_eq(ext, "age") {
                    Action::DecryptFile
                } else {
                    Action::EncryptFile
                }
            } else {
                Action::EncryptFile
            }
        },
        None => Action::EncryptFile,
    }
}

/// Classifies a target that was first checked for existence: a missing target
/// is an error, surfaced before classification.
pub fn resolve(target_exists: bool, is_dir: bool, target: &str) -> (r: Result<Action, BottleError>)
    ensures
        !target_exists ==> r == Err::<Action, BottleError>(BottleError::NotFound),
        target_exists ==> r == Ok::<Action, BottleError>(resolve_spec(is_dir, target@)),
{
    if !target_exists {
        return Err(BottleError::NotFound);
    }
    Ok(resolve_action(is_dir, target))
}

/// Action resolution is total and exhaustive: every existing target maps to
/// one of the four actions, and the mapping is a function of the target's
/// kind and name alone, so the same input always yields the same action.
pub proof fn lemma_resolution_total(is_dir: bool, target: Seq<char>)
    ensures
        resolve_spec(is_dir, target) is EncryptDir || resolve_spec(is_dir, target) is DecryptDir
            || resolve_spec(is_dir, target) is DecryptFile || resolve_spec(is_dir, target)
            is EncryptFile,
{
}

} // verus!
