//! Where the files of an instance lie.
use vstd::prelude::*;

use crate::error::Refusal;
use crate::install::model::Instance;
use crate::text::{trim, trimmed};

verus! {

/// The directory of the files of an instance: the one that the launcher which it
/// is linked to uses, or else the root that is recorded for the link, or else the
/// instance's own.
pub open spec fn game_dir(linked: Option<String>, instance: Instance, managed: String) -> Seq<
    char,
> {
    match linked {
        Some(dir) => dir@,
        None => match instance.linked_dot_minecraft {
            Some(root) => if trimmed(root@).len() > 0 {
                trimmed(root@)
            } else {
                managed@
            },
            None => managed@,
        },
    }
}

/// The directory of the files of an instance. `linked` is the directory that the
/// launcher which it is linked to uses, if that is known; `managed` is the
/// instance's own.
pub fn content_game_dir(linked: Option<String>, instance: &Instance, managed: String) -> (r: String)
    ensures
        r@ == game_dir(linked, *instance, managed),
{
    if let Some(dir) = linked {
        return dir;
    }
    if let Some(root) = &instance.linked_dot_minecraft {
        let root = trim(root.as_str());
        if !root.as_str().is_empty() {
            return root;
        }
    }
    managed
}

/// The directory of the files of an instance in full, given what writing it out
/// gave: the path, or why it cannot be followed.
pub fn instance_content_root(canonical: Result<String, String>) -> (r: Result<String, Refusal>)
    ensures
        r == match canonical {
            Ok(path) => Ok::<String, Refusal>(path),
            Err(error) => Err(Refusal::ContentRootUnavailable(error)),
        },
{
    match canonical {
        Ok(path) => Ok(path),
        Err(error) => Err(Refusal::ContentRootUnavailable(error)),
    }
}

/// What stands before the paths of an instance's files in the names under which
/// their hashes are cached: the directory in full for an instance that is linked
/// directly, and its own path for any other.
pub fn content_scan_cache_key_path(instance: &Instance, canonical: Result<String, String>) -> (r:
    Result<String, Refusal>)
    ensures
        r == if instance.direct_linked {
            match canonical {
                Ok(path) => Ok::<String, Refusal>(path),
                Err(error) => Err(Refusal::ContentRootUnavailable(error)),
            }
        } else {
            Ok::<String, Refusal>(instance.path)
        },
{
    if instance.is_direct_linked() {
        instance_content_root(canonical)
    } else {
        Ok(instance.path.clone())
    }
}

/// Content lies where the instance is linked to, else in the external installation that it
/// names, else in its own folder. A name that is only white space names nothing.
pub proof fn law_where_content_lies(linked: Option<String>, instance: Instance, managed: String)
    ensures
        ({
            let dir = game_dir(linked, instance, managed);
            &&& linked is Some ==> dir == linked->0@
            &&& linked is None && instance.linked_dot_minecraft is None ==> dir == managed@
            &&& linked is None && instance.linked_dot_minecraft is Some ==> {
                let root = trimmed(instance.linked_dot_minecraft->0@);
                &&& root.len() > 0 ==> dir == root
                &&& root.len() == 0 ==> dir == managed@
            }
        }),
{
}

} // verus!
