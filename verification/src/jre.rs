//! Which Java runtime an instance needs.
use vstd::prelude::*;

use crate::error::Refusal;
use crate::install::model::Instance;

verus! {

/// The version of Java that is needed where none is named.
pub const DEFAULT_JAVA_VERSION: u32 = 8;

/// What is done next to find the runtime for an instance.
#[derive(Clone, Copy, Debug, PartialEq, Eq, Structural)]
pub enum JreStep {
    /// The description of the version that lies on disk is read; `after_local`
    /// takes what it says.
    ReadLocal,
    /// The description of the version is downloaded; `required_java` takes what
    /// it says.
    Download,
    /// A runtime of this version is looked for.
    Find { major_version: u32 },
}

/// How the runtime for an instance is looked for. One that is directly associated
/// with an external launcher has the description of its version on disk.
pub fn get_optimal_jre_key(instance_id: &String, instance: Option<&Instance>) -> (r: Result<
    JreStep,
    Refusal,
>)
    ensures
        r == match instance {
            Some(instance) => if instance.direct_linked {
                Ok::<JreStep, Refusal>(JreStep::ReadLocal)
            } else {
                Ok::<JreStep, Refusal>(JreStep::Download)
            },
            None => Err(Refusal::UnresolvedInstance(*instance_id)),
        },
{
    match instance {
        Some(instance) => if instance.is_direct_linked() {
            Ok(JreStep::ReadLocal)
        } else {
            Ok(JreStep::Download)
        },
        None => Err(Refusal::UnresolvedInstance(instance_id.clone())),
    }
}

/// The version of Java that the description of a version asks for.
pub open spec fn java_version(named: Option<u32>) -> u32 {
    match named {
        Some(version) => version,
        None => DEFAULT_JAVA_VERSION,
    }
}

/// Takes the version of Java that the description of the version names, if any.
pub fn required_java(named: Option<u32>) -> (r: JreStep)
    ensures
        r == (JreStep::Find { major_version: java_version(named) }),
        named is None ==> r == (JreStep::Find { major_version: 8 }),
{
    let major_version = match named {
        Some(version) => version,
        None => DEFAULT_JAVA_VERSION,
    };
    JreStep::Find { major_version }
}

/// Takes what the description on disk says, if it could be read: the version of
/// Java that it names, if any. Without it, the description is downloaded.
pub fn after_local(read: Option<Option<u32>>) -> (r: JreStep)
    ensures
        r == match read {
            Some(named) => JreStep::Find { major_version: java_version(named) },
            None => JreStep::Download,
        },
{
    match read {
        Some(named) => required_java(named),
        None => JreStep::Download,
    }
}

/// A version of the game that names a version of Java gets it, and any other gets Java 8.
pub proof fn law_which_java_is_needed(named: Option<u32>)
    ensures
        named is Some ==> java_version(named) == named->0,
        named is None ==> java_version(named) == 8,
{
}

} // verus!
