//! The removal of an instance.
use vstd::prelude::*;

use crate::error::Refusal;
use crate::install::model::Instance;
use crate::paths::{join_path, joined_path};

verus! {

/// One thing that is done to remove an instance.
#[derive(Debug, PartialEq, Eq)]
pub enum RemovalStep {
    /// The watch on where its content lies is released.
    Unwatch { instance_path: String, content_root: String },
    /// Its folder is deleted, if there is one.
    DeleteFolder { path: String },
    /// Its jobs are marked, and announced at the end.
    MarkJobs { instance_id: String },
    DeleteRecord { instance_id: String },
    /// Its settings beside the instances are deleted.
    DeleteConfig { instance_path: String },
    AnnounceJobs,
}

/// What is done to remove an instance, in order. The watch goes first. The folder
/// that is deleted is the launcher's own for the instance, wherever its content
/// lies: files that belong to an external launcher are never touched.
pub fn remove_instance(
    instance: Option<&Instance>,
    content_root: String,
    instances_dir: &str,
    windows: bool,
) -> (r: Result<Vec<RemovalStep>, Refusal>)
    ensures
        match instance {
            None => r == Err::<Vec<RemovalStep>, Refusal>(Refusal::UnknownInstance),
            Some(instance) => {
                &&& r matches Ok(steps)
                &&& steps@.len() == 6
                &&& steps@[0] == (RemovalStep::Unwatch {
                    instance_path: instance.path,
                    content_root,
                })
                &&& steps@[1] matches RemovalStep::DeleteFolder { path }
                &&& path@ == joined_path(instances_dir@, instance.path@, windows)
                &&& steps@[2] == (RemovalStep::MarkJobs { instance_id: instance.id })
                &&& steps@[3] == (RemovalStep::DeleteRecord { instance_id: instance.id })
                &&& steps@[4] == (RemovalStep::DeleteConfig { instance_path: instance.path })
                &&& steps@[5] == RemovalStep::AnnounceJobs
            },
        },
{
    let instance = match instance {
        Some(instance) => instance,
        None => {
            return Err(Refusal::UnknownInstance);
        },
    };
    let mut steps: Vec<RemovalStep> = Vec::new();
    steps.push(RemovalStep::Unwatch { instance_path: instance.path.clone(), content_root });
    steps.push(
        RemovalStep::DeleteFolder {
            path: join_path(instances_dir, instance.path.as_str(), windows),
        },
    );
    steps.push(RemovalStep::MarkJobs { instance_id: instance.id.clone() });
    steps.push(RemovalStep::DeleteRecord { instance_id: instance.id.clone() });
    steps.push(RemovalStep::DeleteConfig { instance_path: instance.path.clone() });
    steps.push(RemovalStep::AnnounceJobs);
    Ok(steps)
}

} // verus!
