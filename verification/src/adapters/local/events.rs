//! Upload notifications and what they lead to.

use vstd::prelude::*;

verus! {

/// A notification that a file has arrived in a bucket.
#[derive(Debug, Clone)]
pub enum FileEvent {
    StreamUpload { path: String, bucket: String, metadata: Option<Vec<(String, String)>> },
    NleUpload { path: String, bucket: String, metadata: Option<Vec<(String, String)>> },
}

/// The source key to hand to the orchestrator for `event`, if any.
pub open spec fn source_key_of(event: FileEvent) -> Option<Seq<char>> {
    match event {
        FileEvent::StreamUpload { path, .. } => Some(path@),
        FileEvent::NleUpload { .. } => None,
    }
}

/// The source key to hand to the orchestrator for `event`: the path of a
/// stream upload. Other uploads start no processing.
pub fn handle(event: &FileEvent) -> (key: Option<String>)
    ensures
        key is Some == source_key_of(*event) is Some,
        key is Some ==> key->Some_0@ == source_key_of(*event)->Some_0,
{
    match event {
        FileEvent::StreamUpload { path, .. } => Some(path.clone()),
        FileEvent::NleUpload { .. } => None,
    }
}

} // verus!
