//! A markdown editor's core: the converter that runs in a background worker,
//! the worker's request handling, and the editor frame's state machine.

pub mod markdown;

use crate::markdown::MarkdownOutput;
use vstd::prelude::*;

verus! {

/// An event of the application shell: a reply of the conversion worker.
pub enum AppMessage {
    MarkdownWorker(MarkdownOutput),
}

} // verus!
