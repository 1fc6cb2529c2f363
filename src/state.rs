//! States of the upload workflow and the time windows of the log list.
use vstd::prelude::*;

verus! {

#[derive(Debug, Clone, Copy, PartialEq, Eq, Structural)]
pub enum ProcessingState {
    Idle,
    Uploading,
    Processing,
    Complete,
    Failed,
}

#[derive(Debug, Clone, Copy, PartialEq, Eq, Structural)]
pub enum TimeFilter {
    SincePluginStart,
    Last24Hours,
    Last48Hours,
    Last72Hours,
}

} // verus!
