//! Durable task records and the status values reported to the UI.

use vstd::prelude::*;

verus! {

/// Lifecycle of a durable unit of work.
#[derive(Clone, Copy, PartialEq, Eq, Structural, Debug)]
pub enum TaskStatus {
    Pending,
    Running,
    Completed,
    Failed,
    Cancelled,
}

/// What kind of work a task performs.
#[derive(Clone, Copy, PartialEq, Eq, Structural, Debug)]
pub enum TaskType {
    /// Reconcile a scope of the tree
    Sync,
    /// Upload one file
    Upload,
}

/// Whether a local file's divergence from the remote awaits the user.
#[derive(Clone, Copy, PartialEq, Eq, Structural, Debug)]
pub enum ConflictState {
    /// Local and remote agree
    NoConflict,
    /// A divergence awaits explicit resolution
    Pending,
    /// The user has resolved the divergence
    Resolved,
}

/// A durable unit of work: created when enqueued, transitioned by the
/// engine, retained after completion for history.
pub struct TaskRecord {
    /// Stable task id
    pub id: String,
    /// The drive the work belongs to
    pub drive_id: String,
    /// What kind of work this is
    pub task_type: TaskType,
    /// The local path the work targets
    pub local_path: String,
    /// Where the task stands
    pub status: TaskStatus,
    /// Bytes already processed
    pub bytes_done: u64,
    /// Bytes the task covers in total
    pub bytes_total: u64,
    /// Scheduling priority
    pub priority: i32,
    /// Opaque state the work keeps for itself
    pub custom_state: String,
    /// The failure message of a failed task
    pub error: Option<String>,
    /// When the task was created (seconds since the epoch)
    pub created_at: i64,
    /// When the task last changed
    pub updated_at: i64,
}

impl TaskStatus {
    /// Pending and running tasks are active; the rest are settled.
    pub fn is_active(&self) -> (r: bool)
        ensures
            r == (self is Pending || self is Running),
    {
        match self {
            TaskStatus::Pending => true,
            TaskStatus::Running => true,
            _ => false,
        }
    }
}

/// Is there an active task of this type for this path on this drive?
/// For any local path, at most one active task of a given type may
/// exist; inserting checks here first.
pub fn has_active_duplicate(
    tasks: &Vec<TaskRecord>,
    drive_id: &String,
    task_type: TaskType,
    local_path: &String,
) -> (r: bool)
    ensures
        r == exists|i: int| 0 <= i < tasks@.len()
            && (#[trigger] tasks@[i]).drive_id@ == drive_id@
            && tasks@[i].task_type == task_type
            && tasks@[i].local_path@ == local_path@
            && (tasks@[i].status is Pending || tasks@[i].status is Running),
{
    let mut i: usize = 0;
    while i < tasks.len()
        invariant
            i <= tasks@.len(),
            forall|j: int| 0 <= j < i ==> !((#[trigger] tasks@[j]).drive_id@ == drive_id@
                && tasks@[j].task_type == task_type
                && tasks@[j].local_path@ == local_path@
                && (tasks@[j].status is Pending || tasks@[j].status is Running)),
        decreases tasks@.len() - i,
    {
        let t = &tasks[i];
        if t.drive_id.eq(drive_id) && t.local_path.eq(local_path)
            && task_type_eq(t.task_type, task_type) && t.status.is_active() {
            return true;
        }
        i = i + 1;
    }
    false
}

fn task_type_eq(a: TaskType, b: TaskType) -> (r: bool)
    ensures
        r == (a == b),
{
    match (a, b) {
        (TaskType::Sync, TaskType::Sync) => true,
        (TaskType::Upload, TaskType::Upload) => true,
        _ => false,
    }
}

/// Live byte counters of a running task.
pub struct TaskProgress {
    /// Bytes processed so far
    pub bytes_done: u64,
    /// Bytes the task covers
    pub bytes_total: u64,
}

/// A task record with optional live progress information.
pub struct TaskWithProgress {
    /// The persisted task record
    pub task: TaskRecord,
    /// Live progress for running tasks
    pub live_progress: Option<TaskProgress>,
}

/// Capacity summary for UI display.
pub struct CapacitySummary {
    /// Total capacity in bytes
    pub total: i64,
    /// Used capacity in bytes
    pub used: i64,
    /// Formatted label for display
    pub label: String,
}

/// Sync status for UI display.
#[derive(Clone, Copy, PartialEq, Eq, Structural, Debug)]
pub enum SyncStatus {
    /// All files are in sync
    InSync,
    /// Currently syncing files
    Syncing,
    /// Sync is paused
    Paused,
    /// There was an error during sync
    Error,
}

/// Drive status information for the shell UI.
pub struct DriveStatusUI {
    /// Drive display name
    pub name: String,
    /// Path to the raw (non-ICO) icon image
    pub raw_icon_path: Option<String>,
    /// Capacity summary, when available
    pub capacity: Option<CapacitySummary>,
    /// URL to the user profile page
    pub profile_url: String,
    /// URL to the settings page
    pub settings_url: String,
    /// URL to the storage details page
    pub storage_url: String,
    /// Current sync status
    pub sync_status: SyncStatus,
    /// Number of active tasks
    pub active_task_count: usize,
}

/// The sync status a drive shows given its activity: syncing while
/// active tasks exist, in sync otherwise, error state taking
/// precedence, paused while disabled.
pub fn derive_sync_status(enabled: bool, has_error: bool, active_task_count: usize)
    -> (r: SyncStatus)
    ensures
        !enabled ==> r is Paused,
        enabled && has_error ==> r is Error,
        enabled && !has_error && active_task_count > 0 ==> r is Syncing,
        enabled && !has_error && active_task_count == 0 ==> r is InSync,
{
    if !enabled {
        SyncStatus::Paused
    } else if has_error {
        SyncStatus::Error
    } else if active_task_count > 0 {
        SyncStatus::Syncing
    } else {
        SyncStatus::InSync
    }
}

} // verus!
