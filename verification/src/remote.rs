//! Remote entry snapshots as listing and info calls produce them:
//! immutable, superseded by re-fetch, never mutated in place.

use vstd::prelude::*;

verus! {

/// Whether a remote entry is a file or a folder.
#[derive(Clone, Copy, PartialEq, Eq, Structural, Debug)]
pub enum RemoteEntryType {
    File,
    Folder,
}

/// A remote file or folder snapshot.
pub struct RemoteEntry {
    /// Stable id
    pub id: String,
    /// Remote URI
    pub path: String,
    /// Display name
    pub name: String,
    /// File or folder
    pub entry_type: RemoteEntryType,
    /// Size in bytes
    pub size: u64,
    /// Creation timestamp (seconds since the epoch)
    pub created_at: i64,
    /// Last-update timestamp
    pub updated_at: i64,
    /// Primary-content identifier (entity tag surrogate)
    pub primary_entity: Option<String>,
    /// Permission string
    pub permission: Option<String>,
    /// Whether the entry is shared
    pub shared: bool,
    /// Free-form metadata map
    pub metadata: Vec<(String, String)>,
}

/// The metadata key that marks a share-redirect entry.
fn share_redirect_key() -> (r: String)
    ensures
        r@ == "sys:shared_redirect"@,
{
    "sys:shared_redirect".to_owned()
}

/// Does the metadata map carry this key?
pub open spec fn spec_has_metadata_key(
    metadata: Seq<(String, String)>,
    key: Seq<char>,
) -> bool {
    exists|i: int| 0 <= i < metadata.len() && (#[trigger] metadata[i]).0@ == key
}

/// A remote entry standing for a shared-item redirect rather than real
/// content: it carries the share-redirect metadata key.
pub fn is_symbolic_link(file: &RemoteEntry) -> (r: bool)
    ensures
        r == spec_has_metadata_key(file.metadata@, "sys:shared_redirect"@),
{
    let key = share_redirect_key();
    let mut i: usize = 0;
    while i < file.metadata.len()
        invariant
            i <= file.metadata@.len(),
            key@ == "sys:shared_redirect"@,
            forall|j: int| 0 <= j < i ==> (#[trigger] file.metadata@[j]).0@ != key@,
        decreases file.metadata@.len() - i,
    {
        if file.metadata[i].0.eq(&key) {
            return true;
        }
        i = i + 1;
    }
    false
}

/// Pair each target remote path with the first listed entry that
/// carries it.  Listing pages are matched as they arrive; a target with
/// no entry is reported missing, and the caller logs it and goes on.
pub fn match_remote_entries(files: &Vec<RemoteEntry>, targets: &Vec<String>)
    -> (r: Vec<Option<usize>>)
    ensures
        r@.len() == targets@.len(),
        forall|k: int| 0 <= k < targets@.len() ==> match #[trigger] r@[k] {
            Option::Some(i) => i < files@.len()
                && files@[i as int].path@ == targets@[k]@
                && forall|j: int| 0 <= j < i ==> (#[trigger] files@[j]).path@ != targets@[k]@,
            Option::None =>
                forall|j: int| 0 <= j < files@.len()
                    ==> (#[trigger] files@[j]).path@ != targets@[k]@,
        },
{
    let mut r: Vec<Option<usize>> = Vec::new();
    let mut k: usize = 0;
    while k < targets.len()
        invariant
            k <= targets@.len(),
            r@.len() == k,
            forall|t: int| 0 <= t < k ==> match #[trigger] r@[t] {
                Option::Some(i) => i < files@.len()
                    && files@[i as int].path@ == targets@[t]@
                    && forall|j: int| 0 <= j < i
                        ==> (#[trigger] files@[j]).path@ != targets@[t]@,
                Option::None =>
                    forall|j: int| 0 <= j < files@.len()
                        ==> (#[trigger] files@[j]).path@ != targets@[t]@,
            },
        decreases targets@.len() - k,
    {
        let target = &targets[k];
        let mut found: Option<usize> = None;
        let mut i: usize = 0;
        while i < files.len() && found.is_none()
            invariant
                i <= files@.len(),
                match found {
                    Option::Some(f) => f == i && i < files@.len()
                        && files@[f as int].path@ == target@
                        && forall|j: int| 0 <= j < f
                            ==> (#[trigger] files@[j]).path@ != target@,
                    Option::None =>
                        forall|j: int| 0 <= j < i
                            ==> (#[trigger] files@[j]).path@ != target@,
                },
            decreases files@.len() - i + (if found is None { 1int } else { 0int }),
        {
            if files[i].path.eq(target) {
                found = Some(i);
            } else {
                i = i + 1;
            }
        }
        r.push(found);
        k = k + 1;
    }
    r
}

} // verus!
