//! Path reconciler: given a set of changed local paths, find the right
//! re-sync granularity by walking up to the nearest existing, populated
//! ancestor, and emit one sync command per parent group.
//!
//! Paths are component lists; the filesystem is consulted through a
//! snapshot of the paths probed, so the decision is a function of its
//! inputs.

use vstd::prelude::*;

verus! {

/// Traversal depth of one reconciliation pass.
#[derive(Clone, Copy, PartialEq, Eq, Structural, Debug)]
pub enum SyncMode {
    /// Sync only the provided path entries.
    PathOnly,
    /// Sync the provided path entries and their first-level children.
    PathAndFirstLayer,
    /// Sync the provided path entries and every descendant.
    FullHierarchy,
}

/// What one local path looks like right now: read fresh from the
/// filesystem for every reconciliation pass, never cached.
#[derive(Clone, Copy, PartialEq, Eq, Structural, Debug)]
pub struct LocalFileInfo {
    /// The path exists locally
    pub exists: bool,
    /// It is a directory
    pub is_directory: bool,
    /// It is backed by a placeholder
    pub is_placeholder: bool,
    /// Its children have been materialized at least once
    pub populated: bool,
}

impl LocalFileInfo {
    /// The record of a path that does not exist locally.
    pub fn missing() -> (r: Self)
        ensures
            r == spec_missing(),
    {
        LocalFileInfo { exists: false, is_directory: false, is_placeholder: false, populated: false }
    }
}

/// The info reported for a path that was not probed or does not exist.
pub open spec fn spec_missing() -> LocalFileInfo {
    LocalFileInfo { exists: false, is_directory: false, is_placeholder: false, populated: false }
}

/// The parent of a path: the path without its last component; a path
/// with no components is its own parent.
pub open spec fn spec_parent_of(p: Seq<Seq<char>>) -> Seq<Seq<char>> {
    if p.len() == 0 {
        p
    } else {
        p.drop_last()
    }
}

/// First matching entry wins; unprobed paths read as missing.
pub open spec fn spec_find(
    entries: Seq<(Vec<String>, LocalFileInfo)>,
    key: Seq<Seq<char>>,
) -> LocalFileInfo
    decreases entries.len(),
{
    if entries.len() == 0 {
        spec_missing()
    } else if entries[0].0.deep_view() == key {
        entries[0].1
    } else {
        spec_find(entries.drop_first(), key)
    }
}

/// A snapshot of the local filesystem state for the paths a
/// reconciliation pass probes.
pub struct FsSnapshot {
    /// Probed paths and what was found at each
    pub entries: Vec<(Vec<String>, LocalFileInfo)>,
}

/// Component-wise equality of two paths.
fn path_eq(a: &Vec<String>, b: &Vec<String>) -> (r: bool)
    ensures
        r == (a.deep_view() == b.deep_view()),
{
    if a.len() != b.len() {
        proof {
            assert(a.deep_view().len() == a@.len());
            assert(b.deep_view().len() == b@.len());
        }
        return false;
    }
    let mut i: usize = 0;
    while i < a.len()
        invariant
            a@.len() == b@.len(),
            i <= a@.len(),
            forall|j: int| 0 <= j < i ==> a.deep_view()[j] == b.deep_view()[j],
        decreases a@.len() - i,
    {
        if !a[i].eq(&b[i]) {
            proof {
                assert(a.deep_view()[i as int] == a@[i as int]@);
                assert(b.deep_view()[i as int] == b@[i as int]@);
            }
            return false;
        }
        proof {
            assert(a.deep_view()[i as int] == a@[i as int]@);
            assert(b.deep_view()[i as int] == b@[i as int]@);
        }
        i = i + 1;
    }
    proof {
        assert(a.deep_view() =~= b.deep_view());
    }
    true
}

/// Does the path made of `b`'s first `len` components equal `a`?
fn path_eq_prefix(a: &Vec<String>, b: &Vec<String>, len: usize) -> (r: bool)
    requires
        len <= b@.len(),
    ensures
        r == (a.deep_view() == b.deep_view().take(len as int)),
{
    if a.len() != len {
        proof {
            assert(a.deep_view().len() == a@.len());
            assert(b.deep_view().take(len as int).len() == len);
        }
        return false;
    }
    let mut i: usize = 0;
    while i < len
        invariant
            a@.len() == len <= b@.len(),
            i <= len,
            forall|j: int| 0 <= j < i ==> a.deep_view()[j] == b.deep_view()[j],
        decreases len - i,
    {
        if !a[i].eq(&b[i]) {
            proof {
                assert(a.deep_view()[i as int] == a@[i as int]@);
                assert(b.deep_view()[i as int] == b@[i as int]@);
                assert(b.deep_view().take(len as int)[i as int] == b.deep_view()[i as int]);
            }
            return false;
        }
        proof {
            assert(a.deep_view()[i as int] == a@[i as int]@);
            assert(b.deep_view()[i as int] == b@[i as int]@);
        }
        i = i + 1;
    }
    proof {
        assert(a.deep_view() =~= b.deep_view().take(len as int));
    }
    true
}

impl FsSnapshot {
    /// An empty snapshot: every path reads as missing.
    pub fn new() -> (r: Self)
        ensures
            r.entries@.len() == 0,
    {
        FsSnapshot { entries: Vec::new() }
    }

    /// Record what was found at a path.
    pub fn record(&mut self, path: Vec<String>, info: LocalFileInfo)
        ensures
            final(self).entries@ == old(self).entries@.push((path, info)),
    {
        self.entries.push((path, info));
    }

    /// Look up the prefix of `path` with `len` components.
    pub fn lookup_prefix(&self, path: &Vec<String>, len: usize) -> (r: LocalFileInfo)
        requires
            len <= path@.len(),
        ensures
            r == spec_find(self.entries@, path.deep_view().take(len as int)),
    {
        let ghost key = path.deep_view().take(len as int);
        proof {
            assert(self.entries@.skip(0) =~= self.entries@);
        }
        let mut i: usize = 0;
        while i < self.entries.len()
            invariant
                len <= path@.len(),
                key == path.deep_view().take(len as int),
                i <= self.entries@.len(),
                spec_find(self.entries@, key) == spec_find(self.entries@.skip(i as int), key),
            decreases self.entries@.len() - i,
        {
            let hit = path_eq_prefix(&self.entries[i].0, path, len);
            proof {
                let rest = self.entries@.skip(i as int);
                assert(rest[0] == self.entries@[i as int]);
                assert(rest.drop_first() =~= self.entries@.skip(i + 1));
            }
            if hit {
                return self.entries[i].1;
            }
            i = i + 1;
        }
        proof {
            assert(self.entries@.skip(self.entries@.len() as int).len() == 0);
        }
        LocalFileInfo::missing()
    }
}

/// One reconciliation order: sync these paths this deep.
pub struct SyncCommand {
    /// The paths to reconcile
    pub paths: Vec<Vec<String>>,
    /// How deep to traverse
    pub mode: SyncMode,
}

/// The abstract outcome of a walk: the target is either a single prefix
/// of the group's parent (`use_group` false) or the group's own paths
/// (`use_group` true).
pub open spec fn spec_walk(
    entries: Seq<(Vec<String>, LocalFileInfo)>,
    root_len: int,
    parent: Seq<Seq<char>>,
    group_size: int,
    len: int,
    child: Option<int>,
) -> Option<(Seq<Seq<char>>, SyncMode, bool)>
    decreases len + 1,
{
    if len < root_len || len < 0 {
        None
    } else {
        let info = spec_find(entries, parent.take(len));
        if info.exists {
            if !info.is_placeholder || info.populated {
                match child {
                    Some(cl) => Some((parent.take(cl), SyncMode::PathOnly, false)),
                    None => if group_size > 1 {
                        Some((parent.take(len), SyncMode::PathAndFirstLayer, false))
                    } else {
                        Some((Seq::empty(), SyncMode::PathOnly, true))
                    },
                }
            } else {
                None
            }
        } else if len == 0 {
            None
        } else {
            spec_walk(entries, root_len, parent, group_size, len - 1, Some(len))
        }
    }
}

/// The decision for one parent group: walk up from the parent.  A group
/// whose parent is not under the sync root is skipped.
pub open spec fn spec_reconcile_group(
    entries: Seq<(Vec<String>, LocalFileInfo)>,
    root: Seq<Seq<char>>,
    parent: Seq<Seq<char>>,
    group_size: int,
) -> Option<(Seq<Seq<char>>, SyncMode, bool)> {
    if parent.len() < root.len() || parent.take(root.len() as int) != root {
        None
    } else {
        spec_walk(entries, root.len() as int, parent, group_size, parent.len() as int, None)
    }
}

/// Does a concrete command match an abstract decision for a group with
/// these members?
pub open spec fn decision_matches(
    r: Option<SyncCommand>,
    dec: Option<(Seq<Seq<char>>, SyncMode, bool)>,
    members: Seq<Seq<Seq<char>>>,
) -> bool {
    match r {
        Option::None => dec is None,
        Option::Some(cmd) => match dec {
            Option::None => false,
            Option::Some((target, mode, use_group)) => {
                &&& cmd.mode == mode
                &&& if use_group {
                    cmd.paths.deep_view() == members
                } else {
                    cmd.paths.deep_view() =~= seq![target]
                }
            },
        },
    }
}

/// Idempotence: two reconciliation passes over the same inputs and the
/// same filesystem state reach the same decision — the same mode and
/// the same target paths.
pub proof fn lemma_reconcile_idempotent(
    r1: Option<SyncCommand>,
    r2: Option<SyncCommand>,
    dec: Option<(Seq<Seq<char>>, SyncMode, bool)>,
    members: Seq<Seq<Seq<char>>>,
)
    requires
        decision_matches(r1, dec, members),
        decision_matches(r2, dec, members),
    ensures
        r1 is Some <==> r2 is Some,
        (r1 is Some && r2 is Some)
            ==> (r1->Some_0).mode == (r2->Some_0).mode
                && (r1->Some_0).paths.deep_view() == (r2->Some_0).paths.deep_view(),
{
}

/// Walk up from the group's parent directory to the nearest existing
/// ancestor that is not an unpopulated placeholder, and decide what to
/// sync:
/// - the walk crossed missing directories: sync just the highest missing
///   one (its parent exists), path-only;
/// - several changed paths under an existing parent: sync the parent and
///   its first layer;
/// - one changed path under an existing parent: sync just that path;
/// - the anchor is an unpopulated placeholder, or the walk would leave
///   the sync root: nothing to do.
pub fn reconcile_group(
    fs: &FsSnapshot,
    sync_root: &Vec<String>,
    parent: Vec<String>,
    group: Vec<Vec<String>>,
) -> (r: Option<SyncCommand>)
    ensures
        decision_matches(
            r,
            spec_reconcile_group(
                fs.entries@, sync_root.deep_view(), parent.deep_view(), group@.len() as int),
            group.deep_view(),
        ),
{
    let rootlen = sync_root.len();
    let ghost pv = parent.deep_view();
    let ghost rv = sync_root.deep_view();
    proof {
        assert(pv.len() == parent@.len());
        assert(rv.len() == sync_root@.len());
    }
    if parent.len() < rootlen {
        return None;
    }
    if !path_eq_prefix(sync_root, &parent, rootlen) {
        proof {
            assert(rv != pv.take(rootlen as int));
        }
        return None;
    }
    let mut len: usize = parent.len();
    let mut child: Option<usize> = None;
    loop
        invariant
            pv == parent.deep_view(),
            rv == sync_root.deep_view(),
            rootlen == rv.len(),
            rootlen <= len <= pv.len(),
            pv.take(rootlen as int) == rv,
            match child {
                Option::Some(cl) => len + 1 == cl && cl <= pv.len(),
                Option::None => len == pv.len(),
            },
            spec_reconcile_group(fs.entries@, rv, pv, group@.len() as int)
                == spec_walk(
                    fs.entries@, rootlen as int, pv, group@.len() as int, len as int,
                    match child {
                        Option::Some(cl) => Option::Some(cl as int),
                        Option::None => Option::None,
                    },
                ),
        decreases len,
    {
        let info = fs.lookup_prefix(&parent, len);
        if info.exists {
            if !info.is_placeholder || info.populated {
                match child {
                    Some(cl) => {
                        let mut target = parent;
                        target.truncate(cl);
                        proof {
                            assert(target.deep_view() =~= pv.take(cl as int));
                        }
                        let mut paths: Vec<Vec<String>> = Vec::new();
                        paths.push(target);
                        proof {
                            assert(paths.deep_view() =~= seq![pv.take(cl as int)]);
                        }
                        return Some(SyncCommand { paths, mode: SyncMode::PathOnly });
                    },
                    None => {
                        if group.len() > 1 {
                            let mut target = parent;
                            target.truncate(len);
                            proof {
                                assert(target.deep_view() =~= pv.take(len as int));
                            }
                            let mut paths: Vec<Vec<String>> = Vec::new();
                            paths.push(target);
                            proof {
                                assert(paths.deep_view() =~= seq![pv.take(len as int)]);
                            }
                            return Some(SyncCommand {
                                paths,
                                mode: SyncMode::PathAndFirstLayer,
                            });
                        } else {
                            return Some(SyncCommand { paths: group, mode: SyncMode::PathOnly });
                        }
                    },
                }
            } else {
                return None;
            }
        }
        if len == rootlen {
            proof {
                let e = fs.entries@;
                let gs = group@.len() as int;
                if len > 0 {
                    assert(spec_walk(e, rootlen as int, pv, gs, len as int - 1,
                        Option::Some(len as int)) is None);
                }
            }
            return None;
        }
        child = Some(len);
        len = len - 1;
    }
}

/// The walk passes over missing levels without changing the outcome:
/// when every level in `(a, len]` is missing, deciding from depth `len`
/// is deciding from depth `a` with the level above `a` remembered as
/// the child to resync.
proof fn lemma_walk_skips_missing(
    entries: Seq<(Vec<String>, LocalFileInfo)>,
    root_len: int,
    parent: Seq<Seq<char>>,
    group_size: int,
    len: int,
    a: int,
    child: Option<int>,
)
    requires
        root_len <= a < len <= parent.len(),
        forall|l: int| a < l <= len ==> !spec_find(entries, parent.take(l)).exists,
    ensures
        spec_walk(entries, root_len, parent, group_size, len, child)
            == spec_walk(entries, root_len, parent, group_size, a, Some(a + 1)),
    decreases len - a,
{
    assert(!spec_find(entries, parent.take(len)).exists);
    if len - 1 > a {
        lemma_walk_skips_missing(entries, root_len, parent, group_size, len - 1, a, Some(len));
    }
}

/// The intermediate-child rule at any depth: when the group's parent is
/// under the sync root, every level strictly above some ancestor is
/// missing, and that ancestor exists and is no unpopulated placeholder,
/// the decision is path-only on the topmost missing level — the
/// ancestor's direct child — whatever the group size.
pub proof fn lemma_walk_intermediate_child(
    entries: Seq<(Vec<String>, LocalFileInfo)>,
    root: Seq<Seq<char>>,
    parent: Seq<Seq<char>>,
    group_size: int,
    a: int,
)
    requires
        root.len() <= a < parent.len(),
        parent.take(root.len() as int) == root,
        forall|l: int| a < l <= parent.len()
            ==> !spec_find(entries, #[trigger] parent.take(l)).exists,
        spec_find(entries, parent.take(a)).exists,
        !spec_find(entries, parent.take(a)).is_placeholder
            || spec_find(entries, parent.take(a)).populated,
    ensures
        spec_reconcile_group(entries, root, parent, group_size)
            == Some((parent.take(a + 1), SyncMode::PathOnly, false)),
{
    lemma_walk_skips_missing(
        entries, root.len() as int, parent, group_size, parent.len() as int, a, None,
    );
}

/// The anchor-at-parent rule: when the group's parent itself exists
/// under the sync root and is no unpopulated placeholder, a group of
/// several paths resyncs the parent with its first layer, and a single
/// path is resynced by itself.
pub proof fn lemma_walk_anchor_at_parent(
    entries: Seq<(Vec<String>, LocalFileInfo)>,
    root: Seq<Seq<char>>,
    parent: Seq<Seq<char>>,
    group_size: int,
)
    requires
        root.len() <= parent.len(),
        parent.take(root.len() as int) == root,
        spec_find(entries, parent.take(parent.len() as int)).exists,
        !spec_find(entries, parent.take(parent.len() as int)).is_placeholder
            || spec_find(entries, parent.take(parent.len() as int)).populated,
    ensures
        group_size > 1 ==> spec_reconcile_group(entries, root, parent, group_size)
            == Some((parent.take(parent.len() as int), SyncMode::PathAndFirstLayer, false)),
        group_size <= 1 ==> spec_reconcile_group(entries, root, parent, group_size)
            == Some((Seq::<Seq<char>>::empty(), SyncMode::PathOnly, true)),
{
}

/// A parent directory with the changed paths grouped under it.
pub type GroupView = (Seq<Seq<char>>, Seq<Seq<Seq<char>>>);

/// Add one path to the groups: into the first group with its parent, or
/// a new group at the end.
pub open spec fn add_to_groups(groups: Seq<GroupView>, p: Seq<Seq<char>>) -> Seq<GroupView>
    decreases groups.len(),
{
    if groups.len() == 0 {
        seq![(spec_parent_of(p), seq![p])]
    } else if groups[0].0 == spec_parent_of(p) {
        seq![(groups[0].0, groups[0].1.push(p))] + groups.drop_first()
    } else {
        seq![groups[0]] + add_to_groups(groups.drop_first(), p)
    }
}

/// The changed paths grouped by parent directory, in first-seen order.
pub open spec fn spec_group_by_parent(paths: Seq<Seq<Seq<char>>>) -> Seq<GroupView>
    decreases paths.len(),
{
    if paths.len() == 0 {
        Seq::empty()
    } else {
        add_to_groups(spec_group_by_parent(paths.drop_last()), paths.last())
    }
}

proof fn lemma_add_existing(groups: Seq<GroupView>, p: Seq<Seq<char>>, j: int)
    requires
        0 <= j < groups.len(),
        groups[j].0 == spec_parent_of(p),
        forall|k: int| 0 <= k < j ==> groups[k].0 != spec_parent_of(p),
    ensures
        add_to_groups(groups, p)
            =~= groups.update(j, (groups[j].0, groups[j].1.push(p))),
    decreases groups.len(),
{
    if j == 0 {
        assert(add_to_groups(groups, p)
            =~= groups.update(0, (groups[0].0, groups[0].1.push(p))));
    } else {
        assert(groups[0].0 != spec_parent_of(p));
        let d = groups.drop_first();
        assert(forall|k: int| 0 <= k < j - 1 ==> d[k] == groups[k + 1]);
        lemma_add_existing(d, p, j - 1);
        assert(add_to_groups(groups, p)
            =~= groups.update(j, (groups[j].0, groups[j].1.push(p))));
    }
}

proof fn lemma_add_new(groups: Seq<GroupView>, p: Seq<Seq<char>>)
    requires
        forall|k: int| 0 <= k < groups.len() ==> groups[k].0 != spec_parent_of(p),
    ensures
        add_to_groups(groups, p) =~= groups.push((spec_parent_of(p), seq![p])),
    decreases groups.len(),
{
    if groups.len() > 0 {
        lemma_add_new(groups.drop_first(), p);
        assert(add_to_groups(groups, p) =~= groups.push((spec_parent_of(p), seq![p])));
    } else {
        assert(add_to_groups(groups, p) =~= groups.push((spec_parent_of(p), seq![p])));
    }
}

/// Grouping is sound: the groups carry distinct parents, each group is
/// nonempty and holds only paths with that parent, and every changed
/// path lands in some group.  With one decision per group, this is what
/// makes reconciliation emit exactly one command per distinct parent
/// group.
pub proof fn lemma_group_by_parent_sound(paths: Seq<Seq<Seq<char>>>)
    ensures
        ({
            let groups = spec_group_by_parent(paths);
            &&& forall|a: int, b: int| 0 <= a < b < groups.len()
                ==> groups[a].0 != groups[b].0
            &&& forall|j: int| 0 <= j < groups.len()
                ==> (#[trigger] groups[j].1).len() > 0
            &&& forall|j: int, m: int| 0 <= j < groups.len()
                    && 0 <= m < groups[j].1.len()
                ==> spec_parent_of(#[trigger] groups[j].1[m]) == groups[j].0
            &&& forall|i: int| #![trigger paths[i]] 0 <= i < paths.len()
                ==> exists|j: int| 0 <= j < groups.len()
                    && (#[trigger] groups[j].1).contains(paths[i])
        }),
    decreases paths.len(),
{
    if paths.len() > 0 {
        let prev = spec_group_by_parent(paths.drop_last());
        let p = paths.last();
        let groups = spec_group_by_parent(paths);
        lemma_group_by_parent_sound(paths.drop_last());
        if exists|j: int| 0 <= j < prev.len() && prev[j].0 == spec_parent_of(p) {
            let j = choose|j: int| 0 <= j < prev.len() && prev[j].0 == spec_parent_of(p);
            // The first match is the only one, parents being distinct.
            assert(forall|k: int| 0 <= k < j ==> prev[k].0 != spec_parent_of(p));
            lemma_add_existing(prev, p, j);
            assert(groups =~= prev.update(j, (prev[j].0, prev[j].1.push(p))));
            assert forall|i: int| #![trigger paths[i]] 0 <= i < paths.len()
                implies exists|jj: int| 0 <= jj < groups.len()
                    && (#[trigger] groups[jj].1).contains(paths[i]) by {
                if i < paths.len() - 1 {
                    let jj = choose|jj: int| 0 <= jj < prev.len()
                        && (#[trigger] prev[jj].1).contains(paths.drop_last()[i]);
                    if jj == j {
                        assert(prev[j].1.contains(paths[i]));
                        let m = choose|m: int| 0 <= m < prev[j].1.len()
                            && prev[j].1[m] == paths[i];
                        assert(groups[j].1[m] == paths[i]);
                        assert(groups[j].1.contains(paths[i]));
                    } else {
                        assert(groups[jj].1.contains(paths[i]));
                    }
                } else {
                    assert(groups[j].1.last() == p);
                    assert(groups[j].1.contains(paths[i]));
                }
            }
        } else {
            lemma_add_new(prev, p);
            assert(groups =~= prev.push((spec_parent_of(p), seq![p])));
            assert forall|i: int| #![trigger paths[i]] 0 <= i < paths.len()
                implies exists|jj: int| 0 <= jj < groups.len()
                    && (#[trigger] groups[jj].1).contains(paths[i]) by {
                if i < paths.len() - 1 {
                    let jj = choose|jj: int| 0 <= jj < prev.len()
                        && (#[trigger] prev[jj].1).contains(paths.drop_last()[i]);
                    assert(groups[jj].1.contains(paths[i]));
                } else {
                    assert(groups[groups.len() - 1].1[0] == p);
                    assert(groups[groups.len() - 1].1.contains(paths[i]));
                }
            }
        }
    }
}

/// Byte-for-byte copy of a path.
pub(crate) fn clone_path(p: &Vec<String>) -> (r: Vec<String>)
    ensures
        r@ == p@,
{
    let mut r: Vec<String> = Vec::new();
    let mut i: usize = 0;
    while i < p.len()
        invariant
            i <= p@.len(),
            r@ == p@.take(i as int),
        decreases p@.len() - i,
    {
        r.push(p[i].clone());
        proof {
            assert(r@ =~= p@.take(i + 1));
        }
        i = i + 1;
    }
    proof {
        assert(p@.take(p@.len() as int) =~= p@);
    }
    r
}

/// The parent directory of a path: the path without its last component.
pub fn parent_of_path(p: &Vec<String>) -> (r: Vec<String>)
    ensures
        r.deep_view() == spec_parent_of(p.deep_view()),
{
    let mut r = clone_path(p);
    if r.len() > 0 {
        r.pop();
        proof {
            assert(r.deep_view() =~= p.deep_view().drop_last());
        }
    } else {
        proof {
            assert(r.deep_view() =~= p.deep_view());
        }
    }
    r
}

/// Do these concrete groups realize these group views?
pub open spec fn groups_match(
    eg: Seq<(Vec<String>, Vec<Vec<String>>)>,
    sg: Seq<GroupView>,
) -> bool {
    &&& eg.len() == sg.len()
    &&& forall|j: int| 0 <= j < eg.len()
        ==> (#[trigger] eg[j]).0.deep_view() == sg[j].0 && eg[j].1.deep_view() == sg[j].1
}

/// Group the changed paths by parent directory, in first-seen order.
pub fn group_by_parent(paths: Vec<Vec<String>>) -> (r: Vec<(Vec<String>, Vec<Vec<String>>)>)
    ensures
        groups_match(r@, spec_group_by_parent(paths.deep_view())),
{
    let ghost allv = paths.deep_view();
    let mut rest = paths;
    let mut groups: Vec<(Vec<String>, Vec<Vec<String>>)> = Vec::new();
    let ghost done: int = 0;
    proof {
        assert(rest.deep_view() =~= allv.skip(0));
        assert(allv.take(0) =~= Seq::<Seq<Seq<char>>>::empty());
    }
    while rest.len() > 0
        invariant
            0 <= done <= allv.len(),
            rest.deep_view() == allv.skip(done),
            rest@.len() == allv.len() - done,
            groups_match(groups@, spec_group_by_parent(allv.take(done))),
        decreases rest@.len(),
    {
        let ghost sg = spec_group_by_parent(allv.take(done));
        let ghost rdv0 = rest.deep_view();
        let ghost rv0 = rest@;
        let p = rest.remove(0);
        proof {
            assert(rdv0[0] == rv0[0].deep_view());
            assert(p.deep_view() == allv[done]);
            assert forall|t: int| 0 <= t < rest@.len()
                implies rest.deep_view()[t] == allv.skip(done + 1)[t] by {
                assert(rest@[t] == rv0[t + 1]);
                assert(rest.deep_view()[t] == rest@[t].deep_view());
                assert(rdv0[t + 1] == rv0[t + 1].deep_view());
                assert(rdv0[t + 1] == allv.skip(done)[t + 1]);
            }
            assert(rest.deep_view() =~= allv.skip(done + 1));
        }
        let parent = parent_of_path(&p);
        let mut j: usize = 0;
        let glen = groups.len();
        let mut found: bool = false;
        while j < glen && !found
            invariant
                glen == groups@.len(),
                j <= glen,
                parent.deep_view() == spec_parent_of(p.deep_view()),
                groups_match(groups@, sg),
                found ==> j < glen && groups@[j as int].0.deep_view() == parent.deep_view(),
                forall|k: int| 0 <= k < j
                    ==> (#[trigger] groups@[k]).0.deep_view() != parent.deep_view(),
            decreases glen - j + (if found { 0int } else { 1int }),
        {
            if path_eq(&groups[j].0, &parent) {
                found = true;
            } else {
                j = j + 1;
            }
        }
        if found {
            proof {
                assert(spec_parent_of(allv[done]) == parent.deep_view());
                assert forall|k: int| 0 <= k < j as int
                    implies sg[k].0 != spec_parent_of(allv[done]) by {
                    assert(groups@[k].0.deep_view() != parent.deep_view());
                    assert(groups@[k].0.deep_view() == sg[k].0);
                }
                assert(sg[j as int].0 == spec_parent_of(allv[done]));
            }
            let ghost gb = groups@;
            let ghost pv2 = p.deep_view();
            let mut pair = groups.remove(j);
            let ghost mb = pair.1.deep_view();
            pair.1.push(p);
            let ghost pair1 = pair;
            groups.insert(j, pair);
            proof {
                lemma_add_existing(sg, allv[done], j as int);
                let ag = add_to_groups(sg, allv[done]);
                assert(groups@ =~= gb.update(j as int, pair1));
                assert(pair1.1.deep_view() =~= mb.push(pv2));
                assert(mb == sg[j as int].1);
                assert(pv2 == allv[done]);
                assert(ag =~= sg.update(
                    j as int, (sg[j as int].0, sg[j as int].1.push(allv[done]))));
                assert forall|jj: int| 0 <= jj < groups@.len()
                    implies (#[trigger] groups@[jj]).0.deep_view() == ag[jj].0
                        && groups@[jj].1.deep_view() == ag[jj].1 by {
                    if jj != j {
                        assert(groups@[jj] == gb[jj]);
                    }
                }
                assert(groups_match(groups@, ag));
            }
        } else {
            proof {
                assert(spec_parent_of(allv[done]) == parent.deep_view());
                assert forall|k: int| 0 <= k < sg.len()
                    implies sg[k].0 != spec_parent_of(allv[done]) by {
                    assert(groups@[k].0.deep_view() != parent.deep_view());
                    assert(groups@[k].0.deep_view() == sg[k].0);
                }
            }
            let mut members: Vec<Vec<String>> = Vec::new();
            members.push(p);
            groups.push((parent, members));
            proof {
                lemma_add_new(sg, allv[done]);
                assert(groups@.last().1.deep_view() =~= seq![allv[done]]);
                assert(groups_match(groups@, add_to_groups(sg, allv[done])));
            }
        }
        proof {
            assert(allv.take(done + 1).drop_last() =~= allv.take(done));
            assert(allv.take(done + 1).last() == allv[done]);
            done = done + 1;
        }
    }
    proof {
        assert(allv.take(allv.len() as int) =~= allv);
    }
    groups
}

/// Reconcile a set of changed local paths: group them by parent
/// directory and decide each group by the walk-up rule.  The result has
/// exactly one decision slot per distinct parent group, holding the
/// group's single sync command, or nothing where the group is skipped.
pub fn reconcile(
    fs: &FsSnapshot,
    sync_root: &Vec<String>,
    paths: Vec<Vec<String>>,
) -> (r: Vec<Option<SyncCommand>>)
    ensures
        ({
            let groups = spec_group_by_parent(paths.deep_view());
            &&& r@.len() == groups.len()
            &&& forall|k: int| 0 <= k < groups.len()
                ==> decision_matches(
                    #[trigger] r@[k],
                    spec_reconcile_group(
                        fs.entries@, sync_root.deep_view(),
                        groups[k].0, groups[k].1.len() as int),
                    groups[k].1,
                )
        }),
{
    let ghost sgroups = spec_group_by_parent(paths.deep_view());
    let mut groups = group_by_parent(paths);
    let mut r: Vec<Option<SyncCommand>> = Vec::new();
    let ghost total = sgroups.len();
    proof {
        assert(groups@.len() == total);
    }
    while groups.len() > 0
        invariant
            r@.len() + groups@.len() == total,
            total == sgroups.len(),
            groups_match_from(groups@, sgroups, r@.len() as int),
            forall|k: int| 0 <= k < r@.len()
                ==> decision_matches(
                    #[trigger] r@[k],
                    spec_reconcile_group(
                        fs.entries@, sync_root.deep_view(),
                        sgroups[k].0, sgroups[k].1.len() as int),
                    sgroups[k].1,
                ),
        decreases groups@.len(),
    {
        let ghost k = r@.len() as int;
        let (gp, members) = groups.remove(0);
        proof {
            assert(gp.deep_view() == sgroups[k].0);
            assert(members.deep_view() == sgroups[k].1);
            assert(members@.len() == members.deep_view().len());
        }
        let dec = reconcile_group(fs, sync_root, gp, members);
        r.push(dec);
    }
    r
}

/// Length of the leading run of non-separator characters.
pub open spec fn spec_seg_len(s: Seq<char>) -> nat
    decreases s.len(),
{
    if s.len() == 0 || s[0] == '/' {
        0
    } else {
        (1 + spec_seg_len(s.drop_first())) as nat
    }
}

proof fn lemma_seg_len_bound(s: Seq<char>)
    ensures
        spec_seg_len(s) <= s.len(),
    decreases s.len(),
{
    if s.len() > 0 && s[0] != '/' {
        lemma_seg_len_bound(s.drop_first());
    }
}

/// The leading segment runs up to the first separator, or to the end.
proof fn lemma_seg_len_exact(s: Seq<char>, l: int)
    requires
        0 <= l <= s.len(),
        forall|k: int| 0 <= k < l ==> s[k] != '/',
        l == s.len() || s[l] == '/',
    ensures
        spec_seg_len(s) == l,
    decreases l,
{
    if l == 0 {
    } else {
        let d = s.drop_first();
        assert(forall|k: int| 0 <= k < l - 1 ==> d[k] == s[k + 1]);
        lemma_seg_len_exact(d, l - 1);
    }
}

/// The components of a remote path string: the maximal runs of
/// characters between separators.  Empty runs vanish, so leading,
/// trailing and doubled separators are all harmless.
pub open spec fn spec_path_components(s: Seq<char>) -> Seq<Seq<char>>
    decreases s.len(),
    via spec_path_components_decreases
{
    if s.len() == 0 {
        Seq::empty()
    } else if s[0] == '/' {
        spec_path_components(s.drop_first())
    } else {
        seq![s.take(spec_seg_len(s) as int)]
            + spec_path_components(s.skip(spec_seg_len(s) as int))
    }
}

#[via_fn]
proof fn spec_path_components_decreases(s: Seq<char>) {
    if s.len() > 0 && s[0] != '/' {
        lemma_seg_len_bound(s);
        assert(spec_seg_len(s) >= 1);
    }
}

/// The local path a remote path string names: the sync root followed by
/// the string's separator-delimited components.
pub fn local_path_of_remote(sync_root: &Vec<String>, remote: &str) -> (r: Vec<String>)
    ensures
        r.deep_view() == sync_root.deep_view() + spec_path_components(remote@),
{
    let mut r = clone_path(sync_root);
    proof {
        assert(r.deep_view() =~= sync_root.deep_view());
        assert(remote@.skip(0) =~= remote@);
    }
    let n = remote.unicode_len();
    let mut i: usize = 0;
    while i < n
        invariant
            n == remote@.len(),
            i <= n,
            sync_root.deep_view() + spec_path_components(remote@)
                =~= r.deep_view() + spec_path_components(remote@.skip(i as int)),
        decreases n - i,
    {
        let ghost rest = remote@.skip(i as int);
        if remote.get_char(i) == '/' {
            proof {
                assert(rest[0] == remote@[i as int]);
                assert(rest.drop_first() =~= remote@.skip(i + 1));
            }
            i = i + 1;
        } else {
            let mut j: usize = i + 1;
            while j < n && remote.get_char(j) != '/'
                invariant
                    n == remote@.len(),
                    i < j <= n,
                    forall|k: int| i <= k < j ==> remote@[k] != '/',
                decreases n - j,
            {
                j = j + 1;
            }
            let seg: String = remote.substring_char(i, j).to_owned();
            let ghost rdv0 = r.deep_view();
            let ghost segv = seg@;
            r.push(seg);
            proof {
                assert(rest[0] == remote@[i as int]);
                assert(forall|k: int| 0 <= k < j - i ==> rest[k] == remote@[i + k]);
                lemma_seg_len_exact(rest, j - i);
                assert(rest.take(j - i) =~= remote@.subrange(i as int, j as int));
                assert(segv == rest.take(j - i));
                assert(rest.skip(j - i) =~= remote@.skip(j as int));
                assert forall|t: int| 0 <= t < r.deep_view().len()
                    implies r.deep_view()[t] == rdv0.push(segv)[t] by {
                    assert(r.deep_view()[t] == r@[t].deep_view());
                }
                assert(r.deep_view() =~= rdv0.push(segv));
                assert(rdv0 + (seq![segv] + spec_path_components(remote@.skip(j as int)))
                    =~= rdv0.push(segv) + spec_path_components(remote@.skip(j as int)));
            }
            i = j;
        }
    }
    proof {
        assert(remote@.skip(n as int).len() == 0);
        assert(r.deep_view() =~= sync_root.deep_view() + spec_path_components(remote@));
    }
    r
}

/// The caller-facing dispatch entry: group the paths by parent
/// directory and issue one command per group at the requested traversal
/// depth.  Unlike the event-driven walk, the caller chose the depth.
pub fn sync_paths(paths: Vec<Vec<String>>, mode: SyncMode) -> (r: Vec<SyncCommand>)
    ensures
        ({
            let groups = spec_group_by_parent(paths.deep_view());
            &&& r@.len() == groups.len()
            &&& forall|k: int| 0 <= k < groups.len()
                ==> (#[trigger] r@[k]).mode == mode
                    && r@[k].paths.deep_view() == groups[k].1
        }),
{
    let ghost sgroups = spec_group_by_parent(paths.deep_view());
    let mut groups = group_by_parent(paths);
    let mut r: Vec<SyncCommand> = Vec::new();
    let ghost total = sgroups.len();
    proof {
        assert(groups@.len() == total);
    }
    while groups.len() > 0
        invariant
            r@.len() + groups@.len() == total,
            total == sgroups.len(),
            groups_match_from(groups@, sgroups, r@.len() as int),
            forall|k: int| 0 <= k < r@.len()
                ==> (#[trigger] r@[k]).mode == mode
                    && r@[k].paths.deep_view() == sgroups[k].1,
        decreases groups@.len(),
    {
        let (_, members) = groups.remove(0);
        r.push(SyncCommand { paths: members, mode });
    }
    r
}

/// The remaining concrete groups realize the group views from `from` on.
pub open spec fn groups_match_from(
    eg: Seq<(Vec<String>, Vec<Vec<String>>)>,
    sg: Seq<GroupView>,
    from: int,
) -> bool {
    &&& from + eg.len() == sg.len()
    &&& forall|j: int| 0 <= j < eg.len()
        ==> (#[trigger] eg[j]).0.deep_view() == sg[from + j].0
            && eg[j].1.deep_view() == sg[from + j].1
}

} // verus!
