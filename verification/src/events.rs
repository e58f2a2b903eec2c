//! Remote change-event handling: group a batch of change records by
//! kind, turn renames into a delete of the old path plus a create of
//! the new one, drop deletes of paths that are already gone locally,
//! and hand each set to the reconciler.

use vstd::prelude::*;
use crate::reconcile::{
    FsSnapshot, SyncCommand, decision_matches, spec_find, spec_group_by_parent,
    spec_reconcile_group, reconcile, GroupView,
};

verus! {

/// What happened to a remote entry.
#[derive(Clone, Copy, PartialEq, Eq, Structural, Debug)]
pub enum ChangeKind {
    Create,
    Modify,
    Rename,
    Delete,
}

/// One remote change record, with the affected local paths.
pub struct ChangeRecord {
    /// What happened
    pub kind: ChangeKind,
    /// The local path the change comes from (source of a rename, the
    /// affected path otherwise)
    pub from: Vec<String>,
    /// The local path a rename moved the entry to; unused otherwise
    pub to: Vec<String>,
}

/// The paths of the created and modified records, in order.
pub open spec fn spec_create_update_paths(evs: Seq<ChangeRecord>) -> Seq<Vec<String>>
    decreases evs.len(),
{
    if evs.len() == 0 {
        Seq::empty()
    } else {
        spec_create_update_paths(evs.drop_last())
            + if evs.last().kind is Create || evs.last().kind is Modify {
                seq![evs.last().from]
            } else {
                Seq::empty()
            }
    }
}

/// The deleted paths that still exist locally, in order: a delete of a
/// path already gone needs no reconciliation.
pub open spec fn spec_delete_paths(
    evs: Seq<ChangeRecord>,
    entries: Seq<(Vec<String>, crate::reconcile::LocalFileInfo)>,
) -> Seq<Vec<String>>
    decreases evs.len(),
{
    if evs.len() == 0 {
        Seq::empty()
    } else {
        spec_delete_paths(evs.drop_last(), entries)
            + if evs.last().kind is Delete
                && spec_find(entries, evs.last().from.deep_view()).exists {
                seq![evs.last().from]
            } else {
                Seq::empty()
            }
    }
}

/// The sources of renames that still exist locally, in order: the
/// delete half of each rename.
pub open spec fn spec_rename_from_paths(
    evs: Seq<ChangeRecord>,
    entries: Seq<(Vec<String>, crate::reconcile::LocalFileInfo)>,
) -> Seq<Vec<String>>
    decreases evs.len(),
{
    if evs.len() == 0 {
        Seq::empty()
    } else {
        spec_rename_from_paths(evs.drop_last(), entries)
            + if evs.last().kind is Rename
                && spec_find(entries, evs.last().from.deep_view()).exists {
                seq![evs.last().from]
            } else {
                Seq::empty()
            }
    }
}

/// The targets of renames, in order: the create half of each rename,
/// taken unconditionally.
pub open spec fn spec_rename_to_paths(evs: Seq<ChangeRecord>) -> Seq<Vec<String>>
    decreases evs.len(),
{
    if evs.len() == 0 {
        Seq::empty()
    } else {
        spec_rename_to_paths(evs.drop_last())
            + if evs.last().kind is Rename {
                seq![evs.last().to]
            } else {
                Seq::empty()
            }
    }
}

/// Sort a batch of change records into the four path sets the
/// reconciler takes: creates and modifications; deletions still present
/// locally; rename sources still present locally; rename targets.
pub fn plan_change_batch(fs: &FsSnapshot, events: Vec<ChangeRecord>)
    -> (r: (Vec<Vec<String>>, Vec<Vec<String>>, Vec<Vec<String>>, Vec<Vec<String>>))
    ensures
        r.0@ == spec_create_update_paths(events@),
        r.1@ == spec_delete_paths(events@, fs.entries@),
        r.2@ == spec_rename_from_paths(events@, fs.entries@),
        r.3@ == spec_rename_to_paths(events@),
{
    let ghost all = events@;
    let mut rest = events;
    let mut creates: Vec<Vec<String>> = Vec::new();
    let mut deletes: Vec<Vec<String>> = Vec::new();
    let mut rename_from: Vec<Vec<String>> = Vec::new();
    let mut rename_to: Vec<Vec<String>> = Vec::new();
    let ghost done: int = 0;
    proof {
        assert(rest@ =~= all.skip(0));
        assert(all.take(0) =~= Seq::<ChangeRecord>::empty());
    }
    while rest.len() > 0
        invariant
            0 <= done <= all.len(),
            rest@ == all.skip(done),
            creates@ == spec_create_update_paths(all.take(done)),
            deletes@ == spec_delete_paths(all.take(done), fs.entries@),
            rename_from@ == spec_rename_from_paths(all.take(done), fs.entries@),
            rename_to@ == spec_rename_to_paths(all.take(done)),
        decreases rest@.len(),
    {
        let ev = rest.remove(0);
        proof {
            assert(ev == all[done]);
            assert(rest@ =~= all.skip(done + 1));
            assert(all.take(done + 1).drop_last() =~= all.take(done));
            assert(all.take(done + 1).last() == all[done]);
        }
        let exists_locally = {
            let n = ev.from.len();
            proof {
                assert(ev.from.deep_view().take(n as int) =~= ev.from.deep_view());
            }
            fs.lookup_prefix(&ev.from, n).exists
        };
        match ev.kind {
            ChangeKind::Create => {
                creates.push(ev.from);
            },
            ChangeKind::Modify => {
                creates.push(ev.from);
            },
            ChangeKind::Delete => {
                if exists_locally {
                    deletes.push(ev.from);
                }
            },
            ChangeKind::Rename => {
                if exists_locally {
                    rename_from.push(ev.from);
                }
                rename_to.push(ev.to);
            },
        }
        proof {
            assert(creates@ =~= spec_create_update_paths(all.take(done + 1)));
            assert(deletes@ =~= spec_delete_paths(all.take(done + 1), fs.entries@));
            assert(rename_from@ =~= spec_rename_from_paths(all.take(done + 1), fs.entries@));
            assert(rename_to@ =~= spec_rename_to_paths(all.take(done + 1)));
            done = done + 1;
        }
    }
    proof {
        assert(all.take(all.len() as int) =~= all);
    }
    (creates, deletes, rename_from, rename_to)
}

/// The component views of a list of paths.
pub open spec fn views_of(s: Seq<Vec<String>>) -> Seq<Seq<Seq<char>>> {
    Seq::new(s.len(), |i: int| s[i].deep_view())
}

/// Do these decisions cover exactly these groups, in order?
pub open spec fn decisions_for_groups(
    r: Seq<Option<SyncCommand>>,
    entries: Seq<(Vec<String>, crate::reconcile::LocalFileInfo)>,
    root: Seq<Seq<char>>,
    groups: Seq<GroupView>,
) -> bool {
    &&& r.len() == groups.len()
    &&& forall|k: int| 0 <= k < groups.len()
        ==> decision_matches(
            #[trigger] r[k],
            spec_reconcile_group(entries, root, groups[k].0, groups[k].1.len() as int),
            groups[k].1,
        )
}

/// Handle one batch of remote change records: reconcile the
/// created-or-modified paths, then the locally present deleted paths,
/// then the two halves of the renames.  The result is the concatenation
/// of the four groups' decisions, one per distinct parent group each.
pub fn process_change_batch(
    fs: &FsSnapshot,
    sync_root: &Vec<String>,
    events: Vec<ChangeRecord>,
) -> (r: Vec<Option<SyncCommand>>)
    ensures
        ({
            let g1 = spec_group_by_parent(views_of(spec_create_update_paths(events@)));
            let g2 = spec_group_by_parent(views_of(
                spec_delete_paths(events@, fs.entries@)));
            let g3 = spec_group_by_parent(views_of(
                spec_rename_from_paths(events@, fs.entries@)));
            let g4 = spec_group_by_parent(views_of(spec_rename_to_paths(events@)));
            let root = sync_root.deep_view();
            &&& r@.len() == g1.len() + g2.len() + g3.len() + g4.len()
            &&& decisions_for_groups(r@.take(g1.len() as int), fs.entries@, root, g1)
            &&& decisions_for_groups(
                r@.subrange(g1.len() as int, (g1.len() + g2.len()) as int),
                fs.entries@, root, g2)
            &&& decisions_for_groups(
                r@.subrange(
                    (g1.len() + g2.len()) as int,
                    (g1.len() + g2.len() + g3.len()) as int),
                fs.entries@, root, g3)
            &&& decisions_for_groups(
                r@.skip((g1.len() + g2.len() + g3.len()) as int),
                fs.entries@, root, g4)
        }),
{
    let (creates, deletes, rename_from, rename_to) = plan_change_batch(fs, events);
    proof {
        assert(creates.deep_view() =~= views_of(creates@));
        assert(deletes.deep_view() =~= views_of(deletes@));
        assert(rename_from.deep_view() =~= views_of(rename_from@));
        assert(rename_to.deep_view() =~= views_of(rename_to@));
    }
    let mut r = reconcile(fs, sync_root, creates);
    let mut r2 = reconcile(fs, sync_root, deletes);
    let mut r3 = reconcile(fs, sync_root, rename_from);
    let mut r4 = reconcile(fs, sync_root, rename_to);
    let ghost v1 = r@;
    let ghost v2 = r2@;
    let ghost v3 = r3@;
    let ghost v4 = r4@;
    r.append(&mut r2);
    r.append(&mut r3);
    r.append(&mut r4);
    proof {
        assert(r@ == v1 + v2 + v3 + v4);
        assert(r@.take(v1.len() as int) =~= v1);
        assert(r@.subrange(v1.len() as int, (v1.len() + v2.len()) as int) =~= v2);
        assert(r@.subrange(
            (v1.len() + v2.len()) as int,
            (v1.len() + v2.len() + v3.len()) as int) =~= v3);
        assert(r@.skip((v1.len() + v2.len() + v3.len()) as int) =~= v4);
    }
    r
}

} // verus!
