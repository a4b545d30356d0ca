use vstd::prelude::*;
use crate::entry::EntryV;
use crate::entry::FileInfoV;
use crate::walker::PhaseV;
use crate::walker::WalkerV;
use crate::walker::summaries;
use crate::walker::walker_advance;
use crate::walker::walker_init;
use crate::walker::walker_on_files;
use crate::walker::walker_on_folders;

verus! {

/// A snapshot of the remote hierarchy: for each folder identifier, its
/// files listing (direct non-folder children, with no size filter applied)
/// and its direct subfolders' identifiers, each in listing order. The
/// backing service guarantees the hierarchy is acyclic, which the depth
/// bound below expresses.
pub ghost struct DriveModel {
    pub files: Map<Seq<char>, Seq<EntryV>>,
    pub subs: Map<Seq<char>, Seq<Seq<char>>>,
}

/// Every folder in `ids` has all its descendants within depth `d` of the
/// snapshot: the acyclicity the walk relies on.
pub open spec fn within_depth(m: DriveModel, ids: Seq<Seq<char>>, d: nat) -> bool
    decreases d, ids.len(),
{
    if ids.len() == 0 {
        true
    } else if d == 0 {
        false
    } else {
        &&& within_depth(m, m.subs[ids.first()], (d - 1) as nat)
        &&& within_depth(m, ids.drop_first(), d)
    }
}

/// What a walk of the folders `ids`, in order, owes: for each folder its
/// direct files' summaries and then, when `recursive`, the same for each of
/// its subfolders in listing order — the depth-first order.
pub open spec fn collect_list(
    m: DriveModel,
    ids: Seq<Seq<char>>,
    recursive: bool,
    d: nat,
) -> Seq<FileInfoV>
    decreases d, ids.len(),
{
    if ids.len() == 0 || d == 0 {
        Seq::empty()
    } else {
        summaries(m.files[ids.first()]) + (if recursive {
            collect_list(m, m.subs[ids.first()], true, (d - 1) as nat)
        } else {
            Seq::empty()
        }) + collect_list(m, ids.drop_first(), recursive, d)
    }
}

/// What a walk of one folder owes: the meaning of collecting `folder_id`.
pub open spec fn collect_model(
    m: DriveModel,
    folder_id: Seq<char>,
    recursive: bool,
    d: nat,
) -> Seq<FileInfoV> {
    collect_list(m, seq![folder_id], recursive, d)
}

/// Depth-first decomposition: a recursive collect of one folder is its
/// direct files' summaries followed by the collect of its subfolders, in
/// listing order.
pub proof fn lemma_collect_model_unfold(m: DriveModel, folder_id: Seq<char>, d: nat)
    requires
        d > 0,
    ensures
        collect_model(m, folder_id, true, d) == summaries(m.files[folder_id]) + collect_list(
            m,
            m.subs[folder_id],
            true,
            (d - 1) as nat,
        ),
{
    let ids = seq![folder_id];
    assert(ids.len() == 1);
    assert(ids.first() == folder_id);
    assert(ids.drop_first() =~= Seq::<Seq<char>>::empty());
    assert(collect_list(m, ids.drop_first(), true, d) =~= Seq::<FileInfoV>::empty());
    assert(collect_list(m, ids, true, d) == summaries(m.files[ids.first()]) + collect_list(
        m,
        m.subs[ids.first()],
        true,
        (d - 1) as nat,
    ) + collect_list(m, ids.drop_first(), true, d));
    assert(collect_model(m, folder_id, true, d) =~= summaries(m.files[folder_id]) + collect_list(
        m,
        m.subs[folder_id],
        true,
        (d - 1) as nat,
    ));
}

/// A walk of several folders in order is the walk of the first followed by
/// the walk of the rest.
pub proof fn lemma_collect_list_unfold(m: DriveModel, ids: Seq<Seq<char>>, d: nat)
    requires
        d > 0,
        ids.len() > 0,
    ensures
        collect_list(m, ids, true, d) == collect_model(m, ids.first(), true, d) + collect_list(
            m,
            ids.drop_first(),
            true,
            d,
        ),
{
    lemma_collect_model_unfold(m, ids.first(), d);
    assert(collect_list(m, ids, true, d) =~= collect_model(m, ids.first(), true, d)
        + collect_list(m, ids.drop_first(), true, d));
}

/// A depth bound stays a bound when raised, and the collect it bounds does
/// not depend on which sufficient bound is used.
pub proof fn lemma_collect_list_depth(
    m: DriveModel,
    ids: Seq<Seq<char>>,
    recursive: bool,
    d1: nat,
    d2: nat,
)
    requires
        within_depth(m, ids, d1),
        d1 <= d2,
    ensures
        within_depth(m, ids, d2),
        collect_list(m, ids, recursive, d1) == collect_list(m, ids, recursive, d2),
    decreases d1, ids.len(),
{
    if ids.len() > 0 {
        lemma_collect_list_depth(m, m.subs[ids.first()], true, (d1 - 1) as nat, (d2 - 1) as nat);
        lemma_collect_list_depth(m, ids.drop_first(), recursive, d1, d2);
    }
}

/// Splitting a row of folders splits its depth bound.
pub proof fn lemma_within_depth_concat(m: DriveModel, a: Seq<Seq<char>>, b: Seq<Seq<char>>, d: nat)
    ensures
        within_depth(m, a + b, d) == (within_depth(m, a, d) && within_depth(m, b, d)),
    decreases a.len(),
{
    if a.len() == 0 {
        assert(a + b =~= b);
    } else if d > 0 {
        assert((a + b).first() == a.first());
        assert((a + b).drop_first() =~= a.drop_first() + b);
        lemma_within_depth_concat(m, a.drop_first(), b, d);
    } else {
        assert((a + b).len() > 0);
    }
}

/// Walking a row of folders and then another is walking their
/// concatenation.
pub proof fn lemma_collect_list_concat(m: DriveModel, a: Seq<Seq<char>>, b: Seq<Seq<char>>, d: nat)
    ensures
        collect_list(m, a + b, true, d) == collect_list(m, a, true, d) + collect_list(
            m,
            b,
            true,
            d,
        ),
    decreases a.len(),
{
    if a.len() == 0 {
        assert(a + b =~= b);
        assert(collect_list(m, a + b, true, d) =~= collect_list(m, a, true, d) + collect_list(
            m,
            b,
            true,
            d,
        ));
    } else if d == 0 {
        assert((a + b).len() > 0);
        assert(collect_list(m, a + b, true, d) =~= collect_list(m, a, true, d) + collect_list(
            m,
            b,
            true,
            d,
        ));
    } else {
        assert((a + b).first() == a.first());
        assert((a + b).drop_first() =~= a.drop_first() + b);
        lemma_collect_list_concat(m, a.drop_first(), b, d);
        assert(collect_list(m, a + b, true, d) =~= collect_list(m, a, true, d) + collect_list(
            m,
            b,
            true,
            d,
        ));
    }
}

/// The remaining work of a walk lies within depth `d` of the snapshot.
pub open spec fn walk_within_depth(w: WalkerV, m: DriveModel, d: nat) -> bool {
    &&& within_depth(m, w.pending, d)
    &&& match w.phase {
        PhaseV::Finished => true,
        PhaseV::Files(f) => d > 0 && within_depth(m, m.subs[f], (d - 1) as nat),
        PhaseV::Folders(f) => d > 0 && within_depth(m, m.subs[f], (d - 1) as nat),
    }
}

/// The flat sequence a walk in state `w` will have produced when it
/// finishes, assuming the driver feeds it the listings the snapshot holds.
pub open spec fn walk_outcome(w: WalkerV, m: DriveModel, d: nat) -> Seq<FileInfoV> {
    match w.phase {
        PhaseV::Finished => w.output,
        PhaseV::Files(f) => w.output + summaries(m.files[f]) + (if w.recursive {
            collect_list(m, m.subs[f], true, (d - 1) as nat)
        } else {
            Seq::empty()
        }) + collect_list(m, w.pending, w.recursive, d),
        PhaseV::Folders(f) => w.output + collect_list(m, m.subs[f], true, (d - 1) as nat)
            + collect_list(m, w.pending, w.recursive, d),
    }
}

/// A fresh walk owes exactly the collect of its start folder.
pub proof fn lemma_walk_init_outcome(m: DriveModel, folder_id: Seq<char>, recursive: bool, d: nat)
    requires
        within_depth(m, seq![folder_id], d),
    ensures
        walk_within_depth(walker_init(folder_id, recursive), m, d),
        walk_outcome(walker_init(folder_id, recursive), m, d) == collect_model(
            m,
            folder_id,
            recursive,
            d,
        ),
{
    let ids = seq![folder_id];
    let w = walker_init(folder_id, recursive);
    assert(ids.first() == folder_id);
    assert(ids.drop_first() =~= Seq::<Seq<char>>::empty());
    assert(walk_outcome(w, m, d) =~= collect_model(m, folder_id, recursive, d));
}

/// Absorbing the current folder's files listing, as the snapshot holds it,
/// leaves what the walk will produce unchanged.
pub proof fn lemma_on_files_preserves_outcome(w: WalkerV, m: DriveModel, f: Seq<char>, d: nat)
    requires
        w.phase == PhaseV::Files(f),
        walk_within_depth(w, m, d),
    ensures
        walk_within_depth(walker_on_files(w, m.files[f]), m, d),
        walk_outcome(walker_on_files(w, m.files[f]), m, d) == walk_outcome(w, m, d),
{
    let entries = m.files[f];
    let w1 = WalkerV { output: w.output + summaries(entries), ..w };
    if w.recursive {
        let w2 = walker_on_files(w, entries);
        assert(w2 == (WalkerV { phase: PhaseV::Folders(f), ..w1 }));
        assert(walk_outcome(w2, m, d) =~= walk_outcome(w, m, d));
    } else {
        if w.pending.len() == 0 {
            let w2 = walker_on_files(w, entries);
            assert(w2 == (WalkerV { phase: PhaseV::Finished, ..w1 }));
            assert(walk_outcome(w2, m, d) =~= walk_outcome(w, m, d));
        } else {
            let p0 = w.pending.first();
            let w2 = walker_on_files(w, entries);
            assert(w2 == (WalkerV {
                phase: PhaseV::Files(p0),
                pending: w.pending.drop_first(),
                ..w1
            }));
            assert(walk_outcome(w2, m, d) =~= walk_outcome(w, m, d));
        }
    }
}

/// Absorbing the current folder's subfolder listing, as the snapshot holds
/// it, leaves what the walk will produce unchanged.
pub proof fn lemma_on_folders_preserves_outcome(w: WalkerV, m: DriveModel, f: Seq<char>, d: nat)
    requires
        w.phase == PhaseV::Folders(f),
        w.recursive,
        walk_within_depth(w, m, d),
    ensures
        walk_within_depth(walker_on_folders(w, m.subs[f]), m, d),
        walk_outcome(walker_on_folders(w, m.subs[f]), m, d) == walk_outcome(w, m, d),
{
    let subs = m.subs[f];
    let stacked = subs + w.pending;
    lemma_collect_list_depth(m, subs, true, (d - 1) as nat, d);
    lemma_within_depth_concat(m, subs, w.pending, d);
    lemma_collect_list_concat(m, subs, w.pending, d);
    let w2 = walker_on_folders(w, subs);
    if stacked.len() == 0 {
        assert(w2 == (WalkerV { phase: PhaseV::Finished, pending: stacked, ..w }));
        assert(subs =~= Seq::<Seq<char>>::empty());
        assert(w.pending =~= Seq::<Seq<char>>::empty());
        assert(walk_outcome(w2, m, d) =~= walk_outcome(w, m, d));
    } else {
        let q0 = stacked.first();
        assert(w2 == (WalkerV {
            phase: PhaseV::Files(q0),
            pending: stacked.drop_first(),
            ..w
        }));
        assert(collect_list(m, stacked, true, d) == summaries(m.files[q0]) + collect_list(
            m,
            m.subs[q0],
            true,
            (d - 1) as nat,
        ) + collect_list(m, stacked.drop_first(), true, d));
        assert(walk_outcome(w2, m, d) =~= w.output + collect_list(m, stacked, true, d));
        assert(walk_outcome(w, m, d) =~= w.output + collect_list(m, stacked, true, d));
    }
}

/// A finished walk's outcome is its accumulated output.
pub proof fn lemma_finished_outcome(w: WalkerV, m: DriveModel, d: nat)
    requires
        w.phase is Finished,
    ensures
        walk_outcome(w, m, d) == w.output,
{
}

} // verus!
