use vstd::prelude::*;
use crate::classify::DeletionV;
use crate::classify::Deletion;
use crate::classify::classify;
use crate::classify::deletions_for;
use crate::classify::has_public_share;
use crate::entry::Entry;
use crate::entry::EntryV;
use crate::entry::FileInfo;
use crate::entry::FileInfoV;

verus! {

/// The summaries a files listing contributes: entries with a present size,
/// in listing order, each classified from its permission identifiers.
/// Entries with an absent size are silently excluded.
pub open spec fn summaries(entries: Seq<EntryV>) -> Seq<FileInfoV>
    decreases entries.len(),
{
    if entries.len() == 0 {
        Seq::empty()
    } else {
        let rest = summaries(entries.drop_last());
        let e = entries.last();
        match e.size {
            Some(sz) => rest.push(
                FileInfoV { id: e.id, size: sz, name: e.name, shared: has_public_share(e.permission_ids) },
            ),
            None => rest,
        }
    }
}

/// The deletion calls a files listing owes the gateway: for each classified
/// entry (present size), in listing order, the deletions of its stale-grant
/// identifiers in identifier order.
pub open spec fn listing_deletions(entries: Seq<EntryV>) -> Seq<DeletionV>
    decreases entries.len(),
{
    if entries.len() == 0 {
        Seq::empty()
    } else {
        let rest = listing_deletions(entries.drop_last());
        let e = entries.last();
        if e.size is Some {
            rest + deletions_for(e.id, e.permission_ids)
        } else {
            rest
        }
    }
}

/// The identifiers of a listing's entries, in listing order.
pub open spec fn entry_ids(entries: Seq<EntryV>) -> Seq<Seq<char>> {
    entries.map_values(|e: EntryV| e.id)
}

/// Mathematical image of a [`Phase`].
#[verifier::ext_equal]
pub ghost enum PhaseV {
    Files(Seq<char>),
    Folders(Seq<char>),
    Finished,
}

/// What the walk awaits next: the files listing of a folder, the subfolder
/// listing of a folder, or nothing.
pub enum Phase {
    Files(String),
    Folders(String),
    Finished,
}

/// Mathematical image of a [`Walker`].
#[verifier::ext_equal]
pub ghost struct WalkerV {
    pub output: Seq<FileInfoV>,
    pub pending: Seq<Seq<char>>,
    pub recursive: bool,
    pub phase: PhaseV,
}

/// The state a fresh walk of `folder_id` starts in.
pub open spec fn walker_init(folder_id: Seq<char>, recursive: bool) -> WalkerV {
    WalkerV {
        output: Seq::empty(),
        pending: Seq::empty(),
        recursive,
        phase: PhaseV::Files(folder_id),
    }
}

/// Move to the next pending folder's files listing, or finish.
pub open spec fn walker_advance(w: WalkerV) -> WalkerV {
    if w.pending.len() == 0 {
        WalkerV { phase: PhaseV::Finished, ..w }
    } else {
        WalkerV { phase: PhaseV::Files(w.pending.first()), pending: w.pending.drop_first(), ..w }
    }
}

/// Absorb the files listing of the folder the walk is at: append its
/// summaries, then either await that folder's subfolder listing (recursive
/// walk) or move on.
pub open spec fn walker_on_files(w: WalkerV, entries: Seq<EntryV>) -> WalkerV {
    let w1 = WalkerV { output: w.output + summaries(entries), ..w };
    match w.phase {
        PhaseV::Files(f) => if w.recursive {
            WalkerV { phase: PhaseV::Folders(f), ..w1 }
        } else {
            walker_advance(w1)
        },
        _ => walker_advance(w1),
    }
}

/// Absorb the subfolder listing of the folder the walk is at: the subfolders
/// are walked next, in listing order, before everything already pending —
/// the depth-first order.
pub open spec fn walker_on_folders(w: WalkerV, folder_ids: Seq<Seq<char>>) -> WalkerV {
    walker_advance(WalkerV { pending: folder_ids + w.pending, ..w })
}

/// Walks a folder depth-first, composing the pager's listings and the
/// classifier into one flat ordered sequence of file summaries.
///
/// The unverified driver owns the gateway: while the walk is not done, it
/// drains the files listing (or, when `awaiting_folders`, the subfolder
/// listing) of `current_folder` and feeds it back through `on_files` or
/// `on_folders`; the deletion calls `on_files` hands back are issued in
/// order, and any gateway failure aborts the whole walk. `finish` then hands
/// out the accumulated summaries: first the direct files of a folder, then
/// the files of each of its subfolders in listing order, recursively.
pub struct Walker {
    output: Vec<FileInfo>,
    pending: Vec<String>,
    recursive: bool,
    phase: Phase,
}

impl View for Walker {
    type V = WalkerV;

    closed spec fn view(&self) -> WalkerV {
        WalkerV {
            output: self.output.deep_view(),
            pending: self.pending.deep_view(),
            recursive: self.recursive,
            phase: match self.phase {
                Phase::Files(f) => PhaseV::Files(f@),
                Phase::Folders(f) => PhaseV::Folders(f@),
                Phase::Finished => PhaseV::Finished,
            },
        }
    }
}

impl Walker {
    /// Start a walk of `folder_id`, descending into subfolders when
    /// `recursive` is set.
    pub fn new(folder_id: String, recursive: bool) -> (w: Walker)
        ensures
            w@ == walker_init(folder_id@, recursive),
    {
        let w = Walker {
            output: Vec::new(),
            pending: Vec::new(),
            recursive,
            phase: Phase::Files(folder_id),
        };
        proof {
            assert(w@ =~= walker_init(folder_id@, recursive));
        }
        w
    }

    /// Whether the walk is complete.
    pub fn done(&self) -> (b: bool)
        ensures
            b == (self@.phase is Finished),
    {
        match &self.phase {
            Phase::Finished => true,
            _ => false,
        }
    }

    /// Whether the walk awaits a subfolder listing rather than a files
    /// listing.
    pub fn awaiting_folders(&self) -> (b: bool)
        ensures
            b == (self@.phase is Folders),
    {
        match &self.phase {
            Phase::Folders(_) => true,
            _ => false,
        }
    }

    /// Whether the walk descends into subfolders.
    pub fn is_recursive(&self) -> (b: bool)
        ensures
            b == self@.recursive,
    {
        self.recursive
    }

    /// The folder whose listing the walk awaits.
    pub fn current_folder(&self) -> (f: String)
        requires
            !(self@.phase is Finished),
        ensures
            match self@.phase {
                PhaseV::Files(g) => f@ == g,
                PhaseV::Folders(g) => f@ == g,
                PhaseV::Finished => false,
            },
    {
        match &self.phase {
            Phase::Files(f) => f.clone(),
            Phase::Folders(f) => f.clone(),
            Phase::Finished => {
                proof {
                    assert(false);
                }
                String::new()
            },
        }
    }

    /// Move to the next pending folder, or finish.
    fn advance(&mut self)
        ensures
            final(self)@ == walker_advance(old(self)@),
    {
        let ghost prev = self@;
        if self.pending.len() == 0 {
            self.phase = Phase::Finished;
            proof {
                assert(self@ =~= walker_advance(prev));
            }
        } else {
            let f = self.pending.remove(0);
            self.phase = Phase::Files(f);
            proof {
                assert(self@.pending =~= prev.pending.drop_first());
                assert(f@ == prev.pending.first());
                assert(self@ =~= walker_advance(prev));
            }
        }
    }

    /// Absorb the files listing of the current folder: classify each entry
    /// with a present size, append its summary, and hand back the deletion
    /// calls the cleanup owes, in order. The driver must issue every deletion
    /// (aborting the walk on the first failure) before it trusts the output.
    pub fn on_files(&mut self, entries: Vec<Entry>) -> (dels: Vec<Deletion>)
        requires
            old(self)@.phase is Files,
        ensures
            final(self)@ == walker_on_files(old(self)@, entries.deep_view()),
            dels.deep_view() == listing_deletions(entries.deep_view()),
    {
        let ghost dv = entries.deep_view();
        let ghost prev = self@;
        let mut dels: Vec<Deletion> = Vec::new();
        let n = entries.len();
        proof {
            assert(self@.output =~= prev.output + summaries(dv.take(0)));
            assert(dels.deep_view() =~= listing_deletions(dv.take(0)));
        }
        for j in 0..n
            invariant
                n == entries.len(),
                dv == entries.deep_view(),
                self@.output == prev.output + summaries(dv.take(j as int)),
                self@.pending == prev.pending,
                self@.recursive == prev.recursive,
                self@.phase == prev.phase,
                dels.deep_view() == listing_deletions(dv.take(j as int)),
        {
            let ghost out_prev = self@.output;
            let ghost dels_prev = dels.deep_view();
            let e = &entries[j];
            proof {
                assert(e@ == dv[j as int]);
                assert(dv.take(j + 1).drop_last() =~= dv.take(j as int));
                assert(dv.take(j + 1).last() == dv[j as int]);
            }
            match &e.size {
                Some(sz) => {
                    let c = classify(e);
                    self.output.push(
                        FileInfo::new(e.id.clone(), sz.clone(), e.name.clone(), c.shared),
                    );
                    let mut ds = c.deletions;
                    dels.append(&mut ds);
                    proof {
                        assert(self@.output =~= out_prev.push(
                            FileInfoV {
                                id: dv[j as int].id,
                                size: dv[j as int].size->Some_0,
                                name: dv[j as int].name,
                                shared: has_public_share(dv[j as int].permission_ids),
                            },
                        ));
                        assert(self@.output =~= prev.output + summaries(dv.take(j + 1)));
                        assert(dels.deep_view() =~= dels_prev + deletions_for(
                            dv[j as int].id,
                            dv[j as int].permission_ids,
                        ));
                        assert(dels.deep_view() =~= listing_deletions(dv.take(j + 1)));
                    }
                },
                None => {
                    proof {
                        assert(summaries(dv.take(j + 1)) =~= summaries(dv.take(j as int)));
                        assert(listing_deletions(dv.take(j + 1)) =~= listing_deletions(
                            dv.take(j as int),
                        ));
                    }
                },
            }
        }
        proof {
            assert(dv.take(n as int) =~= dv);
        }
        match &self.phase {
            Phase::Files(f) => {
                if self.recursive {
                    let f2 = f.clone();
                    self.phase = Phase::Folders(f2);
                } else {
                    self.advance();
                }
            },
            _ => {
                proof {
                    assert(false);
                }
            },
        }
        proof {
            assert(self@ =~= walker_on_files(prev, dv));
        }
        dels
    }

    /// Absorb the subfolder listing of the current folder: its subfolders
    /// are walked next, in listing order, before everything already pending.
    pub fn on_folders(&mut self, entries: Vec<Entry>)
        requires
            old(self)@.phase is Folders,
        ensures
            final(self)@ == walker_on_folders(old(self)@, entry_ids(entries.deep_view())),
    {
        let ghost dv = entries.deep_view();
        let ghost prev = self@;
        let n = entries.len();
        let mut ids: Vec<String> = Vec::new();
        proof {
            assert(ids.deep_view() =~= entry_ids(dv.take(0)));
        }
        for j in 0..n
            invariant
                n == entries.len(),
                dv == entries.deep_view(),
                ids.deep_view() == entry_ids(dv.take(j as int)),
        {
            let ghost ids_prev = ids.deep_view();
            ids.push(entries[j].id.clone());
            proof {
                assert(entries[j as int]@ == dv[j as int]);
                assert(ids.deep_view() =~= ids_prev.push(dv[j as int].id));
                assert(ids.deep_view() =~= entry_ids(dv.take(j + 1)));
            }
        }
        proof {
            assert(dv.take(n as int) =~= dv);
        }
        let mut ids = ids;
        ids.append(&mut self.pending);
        self.pending = ids;
        proof {
            assert(self@.pending =~= entry_ids(dv) + prev.pending);
        }
        self.advance();
        proof {
            assert(self@ =~= walker_on_folders(prev, entry_ids(dv)));
        }
    }

    /// Hand out the accumulated summaries once the walk is complete.
    pub fn finish(self) -> (out: Vec<FileInfo>)
        requires
            self@.phase is Finished,
        ensures
            out.deep_view() == self@.output,
    {
        self.output
    }
}

/// The size-bearing entries of a listing, in order.
pub open spec fn sized_entries(entries: Seq<EntryV>) -> Seq<EntryV> {
    entries.filter(|e: EntryV| e.size is Some)
}

/// Entries with an absent size are excluded from the walk's output even when
/// otherwise well-formed: a listing's summaries are exactly those of its
/// size-bearing entries.
pub proof fn lemma_sizeless_entries_excluded(entries: Seq<EntryV>)
    ensures
        summaries(entries) == summaries(sized_entries(entries)),
    decreases entries.len(),
{
    reveal(Seq::filter);
    if entries.len() > 0 {
        let rest = entries.drop_last();
        lemma_sizeless_entries_excluded(rest);
        if entries.last().size is Some {
            assert(sized_entries(entries) == sized_entries(rest).push(entries.last()));
            assert(sized_entries(entries).drop_last() =~= sized_entries(rest));
            assert(sized_entries(entries).last() == entries.last());
        } else {
            assert(sized_entries(entries) == sized_entries(rest));
        }
    }
}

/// A non-recursive walk asks only for files listings: from a state that does
/// not await a subfolder listing, no transition reaches one.
pub proof fn lemma_non_recursive_never_awaits_folders(
    w: WalkerV,
    entries: Seq<EntryV>,
    folder_ids: Seq<Seq<char>>,
    folder_id: Seq<char>,
)
    requires
        !w.recursive,
        !(w.phase is Folders),
    ensures
        !(walker_init(folder_id, false).phase is Folders),
        !(walker_advance(w).phase is Folders),
        !(walker_on_files(w, entries).phase is Folders),
        !(walker_on_folders(w, folder_ids).phase is Folders),
{
}

/// A non-recursive walk is one files listing: absorbing the direct children
/// of the start folder finishes the walk with exactly their summaries, in
/// listing order.
pub proof fn lemma_non_recursive_single_listing(folder_id: Seq<char>, entries: Seq<EntryV>)
    ensures
        walker_on_files(walker_init(folder_id, false), entries).phase is Finished,
        walker_on_files(walker_init(folder_id, false), entries).output == summaries(entries),
{
    assert(Seq::<FileInfoV>::empty() + summaries(entries) =~= summaries(entries));
}

} // verus!
