use vstd::prelude::*;
use crate::entry::Entry;
use crate::entry::EntryV;

verus! {

/// Mathematical image of a [`Pager`].
pub ghost struct PagerV {
    pub entries: Seq<EntryV>,
    pub token: Option<Seq<char>>,
    pub done: bool,
}

/// Drains one filtered listing query across all its pages into a single
/// ordered sequence of entries.
///
/// The unverified driver owns the gateway: while the pager is not done, it
/// performs one listing call with the token `next_token` reports, and feeds
/// the page back through `absorb`. A failed page aborts the whole listing —
/// the driver returns the error and drops the pager, so no partial sequence
/// is ever produced. Page order and within-page order are both preserved.
pub struct Pager {
    entries: Vec<Entry>,
    token: Option<String>,
    done: bool,
}

impl View for Pager {
    type V = PagerV;

    closed spec fn view(&self) -> PagerV {
        PagerV {
            entries: self.entries.deep_view(),
            token: match self.token {
                Some(t) => Some(t@),
                None => None,
            },
            done: self.done,
        }
    }
}

impl Pager {
    /// A fresh listing: nothing accumulated, the first page still to be
    /// requested (with no page token).
    pub fn new() -> (p: Pager)
        ensures
            p@.entries == Seq::<EntryV>::empty(),
            p@.token is None,
            !p@.done,
    {
        let p = Pager { entries: Vec::new(), token: None, done: false };
        proof {
            assert(p@.entries =~= Seq::<EntryV>::empty());
        }
        p
    }

    /// Whether the gateway has reported that no further page exists.
    pub fn is_done(&self) -> (b: bool)
        ensures
            b == self@.done,
    {
        self.done
    }

    /// The page token to send with the next listing call: absent for the
    /// first page, afterwards the token the gateway returned last.
    pub fn next_token(&self) -> (t: &Option<String>)
        requires
            !self@.done,
        ensures
            t.deep_view() == self@.token,
    {
        &self.token
    }

    /// Absorb one page: append its items, in order, after everything
    /// accumulated so far, and remember the next-page token; an absent token
    /// completes the listing.
    pub fn absorb(&mut self, page: Vec<Entry>, next: Option<String>)
        requires
            !old(self)@.done,
        ensures
            final(self)@.entries == old(self)@.entries + page.deep_view(),
            final(self)@.done == (next is None),
            final(self)@.token == next.deep_view(),
    {
        let ghost prev = self@.entries;
        let ghost pdv = page.deep_view();
        let mut page = page;
        self.entries.append(&mut page);
        self.done = next.is_none();
        self.token = next;
        proof {
            assert(self@.entries =~= prev + pdv);
        }
    }

    /// Hand out the accumulated entries once the listing is complete.
    pub fn into_entries(self) -> (v: Vec<Entry>)
        requires
            self@.done,
        ensures
            v.deep_view() == self@.entries,
    {
        self.entries
    }
}

} // verus!
