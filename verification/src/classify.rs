use vstd::prelude::*;
use vstd::string::StrSliceExecFns;
use vstd::string::StringExecFns;
use crate::entry::Entry;

verus! {

/// A decimal digit in the sense of the stale-grant rule; 48 and 57 are the
/// code points of `'0'` and `'9'`.
pub open spec fn is_decimal_digit(c: char) -> bool {
    48 <= c as u32 && c as u32 <= 57
}

/// The literal identifier that marks a file as publicly link-shared.
pub open spec fn public_share_token() -> Seq<char> {
    "anyoneWithLink"@
}

/// Public-share predicate: the identifier equals the literal `anyoneWithLink`.
pub open spec fn is_public_share_id(id: Seq<char>) -> bool {
    id == public_share_token()
}

/// Stale-grant predicate: the identifier ends in `k` and every character
/// before the final one is a decimal digit. The identifier `k` alone has an
/// empty prefix, which counts as all-numeric vacuously; that edge case is the
/// deployed revocation rule and is kept deliberately.
pub open spec fn is_stale_grant_id(id: Seq<char>) -> bool {
    &&& id.len() > 0
    &&& id.last() == 'k'
    &&& forall|t: int| 0 <= t < id.len() - 1 ==> is_decimal_digit(#[trigger] id[t])
}

/// Whether some identifier in the sequence marks the file as publicly shared.
pub open spec fn has_public_share(ids: Seq<Seq<char>>) -> bool {
    exists|i: int| 0 <= i < ids.len() && is_public_share_id(#[trigger] ids[i])
}

/// Mathematical image of a [`Deletion`].
pub ghost struct DeletionV {
    pub file_id: Seq<char>,
    pub permission_id: Seq<char>,
}

/// One permission-deletion call owed to the gateway: revoke the grant
/// `permission_id` on the file `file_id`.
pub struct Deletion {
    pub file_id: String,
    pub permission_id: String,
}

impl View for Deletion {
    type V = DeletionV;

    open spec fn view(&self) -> DeletionV {
        DeletionV { file_id: self.file_id@, permission_id: self.permission_id@ }
    }
}

impl DeepView for Deletion {
    type V = DeletionV;

    open spec fn deep_view(&self) -> DeletionV {
        self.view()
    }
}

/// The deletion calls owed for one file: one per identifier matching the
/// stale-grant predicate, in the identifier list's order.
pub open spec fn deletions_for(file_id: Seq<char>, ids: Seq<Seq<char>>) -> Seq<DeletionV>
    decreases ids.len(),
{
    if ids.len() == 0 {
        Seq::empty()
    } else {
        let rest = deletions_for(file_id, ids.drop_last());
        if is_stale_grant_id(ids.last()) {
            rest.push(DeletionV { file_id, permission_id: ids.last() })
        } else {
            rest
        }
    }
}

/// Outcome of classifying one entry: the public-shared flag, and the ordered
/// deletion calls that the cleanup owes the gateway before the result may be
/// returned to the caller.
pub struct Classification {
    pub shared: bool,
    pub deletions: Vec<Deletion>,
}

/// Decides the stale-grant predicate for one permission identifier.
pub fn is_stale_grant(id: &str) -> (r: bool)
    ensures
        r == is_stale_grant_id(id@),
{
    let n = id.unicode_len();
    if n == 0 {
        return false;
    }
    let last = id.get_char(n - 1);
    if last != 'k' {
        return false;
    }
    let mut all_numeric = true;
    let m = n - 1;
    for t in 0..m
        invariant
            m == n - 1,
            n == id@.len(),
            all_numeric == (forall|u: int| 0 <= u < t ==> is_decimal_digit(#[trigger] id@[u])),
    {
        let c = id.get_char(t);
        let code = c as u32;
        if !(48 <= code && code <= 57) {
            all_numeric = false;
        }
    }
    all_numeric
}

/// Classify one entry from its embedded permission identifiers: report
/// whether it is publicly link-shared, and list, in identifier order, the
/// deletion calls owed for identifiers matching the stale-grant predicate.
/// The function itself is pure; issuing the deletions (and aborting the whole
/// classification on the first failure) is the driver's part.
pub fn classify(entry: &Entry) -> (r: Classification)
    ensures
        r.shared == has_public_share(entry@.permission_ids),
        r.deletions.deep_view() == deletions_for(entry@.id, entry@.permission_ids),
{
    let mut shared = false;
    let mut deletions: Vec<Deletion> = Vec::new();
    match &entry.permission_ids {
        None => {
            proof {
                assert(entry@.permission_ids =~= Seq::<Seq<char>>::empty());
                assert(deletions.deep_view() =~= Seq::<DeletionV>::empty());
            }
            Classification { shared, deletions }
        },
        Some(ids) => {
            let ghost dv: Seq<Seq<char>> = ids.deep_view();
            let ghost fid: Seq<char> = entry@.id;
            let token: String = String::from_str("anyoneWithLink");
            let n = ids.len();
            assert(deletions.deep_view() =~= deletions_for(fid, dv.take(0)));
            for j in 0..n
                invariant
                    n == ids.len(),
                    dv == ids.deep_view(),
                    fid == entry@.id,
                    token@ == "anyoneWithLink"@,
                    shared == has_public_share(dv.take(j as int)),
                    deletions.deep_view() == deletions_for(fid, dv.take(j as int)),
            {
                let ghost prev_dels = deletions.deep_view();
                let id = &ids[j];
                assert(id@ == dv[j as int]);
                if is_stale_grant(id.as_str()) {
                    deletions.push(
                        Deletion { file_id: entry.id.clone(), permission_id: id.clone() },
                    );
                    proof {
                        assert(deletions.deep_view() =~= prev_dels.push(
                            DeletionV { file_id: fid, permission_id: dv[j as int] },
                        ));
                    }
                }
                if *id == token {
                    shared = true;
                }
                proof {
                    assert(dv.take(j + 1).drop_last() =~= dv.take(j as int));
                    assert(dv.take(j + 1).last() == dv[j as int]);
                    if !is_public_share_id(dv[j as int]) {
                        assert(has_public_share(dv.take(j + 1)) == has_public_share(
                            dv.take(j as int),
                        )) by {
                            if has_public_share(dv.take(j + 1)) {
                                let i = choose|i: int|
                                    0 <= i < dv.take(j + 1).len() && is_public_share_id(
                                        #[trigger] dv.take(j + 1)[i],
                                    );
                                assert(i < j);
                                assert(is_public_share_id(dv.take(j as int)[i]));
                            }
                            if has_public_share(dv.take(j as int)) {
                                let i = choose|i: int|
                                    0 <= i < dv.take(j as int).len() && is_public_share_id(
                                        #[trigger] dv.take(j as int)[i],
                                    );
                                assert(is_public_share_id(dv.take(j + 1)[i]));
                            }
                        }
                    } else {
                        assert(is_public_share_id(dv.take(j + 1)[j as int]));
                    }
                }
            }
            proof {
                assert(dv.take(n as int) =~= dv);
            }
            Classification { shared, deletions }
        },
    }
}

/// An entry with no permission identifiers is never shared and owes no
/// deletion: classification of the empty identifier sequence is trivial.
pub proof fn lemma_no_identifiers(file_id: Seq<char>)
    ensures
        !has_public_share(Seq::empty()),
        deletions_for(file_id, Seq::empty()) == Seq::<DeletionV>::empty(),
{
}

/// An identifier sequence that contains the public-share token, and nothing
/// matching the stale-grant pattern, classifies as shared with zero deletions
/// owed.
pub proof fn lemma_public_share_only(file_id: Seq<char>, ids: Seq<Seq<char>>)
    requires
        exists|i: int| 0 <= i < ids.len() && is_public_share_id(#[trigger] ids[i]),
        forall|i: int| 0 <= i < ids.len() ==> !is_stale_grant_id(#[trigger] ids[i]),
    ensures
        has_public_share(ids),
        deletions_for(file_id, ids) == Seq::<DeletionV>::empty(),
{
    lemma_no_stale_no_deletions(file_id, ids);
}

/// No identifier matching the stale-grant pattern, no deletions owed.
pub proof fn lemma_no_stale_no_deletions(file_id: Seq<char>, ids: Seq<Seq<char>>)
    requires
        forall|i: int| 0 <= i < ids.len() ==> !is_stale_grant_id(#[trigger] ids[i]),
    ensures
        deletions_for(file_id, ids) == Seq::<DeletionV>::empty(),
    decreases ids.len(),
{
    if ids.len() > 0 {
        assert(!is_stale_grant_id(ids[ids.len() - 1]));
        lemma_no_stale_no_deletions(file_id, ids.drop_last());
    }
}

} // verus!
