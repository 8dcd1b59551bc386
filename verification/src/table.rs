//! The in-memory model of the persisted mapping table: a row set whose two
//! columns are each duplicate-free, with the insert-or-replace, delete,
//! count, clear and resolution operations the service performs on it.

use vstd::prelude::*;

use crate::engine::{
    batch_outcome, cols_unique, entries_nonempty, row_views, batch_outcomes, resolve_rows,
    Mapping, MappingView, Outcome, resolve_spec,
};
use crate::errors::BatchError;

verus! {

/// What insert-or-replace leaves behind: every row sharing either value is
/// replaced by the new pair, which is appended.
pub open spec fn upsert_spec(
    rows: Seq<MappingView>,
    uid: Seq<char>,
    phone_number: Seq<char>,
) -> Seq<MappingView> {
    rows.filter(|m: MappingView| m.uid != uid && m.phone_number != phone_number).push(
        MappingView { uid, phone_number },
    )
}

/// What deleting an identifier leaves behind: every row with the identifier
/// in either column is gone.
pub open spec fn remove_spec(rows: Seq<MappingView>, id: Seq<char>) -> Seq<MappingView> {
    rows.filter(|m: MappingView| m.uid != id && m.phone_number != id)
}

proof fn lemma_cols_unique_push(f: Seq<MappingView>, x: MappingView)
    requires
        cols_unique(f),
        forall|i: int|
            0 <= i < f.len() ==> (#[trigger] f[i]).uid != x.uid && f[i].phone_number
                != x.phone_number,
    ensures
        cols_unique(f.push(x)),
{
    assert forall|i: int, j: int| 0 <= i < j < f.push(x).len() implies (#[trigger] f.push(x)[i]).uid
        != (#[trigger] f.push(x)[j]).uid && f.push(x)[i].phone_number
        != f.push(x)[j].phone_number by {
        assert(f.push(x)[i] == f[i]);
        if j < f.len() {
            assert(f.push(x)[j] == f[j]);
        } else {
            assert(f.push(x)[j] == x);
        }
    }
}

/// Filtering a well-formed row set keeps both table invariants.
proof fn lemma_filter_keeps_invariants(rows: Seq<MappingView>, pred: spec_fn(MappingView) -> bool)
    requires
        cols_unique(rows),
        entries_nonempty(rows),
    ensures
        cols_unique(rows.filter(pred)),
        entries_nonempty(rows.filter(pred)),
    decreases rows.len(),
{
    reveal(Seq::filter);
    broadcast use vstd::seq_lib::group_filter_ensures;

    if rows.len() == 0 {
        assert(rows.filter(pred) =~= Seq::<MappingView>::empty());
    } else {
        let d = rows.drop_last();
        assert forall|i: int, j: int| 0 <= i < j < d.len() implies (#[trigger] d[i]).uid != (
        #[trigger] d[j]).uid && d[i].phone_number != d[j].phone_number by {
            assert(d[i] == rows[i]);
            assert(d[j] == rows[j]);
        }
        assert forall|i: int| 0 <= i < d.len() implies (#[trigger] d[i]).uid.len() > 0
            && d[i].phone_number.len() > 0 by {
            assert(d[i] == rows[i]);
        }
        lemma_filter_keeps_invariants(d, pred);
        let fd = d.filter(pred);
        if pred(rows.last()) {
            assert(rows.filter(pred) == fd.push(rows.last()));
            assert forall|i: int| 0 <= i < fd.len() implies (#[trigger] fd[i]).uid
                != rows.last().uid && fd[i].phone_number != rows.last().phone_number by {
                assert(fd.contains(fd[i]));
                d.lemma_filter_contains_rev(pred, fd[i]);
                let k = choose|k: int| 0 <= k < d.len() && d[k] == fd[i];
                assert(rows[k] == d[k]);
                assert(rows.last() == rows[rows.len() - 1]);
            }
            lemma_cols_unique_push(fd, rows.last());
            assert forall|i: int| 0 <= i < fd.push(rows.last()).len() implies (#[trigger] fd.push(
                rows.last(),
            )[i]).uid.len() > 0 && fd.push(rows.last())[i].phone_number.len() > 0 by {
                if i < fd.len() {
                    assert(fd.push(rows.last())[i] == fd[i]);
                } else {
                    assert(fd.push(rows.last())[i] == rows.last());
                    assert(rows.last() == rows[rows.len() - 1]);
                }
            }
        } else {
            assert(rows.filter(pred) == fd);
        }
    }
}

/// A filter that keeps every element keeps the sequence.
proof fn lemma_filter_all_kept(s: Seq<MappingView>, pred: spec_fn(MappingView) -> bool)
    requires
        forall|i: int| 0 <= i < s.len() ==> pred(#[trigger] s[i]),
    ensures
        s.filter(pred) == s,
    decreases s.len(),
{
    reveal(Seq::filter);
    if s.len() > 0 {
        assert forall|i: int| 0 <= i < s.drop_last().len() implies pred(
            #[trigger] s.drop_last()[i],
        ) by {
            assert(s.drop_last()[i] == s[i]);
        }
        lemma_filter_all_kept(s.drop_last(), pred);
        assert(s.last() == s[s.len() - 1]);
        assert(s.drop_last().push(s.last()) =~= s);
    } else {
        assert(s.filter(pred) =~= s);
    }
}

/// After an upsert the new pair stands as the last row, and no other row
/// carries its uid or its phone number: each column holds the upserted value
/// exactly once.
pub proof fn lemma_upsert_shape(rows: Seq<MappingView>, uid: Seq<char>, phone_number: Seq<char>)
    ensures
        upsert_spec(rows, uid, phone_number).len() >= 1,
        upsert_spec(rows, uid, phone_number).last() == (MappingView { uid, phone_number }),
        forall|i: int|
            0 <= i < upsert_spec(rows, uid, phone_number).len() - 1 ==> (#[trigger] upsert_spec(
                rows,
                uid,
                phone_number,
            )[i]).uid != uid && upsert_spec(rows, uid, phone_number)[i].phone_number
                != phone_number,
{
    broadcast use vstd::seq_lib::group_filter_ensures;

    let pred = |m: MappingView| m.uid != uid && m.phone_number != phone_number;
    let f = rows.filter(pred);
    let up = upsert_spec(rows, uid, phone_number);
    assert forall|i: int| 0 <= i < up.len() - 1 implies (#[trigger] up[i]).uid != uid
        && up[i].phone_number != phone_number by {
        assert(up[i] == f[i]);
        assert(pred(f[i]));
    }
}

/// Upserting the same pair twice leaves exactly what one upsert leaves: in
/// particular, one row holds the pair, not two.
pub proof fn lemma_upsert_idempotent(
    rows: Seq<MappingView>,
    uid: Seq<char>,
    phone_number: Seq<char>,
)
    ensures
        upsert_spec(upsert_spec(rows, uid, phone_number), uid, phone_number) == upsert_spec(
            rows,
            uid,
            phone_number,
        ),
{
    broadcast use vstd::seq_lib::group_filter_ensures;

    let pred = |m: MappingView| m.uid != uid && m.phone_number != phone_number;
    let mv = MappingView { uid, phone_number };
    let f = rows.filter(pred);
    f.lemma_filter_push(mv, pred);
    assert forall|i: int| 0 <= i < f.len() implies pred(#[trigger] f[i]) by {}
    lemma_filter_all_kept(f, pred);
}

/// Upserting `(uid, p_new)` over a table that held `(uid, p_old)` replaces
/// the pairing: no row holds the old pair any more.
pub proof fn lemma_upsert_replaces(
    rows: Seq<MappingView>,
    uid: Seq<char>,
    p_old: Seq<char>,
    p_new: Seq<char>,
)
    requires
        p_old != p_new,
    ensures
        forall|i: int|
            0 <= i < upsert_spec(rows, uid, p_new).len() ==> #[trigger] upsert_spec(
                rows,
                uid,
                p_new,
            )[i] != (MappingView { uid, phone_number: p_old }),
{
    lemma_upsert_shape(rows, uid, p_new);
    let up = upsert_spec(rows, uid, p_new);
    assert forall|i: int| 0 <= i < up.len() implies #[trigger] up[i] != (MappingView {
        uid,
        phone_number: p_old,
    }) by {
        if i == up.len() - 1 {
            assert(up[i] == up.last());
        }
    }
}

/// The in-memory mapping table. Both columns are duplicate-free and no
/// stored value is empty; the store is private so every mutation goes
/// through the verified operations.
pub struct MappingTable {
    rows: Vec<Mapping>,
}

impl View for MappingTable {
    type V = Seq<MappingView>;

    closed spec fn view(&self) -> Seq<MappingView> {
        row_views(self.rows@)
    }
}

impl MappingTable {
    /// The table invariant: unique columns, nonempty values.
    pub open spec fn wf(&self) -> bool {
        cols_unique(self@) && entries_nonempty(self@)
    }

    pub fn new() -> (t: Self)
        ensures
            t@ =~= Seq::<MappingView>::empty(),
            t.wf(),
    {
        MappingTable { rows: Vec::new() }
    }

    /// The number of stored rows.
    pub fn len(&self) -> (n: usize)
        ensures
            n == self@.len(),
    {
        self.rows.len()
    }

    /// Insert-or-replace keyed on both columns: any row holding `uid` or
    /// `phone_number` is replaced, so each column stays duplicate-free.
    #[verifier::loop_isolation(false)]
    pub fn upsert(&mut self, uid: String, phone_number: String)
        requires
            old(self).wf(),
            uid@.len() > 0,
            phone_number@.len() > 0,
        ensures
            final(self)@ == upsert_spec(old(self)@, uid@, phone_number@),
            final(self).wf(),
    {
        let ghost u = uid@;
        let ghost pn = phone_number@;
        let ghost pred = |m: MappingView| m.uid != u && m.phone_number != pn;
        let ghost v = row_views(self.rows@);
        let mut kept: Vec<Mapping> = Vec::new();
        let n = self.rows.len();
        let mut i: usize = 0;
        proof {
            assert(v.take(0) =~= Seq::<MappingView>::empty());
            assert(v.take(0).filter(pred) =~= Seq::<MappingView>::empty());
        }
        while i < n
            invariant
                i <= n,
                n == self.rows@.len(),
                v == row_views(self.rows@),
                row_views(kept@) == v.take(i as int).filter(pred),
            decreases n - i,
        {
            proof {
                assert(v.take(i + 1) =~= v.take(i as int).push(v[i as int]));
                assert(v[i as int].uid == self.rows@[i as int].uid@);
                assert(v[i as int].phone_number == self.rows@[i as int].phone_number@);
                v.take(i as int).lemma_filter_push(v[i as int], pred);
            }
            if !(self.rows[i].uid == uid || self.rows[i].phone_number == phone_number) {
                let row = Mapping {
                    uid: self.rows[i].uid.clone(),
                    phone_number: self.rows[i].phone_number.clone(),
                };
                let ghost kb = row_views(kept@);
                kept.push(row);
                proof {
                    assert(pred(v[i as int]));
                    assert(row_views(kept@) =~= kb.push(v[i as int]));
                }
            } else {
                proof {
                    assert(!pred(v[i as int]));
                }
            }
            i = i + 1;
        }
        proof {
            assert(v.take(n as int) =~= v);
            lemma_filter_keeps_invariants(v, pred);
        }
        let ghost before_push = row_views(kept@);
        kept.push(Mapping { uid, phone_number });
        proof {
            assert(row_views(kept@) =~= before_push.push(
                MappingView { uid: uid@, phone_number: phone_number@ },
            ));
            assert forall|k: int| 0 <= k < before_push.len() implies (
            #[trigger] before_push[k]).uid != uid@ && before_push[k].phone_number
                != phone_number@ by {
                broadcast use vstd::seq_lib::group_filter_ensures;

                assert(before_push[k] == v.filter(pred)[k]);
            }
            lemma_cols_unique_push(before_push, MappingView { uid: uid@, phone_number: phone_number@ });
        }
        self.rows = kept;
    }

    /// Delete every row holding `id` in either column; the count removed is
    /// returned, as the storage layer reports it.
    #[verifier::loop_isolation(false)]
    pub fn delete(&mut self, id: &String) -> (removed: usize)
        requires
            old(self).wf(),
        ensures
            final(self)@ == remove_spec(old(self)@, id@),
            final(self).wf(),
            removed == old(self)@.len() - final(self)@.len(),
    {
        let ghost idv = id@;
        let ghost pred = |m: MappingView| m.uid != idv && m.phone_number != idv;
        let ghost v = row_views(self.rows@);
        let mut kept: Vec<Mapping> = Vec::new();
        let n = self.rows.len();
        let mut i: usize = 0;
        proof {
            assert(v.take(0) =~= Seq::<MappingView>::empty());
            assert(v.take(0).filter(pred) =~= Seq::<MappingView>::empty());
        }
        while i < n
            invariant
                i <= n,
                n == self.rows@.len(),
                v == row_views(self.rows@),
                row_views(kept@) == v.take(i as int).filter(pred),
            decreases n - i,
        {
            proof {
                assert(v.take(i + 1) =~= v.take(i as int).push(v[i as int]));
                assert(v[i as int].uid == self.rows@[i as int].uid@);
                assert(v[i as int].phone_number == self.rows@[i as int].phone_number@);
                v.take(i as int).lemma_filter_push(v[i as int], pred);
            }
            if !(self.rows[i].uid == *id || self.rows[i].phone_number == *id) {
                let row = Mapping {
                    uid: self.rows[i].uid.clone(),
                    phone_number: self.rows[i].phone_number.clone(),
                };
                let ghost kb = row_views(kept@);
                kept.push(row);
                proof {
                    assert(pred(v[i as int]));
                    assert(row_views(kept@) =~= kb.push(v[i as int]));
                }
            } else {
                proof {
                    assert(!pred(v[i as int]));
                }
            }
            i = i + 1;
        }
        proof {
            assert(v.take(n as int) =~= v);
            lemma_filter_keeps_invariants(v, pred);
            v.lemma_filter_len(pred);
        }
        let removed = n - kept.len();
        self.rows = kept;
        removed
    }

    /// Remove every row; the count removed is returned.
    pub fn clear(&mut self) -> (removed: usize)
        ensures
            final(self)@ =~= Seq::<MappingView>::empty(),
            final(self).wf(),
            removed == old(self)@.len(),
    {
        let removed = self.rows.len();
        self.rows = Vec::new();
        removed
    }

    /// Resolve one identifier against the stored rows: the uid column is
    /// consulted first, then the phone column.
    pub fn resolve(&self, id: &String) -> (r: Outcome)
        ensures
            r@ == resolve_spec(self@, id@),
    {
        resolve_rows(&self.rows, id)
    }

    /// Resolve a batch of identifiers in one pass. A batch above `limit` is
    /// rejected before any lookup; an empty batch yields an empty result.
    pub fn resolve_batch(&self, ids: &Vec<String>, limit: u32) -> (r: Result<
        Vec<Outcome>,
        BatchError,
    >)
        ensures
            ids@.len() > limit ==> r == Err::<Vec<Outcome>, BatchError>(BatchError::TooLarge),
            ids@.len() <= limit ==> (r matches Ok(out) && out@.len() == ids@.len() && (forall|
                i: int,
            |
                0 <= i < ids@.len() ==> (#[trigger] out@[i])@ == batch_outcome(self@, ids@[i]@))),
    {
        if (ids.len() as u64) > (limit as u64) {
            return Err(BatchError::TooLarge);
        }
        Ok(batch_outcomes(&self.rows, ids))
    }
}

} // verus!
