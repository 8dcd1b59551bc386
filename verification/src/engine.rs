//! The resolution engine: given one identifier, decide whether it names the
//! uid column or the phone column of the mapping table and return the paired
//! value; and the batch variant, which resolves many identifiers against one
//! fetched row set, preserving input order.

use vstd::prelude::*;

verus! {

/// One persisted (uid, phone number) association.
#[derive(Debug, Clone, PartialEq, Eq)]
pub struct Mapping {
    pub uid: String,
    pub phone_number: String,
}

/// The mathematical shadow of a `Mapping`.
pub struct MappingView {
    pub uid: Seq<char>,
    pub phone_number: Seq<char>,
}

impl View for Mapping {
    type V = MappingView;

    open spec fn view(&self) -> MappingView {
        MappingView { uid: self.uid@, phone_number: self.phone_number@ }
    }
}

/// The views of a fetched row set.
pub open spec fn row_views(rows: Seq<Mapping>) -> Seq<MappingView> {
    rows.map_values(|m: Mapping| m@)
}

/// The tagged result of one resolution attempt.
#[derive(Debug, Clone, PartialEq, Eq)]
pub enum Outcome {
    FoundByUid { uid: String, phone_number: String },
    FoundByPhone { uid: String, phone_number: String },
    NotFound,
}

/// The mathematical shadow of an `Outcome`.
pub enum OutcomeView {
    FoundByUid { uid: Seq<char>, phone_number: Seq<char> },
    FoundByPhone { uid: Seq<char>, phone_number: Seq<char> },
    NotFound,
}

impl View for Outcome {
    type V = OutcomeView;

    open spec fn view(&self) -> OutcomeView {
        match self {
            Outcome::FoundByUid { uid, phone_number } => OutcomeView::FoundByUid {
                uid: uid@,
                phone_number: phone_number@,
            },
            Outcome::FoundByPhone { uid, phone_number } => OutcomeView::FoundByPhone {
                uid: uid@,
                phone_number: phone_number@,
            },
            Outcome::NotFound => OutcomeView::NotFound,
        }
    }
}

impl Outcome {
    /// Whether the resolution hit a stored row.
    pub fn is_found(&self) -> (r: bool)
        ensures
            r == !(self@ is NotFound),
    {
        match self {
            Outcome::NotFound => false,
            _ => true,
        }
    }

    /// The status word the service reports for this outcome.
    pub fn status_label(&self) -> (r: &'static str)
        ensures
            self@ is FoundByUid ==> r@ == "found_by_uid"@,
            self@ is FoundByPhone ==> r@ == "found_by_phone"@,
            self@ is NotFound ==> r@ == "not_found"@,
    {
        match self {
            Outcome::FoundByUid { .. } => "found_by_uid",
            Outcome::FoundByPhone { .. } => "found_by_phone",
            Outcome::NotFound => "not_found",
        }
    }
}

/// The first row whose uid column is `id`.
pub open spec fn find_by_uid(rows: Seq<MappingView>, id: Seq<char>) -> Option<MappingView>
    decreases rows.len(),
{
    if rows.len() == 0 {
        None
    } else if rows.first().uid == id {
        Some(rows.first())
    } else {
        find_by_uid(rows.drop_first(), id)
    }
}

/// The first row whose phone column is `id`.
pub open spec fn find_by_phone(rows: Seq<MappingView>, id: Seq<char>) -> Option<MappingView>
    decreases rows.len(),
{
    if rows.len() == 0 {
        None
    } else if rows.first().phone_number == id {
        Some(rows.first())
    } else {
        find_by_phone(rows.drop_first(), id)
    }
}

/// Single resolution: the uid column is consulted first, then the phone
/// column; a miss on both is `NotFound`.
pub open spec fn resolve_spec(rows: Seq<MappingView>, id: Seq<char>) -> OutcomeView {
    match find_by_uid(rows, id) {
        Some(m) => OutcomeView::FoundByUid { uid: m.uid, phone_number: m.phone_number },
        None => match find_by_phone(rows, id) {
            Some(m) => OutcomeView::FoundByPhone { uid: m.uid, phone_number: m.phone_number },
            None => OutcomeView::NotFound,
        },
    }
}

/// The outcome one row yields for `id` in the batch index, where the phone
/// role is recorded after the uid role and therefore wins a tie.
pub open spec fn row_outcome(m: MappingView, id: Seq<char>) -> OutcomeView {
    if m.phone_number == id {
        OutcomeView::FoundByPhone { uid: m.uid, phone_number: m.phone_number }
    } else {
        OutcomeView::FoundByUid { uid: m.uid, phone_number: m.phone_number }
    }
}

/// The batch index consulted for `id`: every row writes both of its values
/// into the index in order, so the last matching row wins.
pub open spec fn batch_hit(rows: Seq<MappingView>, id: Seq<char>) -> Option<OutcomeView>
    decreases rows.len(),
{
    if rows.len() == 0 {
        None
    } else if rows.last().uid == id || rows.last().phone_number == id {
        Some(row_outcome(rows.last(), id))
    } else {
        batch_hit(rows.drop_last(), id)
    }
}

/// The outcome the batch resolver yields for one identifier.
pub open spec fn batch_outcome(rows: Seq<MappingView>, id: Seq<char>) -> OutcomeView {
    match batch_hit(rows, id) {
        Some(o) => o,
        None => OutcomeView::NotFound,
    }
}

/// The batch resolver's result: one outcome per input, in input order.
pub open spec fn batch_outcomes_spec(rows: Seq<MappingView>, ids: Seq<Seq<char>>) -> Seq<
    OutcomeView,
> {
    Seq::new(ids.len(), |i: int| batch_outcome(rows, ids[i]))
}

/// No identifier appears in the uid column of more than one row, nor in the
/// phone column of more than one row.
pub open spec fn cols_unique(rows: Seq<MappingView>) -> bool {
    forall|i: int, j: int|
        0 <= i < j < rows.len() ==> (#[trigger] rows[i]).uid != (#[trigger] rows[j]).uid
            && rows[i].phone_number != rows[j].phone_number
}

/// The identifier does not play both roles in the row set: it is not at once
/// the uid of some row and the phone number of some row. Where a value does
/// play both, which role answers is the batch index's tie-break, which the
/// stored-data invariant leaves open.
pub open spec fn unambiguous_for(rows: Seq<MappingView>, id: Seq<char>) -> bool {
    !((exists|i: int| 0 <= i < rows.len() && (#[trigger] rows[i]).uid == id) && (exists|j: int|
        0 <= j < rows.len() && (#[trigger] rows[j]).phone_number == id))
}

/// Both columns of every row are nonempty.
pub open spec fn entries_nonempty(rows: Seq<MappingView>) -> bool {
    forall|i: int|
        0 <= i < rows.len() ==> (#[trigger] rows[i]).uid.len() > 0 && rows[i].phone_number.len()
            > 0
}

pub proof fn lemma_find_by_uid_props(rows: Seq<MappingView>, id: Seq<char>)
    ensures
        find_by_uid(rows, id) is None <==> (forall|i: int|
            0 <= i < rows.len() ==> (#[trigger] rows[i]).uid != id),
        find_by_uid(rows, id) matches Some(m) ==> m.uid == id && rows.contains(m),
    decreases rows.len(),
{
    if rows.len() > 0 {
        lemma_find_by_uid_props(rows.drop_first(), id);
        if find_by_uid(rows, id) is None {
            assert forall|i: int| 0 <= i < rows.len() implies (#[trigger] rows[i]).uid != id by {
                if i > 0 {
                    assert(rows.drop_first()[i - 1] == rows[i]);
                } else {
                    assert(rows[0] == rows.first());
                }
            }
        }
        if forall|i: int| 0 <= i < rows.len() ==> (#[trigger] rows[i]).uid != id {
            assert forall|i: int| 0 <= i < rows.drop_first().len() implies (
            #[trigger] rows.drop_first()[i]).uid != id by {
                assert(rows.drop_first()[i] == rows[i + 1]);
            }
            assert(rows.first() == rows[0]);
        }
        if find_by_uid(rows, id) is Some {
            let m = find_by_uid(rows, id)->Some_0;
            if rows.first().uid == id {
                assert(rows[0] == m);
            } else {
                let i = choose|i: int|
                    0 <= i < rows.drop_first().len() && rows.drop_first()[i] == m;
                assert(rows[i + 1] == m);
            }
        }
    }
}

pub proof fn lemma_find_by_phone_props(rows: Seq<MappingView>, id: Seq<char>)
    ensures
        find_by_phone(rows, id) is None <==> (forall|i: int|
            0 <= i < rows.len() ==> (#[trigger] rows[i]).phone_number != id),
        find_by_phone(rows, id) matches Some(m) ==> m.phone_number == id && rows.contains(m),
    decreases rows.len(),
{
    if rows.len() > 0 {
        lemma_find_by_phone_props(rows.drop_first(), id);
        if find_by_phone(rows, id) is None {
            assert forall|i: int| 0 <= i < rows.len() implies (#[trigger] rows[i]).phone_number
                != id by {
                if i > 0 {
                    assert(rows.drop_first()[i - 1] == rows[i]);
                } else {
                    assert(rows[0] == rows.first());
                }
            }
        }
        if forall|i: int| 0 <= i < rows.len() ==> (#[trigger] rows[i]).phone_number != id {
            assert forall|i: int| 0 <= i < rows.drop_first().len() implies (
            #[trigger] rows.drop_first()[i]).phone_number != id by {
                assert(rows.drop_first()[i] == rows[i + 1]);
            }
            assert(rows.first() == rows[0]);
        }
        if find_by_phone(rows, id) is Some {
            let m = find_by_phone(rows, id)->Some_0;
            if rows.first().phone_number == id {
                assert(rows[0] == m);
            } else {
                let i = choose|i: int|
                    0 <= i < rows.drop_first().len() && rows.drop_first()[i] == m;
                assert(rows[i + 1] == m);
            }
        }
    }
}

/// The first matching index decides `find_by_uid`.
pub proof fn lemma_find_by_uid_first(rows: Seq<MappingView>, id: Seq<char>, i: int)
    requires
        0 <= i < rows.len(),
        rows[i].uid == id,
        forall|j: int| 0 <= j < i ==> (#[trigger] rows[j]).uid != id,
    ensures
        find_by_uid(rows, id) == Some(rows[i]),
    decreases i,
{
    if i > 0 {
        assert(rows.drop_first()[i - 1] == rows[i]);
        assert forall|j: int| 0 <= j < i - 1 implies (#[trigger] rows.drop_first()[j]).uid
            != id by {
            assert(rows.drop_first()[j] == rows[j + 1]);
        }
        lemma_find_by_uid_first(rows.drop_first(), id, i - 1);
    }
}

/// The first matching index decides `find_by_phone`.
pub proof fn lemma_find_by_phone_first(rows: Seq<MappingView>, id: Seq<char>, i: int)
    requires
        0 <= i < rows.len(),
        rows[i].phone_number == id,
        forall|j: int| 0 <= j < i ==> (#[trigger] rows[j]).phone_number != id,
    ensures
        find_by_phone(rows, id) == Some(rows[i]),
    decreases i,
{
    if i > 0 {
        assert(rows.drop_first()[i - 1] == rows[i]);
        assert forall|j: int| 0 <= j < i - 1 implies (#[trigger] rows.drop_first()[j]).phone_number
            != id by {
            assert(rows.drop_first()[j] == rows[j + 1]);
        }
        lemma_find_by_phone_first(rows.drop_first(), id, i - 1);
    }
}

pub proof fn lemma_batch_hit_none_iff(rows: Seq<MappingView>, id: Seq<char>)
    ensures
        batch_hit(rows, id) is None <==> (forall|i: int|
            0 <= i < rows.len() ==> (#[trigger] rows[i]).uid != id && rows[i].phone_number != id),
    decreases rows.len(),
{
    if rows.len() > 0 {
        lemma_batch_hit_none_iff(rows.drop_last(), id);
        if batch_hit(rows, id) is None {
            assert forall|i: int| 0 <= i < rows.len() implies (#[trigger] rows[i]).uid != id
                && rows[i].phone_number != id by {
                if i < rows.len() - 1 {
                    assert(rows.drop_last()[i] == rows[i]);
                } else {
                    assert(rows[i] == rows.last());
                }
            }
        }
        if forall|i: int|
            0 <= i < rows.len() ==> (#[trigger] rows[i]).uid != id && rows[i].phone_number
                != id {
            assert forall|i: int| 0 <= i < rows.drop_last().len() implies (
            #[trigger] rows.drop_last()[i]).uid != id && rows.drop_last()[i].phone_number
                != id by {
                assert(rows.drop_last()[i] == rows[i]);
            }
            assert(rows.last() == rows[rows.len() - 1]);
        }
    }
}

/// When exactly one row matches `id` in either column, the batch index holds
/// that row's outcome for `id`.
pub proof fn lemma_batch_hit_single(rows: Seq<MappingView>, id: Seq<char>, i: int)
    requires
        0 <= i < rows.len(),
        rows[i].uid == id || rows[i].phone_number == id,
        forall|j: int|
            0 <= j < rows.len() && j != i ==> (#[trigger] rows[j]).uid != id
                && rows[j].phone_number != id,
    ensures
        batch_hit(rows, id) == Some(row_outcome(rows[i], id)),
    decreases rows.len(),
{
    if i < rows.len() - 1 {
        assert(rows.drop_last()[i] == rows[i]);
        assert forall|j: int| 0 <= j < rows.drop_last().len() && j != i implies (
        #[trigger] rows.drop_last()[j]).uid != id && rows.drop_last()[j].phone_number != id by {
            assert(rows.drop_last()[j] == rows[j]);
        }
        lemma_batch_hit_single(rows.drop_last(), id, i);
    }
}

/// Whatever the row set, a uid hit reports the queried identifier as the uid
/// and a phone hit reports it as the phone number.
pub proof fn lemma_batch_outcome_shape(rows: Seq<MappingView>, id: Seq<char>)
    ensures
        batch_outcome(rows, id) matches OutcomeView::FoundByUid { uid, .. } ==> uid == id,
        batch_outcome(rows, id) matches OutcomeView::FoundByPhone { phone_number, .. }
            ==> phone_number == id,
    decreases rows.len(),
{
    if rows.len() > 0 {
        lemma_batch_outcome_shape(rows.drop_last(), id);
    }
}

/// Consulting the batch index agrees with single resolution for every
/// identifier that the stored data holds unambiguously: each column is
/// duplicate-free and the identifier does not play both roles.
pub proof fn lemma_batch_matches_resolve(rows: Seq<MappingView>, id: Seq<char>)
    requires
        cols_unique(rows),
        unambiguous_for(rows, id),
    ensures
        batch_outcome(rows, id) == resolve_spec(rows, id),
{
    lemma_find_by_uid_props(rows, id);
    lemma_find_by_phone_props(rows, id);
    lemma_batch_hit_none_iff(rows, id);
    if exists|i: int| 0 <= i < rows.len() && (#[trigger] rows[i]).uid == id {
        let i = choose|i: int| 0 <= i < rows.len() && (#[trigger] rows[i]).uid == id;
        assert forall|j: int| 0 <= j < rows.len() implies (#[trigger] rows[j]).phone_number
            != id by {
            if rows[j].phone_number == id {
                assert(exists|j2: int|
                    0 <= j2 < rows.len() && (#[trigger] rows[j2]).phone_number == id);
            }
        }
        assert forall|j: int|
            0 <= j < rows.len() && j != i implies (#[trigger] rows[j]).uid != id
            && rows[j].phone_number != id by {
            if rows[j].uid == id {
                if j < i {
                    assert(rows[j].uid != rows[i].uid);
                } else {
                    assert(rows[i].uid != rows[j].uid);
                }
            }
        }
        lemma_batch_hit_single(rows, id, i);
        assert(rows[i].phone_number != id);
        let m = find_by_uid(rows, id)->Some_0;
        let i2 = choose|i2: int| 0 <= i2 < rows.len() && rows[i2] == m;
        assert(m == rows[i]);
    } else if exists|i: int| 0 <= i < rows.len() && (#[trigger] rows[i]).phone_number == id {
        let i = choose|i: int| 0 <= i < rows.len() && (#[trigger] rows[i]).phone_number == id;
        assert forall|j: int|
            0 <= j < rows.len() && j != i implies (#[trigger] rows[j]).uid != id
            && rows[j].phone_number != id by {
            assert(rows[j].uid != rows[i].phone_number);
            if rows[j].phone_number == id {
                if j < i {
                    assert(rows[j].phone_number != rows[i].phone_number);
                } else {
                    assert(rows[i].phone_number != rows[j].phone_number);
                }
            }
        }
        lemma_batch_hit_single(rows, id, i);
        assert(find_by_uid(rows, id) is None);
        let m = find_by_phone(rows, id)->Some_0;
        let i2 = choose|i2: int| 0 <= i2 < rows.len() && rows[i2] == m;
        assert(m == rows[i]);
    } else {
        assert(batch_hit(rows, id) is None);
        assert(find_by_uid(rows, id) is None);
        assert(find_by_phone(rows, id) is None);
    }
}

/// Order preservation: the i-th outcome of a batch is the single resolution
/// of the i-th identifier, for every batch of identifiers the stored data
/// holds unambiguously.
pub proof fn lemma_batch_pointwise(rows: Seq<MappingView>, ids: Seq<Seq<char>>)
    requires
        cols_unique(rows),
        forall|i: int| 0 <= i < ids.len() ==> unambiguous_for(rows, #[trigger] ids[i]),
    ensures
        forall|i: int|
            0 <= i < ids.len() ==> batch_outcomes_spec(rows, ids)[i] == resolve_spec(
                rows,
                #[trigger] ids[i],
            ),
{
    assert forall|i: int| 0 <= i < ids.len() implies batch_outcomes_spec(rows, ids)[i]
        == resolve_spec(rows, #[trigger] ids[i]) by {
        lemma_batch_matches_resolve(rows, ids[i]);
    }
}

/// A batch resolution is a pure function of the identifier value: repeated
/// identifiers in one batch receive the same outcome at every occurrence.
pub proof fn lemma_batch_repeated_ids(rows: Seq<MappingView>, ids: Seq<Seq<char>>, i: int, j: int)
    requires
        0 <= i < ids.len(),
        0 <= j < ids.len(),
        ids[i] == ids[j],
    ensures
        batch_outcomes_spec(rows, ids)[i] == batch_outcomes_spec(rows, ids)[j],
{
}

/// Every stored pair is found: its uid resolves to `FoundByUid` and its
/// phone number to `FoundByPhone`, each carrying the stored pairing. The one
/// hypothesis beyond the table invariant is that the stored phone number is
/// not also some row's uid, which would shadow the phone lookup.
pub proof fn lemma_resolve_stored_pair(
    rows: Seq<MappingView>,
    uid: Seq<char>,
    phone_number: Seq<char>,
)
    requires
        cols_unique(rows),
        rows.contains(MappingView { uid, phone_number }),
        forall|j: int| 0 <= j < rows.len() ==> (#[trigger] rows[j]).uid != phone_number,
    ensures
        resolve_spec(rows, uid) == (OutcomeView::FoundByUid { uid, phone_number }),
        resolve_spec(rows, phone_number) == (OutcomeView::FoundByPhone { uid, phone_number }),
{
    let mv = MappingView { uid, phone_number };
    let i = choose|i: int| 0 <= i < rows.len() && rows[i] == mv;
    lemma_find_by_uid_props(rows, uid);
    assert(rows[i].uid == uid);
    let m = find_by_uid(rows, uid)->Some_0;
    let i2 = choose|i2: int| 0 <= i2 < rows.len() && rows[i2] == m;
    assert(m == rows[i]);
    lemma_find_by_uid_props(rows, phone_number);
    lemma_find_by_phone_props(rows, phone_number);
    assert(rows[i].phone_number == phone_number);
    let m2 = find_by_phone(rows, phone_number)->Some_0;
    let i3 = choose|i3: int| 0 <= i3 < rows.len() && rows[i3] == m2;
    assert(m2 == rows[i]);
}

/// An identifier absent from both columns resolves to `NotFound`, by single
/// and by batch resolution alike.
pub proof fn lemma_resolve_absent(rows: Seq<MappingView>, id: Seq<char>)
    requires
        forall|i: int|
            0 <= i < rows.len() ==> (#[trigger] rows[i]).uid != id && rows[i].phone_number != id,
    ensures
        resolve_spec(rows, id) == OutcomeView::NotFound,
        batch_outcome(rows, id) == OutcomeView::NotFound,
{
    lemma_find_by_uid_props(rows, id);
    lemma_find_by_phone_props(rows, id);
    lemma_batch_hit_none_iff(rows, id);
}

/// Resolve `id` against a fetched row set: an exact scan of the uid column
/// first, then of the phone column.
pub fn resolve_rows(rows: &Vec<Mapping>, id: &String) -> (r: Outcome)
    ensures
        r@ == resolve_spec(row_views(rows@), id@),
{
    let ghost v = row_views(rows@);
    let n = rows.len();
    let mut i: usize = 0;
    while i < n
        invariant
            i <= n,
            n == rows@.len(),
            v == row_views(rows@),
            forall|j: int| 0 <= j < i ==> (#[trigger] v[j]).uid != id@,
        decreases n - i,
    {
        proof {
            assert(v[i as int] == rows@[i as int]@);
        }
        if rows[i].uid == *id {
            proof {
                lemma_find_by_uid_first(v, id@, i as int);
            }
            return Outcome::FoundByUid {
                uid: rows[i].uid.clone(),
                phone_number: rows[i].phone_number.clone(),
            };
        }
        i = i + 1;
    }
    proof {
        lemma_find_by_uid_props(v, id@);
    }
    let mut i: usize = 0;
    while i < n
        invariant
            i <= n,
            n == rows@.len(),
            v == row_views(rows@),
            find_by_uid(v, id@) is None,
            forall|j: int| 0 <= j < i ==> (#[trigger] v[j]).phone_number != id@,
        decreases n - i,
    {
        proof {
            assert(v[i as int] == rows@[i as int]@);
        }
        if rows[i].phone_number == *id {
            proof {
                lemma_find_by_phone_first(v, id@, i as int);
            }
            return Outcome::FoundByPhone {
                uid: rows[i].uid.clone(),
                phone_number: rows[i].phone_number.clone(),
            };
        }
        i = i + 1;
    }
    proof {
        lemma_find_by_phone_props(v, id@);
    }
    Outcome::NotFound
}

/// Consult the batch index for one identifier: the last row writing either
/// of its values over `id` wins, the phone role over the uid role.
fn consult_index(rows: &Vec<Mapping>, id: &String) -> (r: Option<Outcome>)
    ensures
        r matches Some(o) ==> batch_hit(row_views(rows@), id@) == Some(o@),
        r is None ==> batch_hit(row_views(rows@), id@) is None,
{
    let ghost v = row_views(rows@);
    let mut i: usize = rows.len();
    proof {
        assert(v.take(rows@.len() as int) =~= v);
    }
    while i > 0
        invariant
            i <= rows@.len(),
            v == row_views(rows@),
            batch_hit(v, id@) == batch_hit(v.take(i as int), id@),
        decreases i,
    {
        let j = i - 1;
        proof {
            assert(v.take(i as int).last() == v[j as int]);
            assert(v.take(i as int).drop_last() =~= v.take(j as int));
            assert(v[j as int] == rows@[j as int]@);
        }
        if rows[j].phone_number == *id {
            return Some(
                Outcome::FoundByPhone {
                    uid: rows[j].uid.clone(),
                    phone_number: rows[j].phone_number.clone(),
                },
            );
        }
        if rows[j].uid == *id {
            return Some(
                Outcome::FoundByUid {
                    uid: rows[j].uid.clone(),
                    phone_number: rows[j].phone_number.clone(),
                },
            );
        }
        i = j;
    }
    proof {
        assert(v.take(0) =~= Seq::<MappingView>::empty());
    }
    None
}

/// Resolve a whole batch against one fetched row set: one outcome per input
/// identifier, in input order, each read off the batch index.
pub fn batch_outcomes(rows: &Vec<Mapping>, ids: &Vec<String>) -> (r: Vec<Outcome>)
    ensures
        r@.len() == ids@.len(),
        forall|i: int|
            0 <= i < ids@.len() ==> (#[trigger] r@[i])@ == batch_outcome(
                row_views(rows@),
                ids@[i]@,
            ),
{
    let mut out: Vec<Outcome> = Vec::new();
    let n = ids.len();
    let mut i: usize = 0;
    while i < n
        invariant
            i <= n,
            n == ids@.len(),
            out@.len() == i,
            forall|j: int|
                0 <= j < i ==> (#[trigger] out@[j])@ == batch_outcome(row_views(rows@), ids@[j]@),
        decreases n - i,
    {
        match consult_index(rows, &ids[i]) {
            Some(o) => out.push(o),
            None => out.push(Outcome::NotFound),
        }
        i = i + 1;
    }
    out
}

} // verus!
