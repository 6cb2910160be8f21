//! Tables: sequences of records that are found by their identity and, where
//! they belong to a parent record, by the identity of that parent.

use vstd::prelude::*;

verus! {

/// A row: something that can be copied and that has a rank by which rows
/// are put in order. The rank of a record is the instant of its creation.
pub trait Row: Sized {
    /// The rank of the row.
    spec fn rank(&self) -> i128;

    fn rank_value(&self) -> (rank: i128)
        ensures
            rank == self.rank(),
    ;

    /// A copy of the row.
    fn duplicate(&self) -> (r: Self)
        ensures
            r == *self,
    ;
}

/// A record of a table.
pub trait Record: Row {
    /// The record's identity.
    spec fn key(&self) -> Seq<char>;

    fn id(&self) -> (k: &String)
        ensures
            k@ == self.key(),
    ;
}

/// A record that belongs to a record of another table.
pub trait Child: Record {
    /// The identity of the parent record.
    spec fn parent(&self) -> Seq<char>;

    fn parent_id(&self) -> (k: &String)
        ensures
            k@ == self.parent(),
    ;
}

/// Some record of `rows` has the identity `key`.
pub open spec fn has_key<T: Record>(rows: Seq<T>, key: Seq<char>) -> bool {
    exists|i: int| 0 <= i < rows.len() && #[trigger] rows[i].key() == key
}

/// No two records of `rows` share an identity.
pub open spec fn distinct_keys<T: Record>(rows: Seq<T>) -> bool {
    forall|i: int, j: int|
        0 <= i < j < rows.len() ==> #[trigger] rows[i].key() != #[trigger] rows[j].key()
}

/// The position of the first record of `rows` with the identity `key`.
pub open spec fn index_of<T: Record>(rows: Seq<T>, key: Seq<char>) -> Option<int>
    decreases rows.len(),
{
    if rows.len() == 0 {
        None
    } else {
        match index_of(rows.drop_last(), key) {
            Some(i) => Some(i),
            None => if rows.last().key() == key {
                Some(rows.len() - 1)
            } else {
                None
            },
        }
    }
}

/// The condition that a record's identity is not `key`.
pub open spec fn key_differs<T: Record>(key: Seq<char>) -> spec_fn(T) -> bool {
    |r: T| r.key() != key
}

/// The condition that a record's parent is `parent`.
pub open spec fn parent_is<T: Child>(parent: Seq<char>) -> spec_fn(T) -> bool {
    |r: T| r.parent() == parent
}

/// The condition that a record's parent is not `parent`.
pub open spec fn parent_differs<T: Child>(parent: Seq<char>) -> spec_fn(T) -> bool {
    |r: T| r.parent() != parent
}

/// The condition that a record's parent is among `parents`.
pub open spec fn parent_among<T: Child, P: Record>(parents: Seq<P>) -> spec_fn(T) -> bool {
    |r: T| has_key(parents, r.parent())
}

/// The condition that a record's parent is not among `parents`.
pub open spec fn parent_not_among<T: Child, P: Record>(parents: Seq<P>) -> spec_fn(T) -> bool {
    |r: T| !has_key(parents, r.parent())
}

/// The first record of `rows` with the identity `key`.
pub open spec fn found<T: Record>(rows: Seq<T>, key: Seq<char>) -> Option<T> {
    match index_of(rows, key) {
        Some(i) => Some(rows[i]),
        None => None,
    }
}

/// `after` is `before` with the record at position `at` replaced by one
/// that holds `with`.
pub open spec fn replaced<T: View>(before: Seq<T>, after: Seq<T>, at: int, with: T::V) -> bool {
    &&& 0 <= at < before.len()
    &&& after.len() == before.len()
    &&& after[at]@ == with
    &&& forall|j: int| 0 <= j < before.len() && j != at ==> after[j] == before[j]
}

/// `rows` without the records whose identity is `key`.
pub open spec fn without_key<T: Record>(rows: Seq<T>, key: Seq<char>) -> Seq<T> {
    rows.filter(key_differs(key))
}

/// The records of `rows` whose parent is `parent`, in their order.
pub open spec fn children_of<T: Child>(rows: Seq<T>, parent: Seq<char>) -> Seq<T> {
    rows.filter(parent_is(parent))
}

/// `rows` without the records whose parent is `parent`.
pub open spec fn without_children_of<T: Child>(rows: Seq<T>, parent: Seq<char>) -> Seq<T> {
    rows.filter(parent_differs(parent))
}

/// The records of `rows` whose parent is among `parents`, in their order.
pub open spec fn descendants_of<T: Child, P: Record>(rows: Seq<T>, parents: Seq<P>) -> Seq<T> {
    rows.filter(parent_among(parents))
}

/// `rows` without the records whose parent is among `parents`.
pub open spec fn without_descendants_of<T: Child, P: Record>(
    rows: Seq<T>,
    parents: Seq<P>,
) -> Seq<T> {
    rows.filter(parent_not_among(parents))
}

/// Every record of `rows` has its parent among `parents`.
pub open spec fn all_parented<T: Child, P: Record>(rows: Seq<T>, parents: Seq<P>) -> bool {
    forall|i: int| 0 <= i < rows.len() ==> has_key(parents, #[trigger] rows[i].parent())
}

/// What `index_of` finds is the first record with the key, and it finds one
/// exactly when there is one.
pub proof fn lemma_index_of<T: Record>(rows: Seq<T>, key: Seq<char>)
    ensures
        match index_of(rows, key) {
            Some(i) => 0 <= i < rows.len() && rows[i].key() == key && forall|j: int|
                0 <= j < i ==> #[trigger] rows[j].key() != key,
            None => !has_key(rows, key),
        },
    decreases rows.len(),
{
    if rows.len() > 0 {
        lemma_index_of(rows.drop_last(), key);
        let front = rows.drop_last();
        assert(forall|j: int| 0 <= j < front.len() ==> front[j] == rows[j]);
        if index_of(front, key) is None {
            assert forall|j: int| 0 <= j < front.len() implies #[trigger] rows[j].key() != key by {
                assert(front[j].key() != key);
            }
        }
    }
}

/// The records that a filter keeps are records of the table that meet the
/// condition, and it keeps every such record.
pub proof fn lemma_filter_has_key<T: Record>(rows: Seq<T>, keep: spec_fn(T) -> bool, key: Seq<char>)
    ensures
        has_key(rows.filter(keep), key) <==> exists|i: int|
            0 <= i < rows.len() && #[trigger] rows[i].key() == key && keep(rows[i]),
{
    let kept = rows.filter(keep);
    if has_key(kept, key) {
        let k = choose|k: int| 0 <= k < kept.len() && #[trigger] kept[k].key() == key;
        rows.lemma_filter_pred(keep, k);
        assert(kept.contains(kept[k]));
        rows.lemma_filter_contains_rev(keep, kept[k]);
        let i = choose|i: int| 0 <= i < rows.len() && rows[i] == kept[k];
        assert(rows[i].key() == key && keep(rows[i]));
    }
    if exists|i: int| 0 <= i < rows.len() && #[trigger] rows[i].key() == key && keep(rows[i]) {
        let i = choose|i: int|
            0 <= i < rows.len() && #[trigger] rows[i].key() == key && keep(rows[i]);
        rows.lemma_filter_contains(keep, i);
        let k = choose|k: int| 0 <= k < kept.len() && kept[k] == rows[i];
        assert(kept[k].key() == key);
    }
}

/// A filter of a table without repeated identities has none either.
pub proof fn lemma_filter_distinct<T: Record>(rows: Seq<T>, keep: spec_fn(T) -> bool)
    requires
        distinct_keys(rows),
    ensures
        distinct_keys(rows.filter(keep)),
    decreases rows.len(),
{
    reveal(Seq::filter);
    if rows.len() > 0 {
        let front = rows.drop_last();
        assert(forall|j: int| 0 <= j < front.len() ==> front[j] == rows[j]);
        lemma_filter_distinct(front, keep);
        if keep(rows.last()) {
            let kept = front.filter(keep);
            lemma_filter_has_key(front, keep, rows.last().key());
            assert(!has_key(kept, rows.last().key())) by {
                if has_key(kept, rows.last().key()) {
                    let i = choose|i: int|
                        0 <= i < front.len() && #[trigger] front[i].key() == rows.last().key()
                            && keep(front[i]);
                    assert(rows[i].key() == rows[rows.len() - 1].key());
                }
            }
            lemma_push_distinct(kept, rows.last());
        }
    }
}

/// A table without repeated identities stays so when a record with a new
/// identity is added.
pub proof fn lemma_push_distinct<T: Record>(rows: Seq<T>, row: T)
    requires
        distinct_keys(rows),
        !has_key(rows, row.key()),
    ensures
        distinct_keys(rows.push(row)),
{
    let more = rows.push(row);
    assert forall|i: int, j: int| 0 <= i < j < more.len() implies #[trigger] more[i].key()
        != #[trigger] more[j].key() by {
        if j < rows.len() {
            assert(rows[i].key() != rows[j].key());
        } else {
            assert(more[i] == rows[i]);
            if rows[i].key() == row.key() {
                assert(has_key(rows, row.key()));
            }
        }
    }
}

/// Replacing a record by one with the same identity changes neither which
/// identities the table has nor that they are not repeated.
pub proof fn lemma_update_keys<T: Record>(rows: Seq<T>, at: int, row: T)
    requires
        0 <= at < rows.len(),
        rows[at].key() == row.key(),
    ensures
        forall|key: Seq<char>| has_key(rows.update(at, row), key) <==> has_key(rows, key),
        distinct_keys(rows) ==> distinct_keys(rows.update(at, row)),
{
    let next = rows.update(at, row);
    assert forall|key: Seq<char>| has_key(next, key) <==> has_key(rows, key) by {
        if has_key(next, key) {
            let i = choose|i: int| 0 <= i < next.len() && #[trigger] next[i].key() == key;
            assert(rows[i].key() == key);
        }
        if has_key(rows, key) {
            let i = choose|i: int| 0 <= i < rows.len() && #[trigger] rows[i].key() == key;
            assert(next[i].key() == key);
        }
    }
    if distinct_keys(rows) {
        assert forall|i: int, j: int| 0 <= i < j < next.len() implies #[trigger] next[i].key()
            != #[trigger] next[j].key() by {
            assert(rows[i].key() != rows[j].key());
        }
    }
}

/// Records that all have a parent still have one in a table that has every
/// identity of the first.
pub proof fn lemma_parents_kept<T: Child, P: Record>(rows: Seq<T>, before: Seq<P>, after: Seq<P>)
    requires
        all_parented(rows, before),
        forall|key: Seq<char>| has_key(before, key) ==> has_key(after, key),
    ensures
        all_parented(rows, after),
{
}

/// Adding a record adds its identity to those of the table.
pub proof fn lemma_push_has_key<T: Record>(rows: Seq<T>, row: T)
    ensures
        forall|key: Seq<char>|
            has_key(rows.push(row), key) <==> (has_key(rows, key) || row.key() == key),
{
    let more = rows.push(row);
    assert forall|key: Seq<char>|
        has_key(more, key) <==> (has_key(rows, key) || row.key() == key) by {
        if has_key(more, key) {
            let i = choose|i: int| 0 <= i < more.len() && #[trigger] more[i].key() == key;
            if i < rows.len() {
                assert(rows[i].key() == key);
            }
        }
        if has_key(rows, key) {
            let i = choose|i: int| 0 <= i < rows.len() && #[trigger] rows[i].key() == key;
            assert(more[i].key() == key);
        }
        if row.key() == key {
            assert(more[rows.len() as int].key() == key);
        }
    }
}

/// Records that all have a parent still all have one when a record with a
/// parent is added.
pub proof fn lemma_push_parented<T: Child, P: Record>(rows: Seq<T>, row: T, parents: Seq<P>)
    requires
        all_parented(rows, parents),
        has_key(parents, row.parent()),
    ensures
        all_parented(rows.push(row), parents),
{
    let more = rows.push(row);
    assert forall|i: int| 0 <= i < more.len() implies has_key(
        parents,
        #[trigger] more[i].parent(),
    ) by {
        if i < rows.len() {
            assert(more[i] == rows[i]);
        }
    }
}

/// Records that all have a parent still all have one when one of them is
/// replaced by a record with a parent.
pub proof fn lemma_update_parented<T: Child, P: Record>(
    rows: Seq<T>,
    at: int,
    row: T,
    parents: Seq<P>,
)
    requires
        0 <= at < rows.len(),
        all_parented(rows, parents),
        has_key(parents, row.parent()),
    ensures
        all_parented(rows.update(at, row), parents),
{
    let next = rows.update(at, row);
    assert forall|i: int| 0 <= i < next.len() implies has_key(
        parents,
        #[trigger] next[i].parent(),
    ) by {
        if i != at {
            assert(next[i] == rows[i]);
        }
    }
}

/// Where parents and children are filtered together, and a child is kept
/// only if every record with its parent's identity is kept, the children
/// kept all have a parent among the parents kept.
pub proof fn lemma_filter_parented<T: Child, P: Record>(
    rows: Seq<T>,
    keep_row: spec_fn(T) -> bool,
    parents: Seq<P>,
    keep_parent: spec_fn(P) -> bool,
)
    requires
        all_parented(rows, parents),
        forall|i: int, j: int|
            0 <= i < rows.len() && 0 <= j < parents.len() && keep_row(rows[i])
                && #[trigger] parents[j].key() == #[trigger] rows[i].parent() ==> keep_parent(
                parents[j],
            ),
    ensures
        all_parented(rows.filter(keep_row), parents.filter(keep_parent)),
{
    let kept = rows.filter(keep_row);
    assert forall|k: int| 0 <= k < kept.len() implies has_key(
        parents.filter(keep_parent),
        #[trigger] kept[k].parent(),
    ) by {
        rows.lemma_filter_pred(keep_row, k);
        assert(kept.contains(kept[k]));
        rows.lemma_filter_contains_rev(keep_row, kept[k]);
        let i = choose|i: int| 0 <= i < rows.len() && rows[i] == kept[k];
        assert(has_key(parents, rows[i].parent()));
        let j = choose|j: int|
            0 <= j < parents.len() && #[trigger] parents[j].key() == rows[i].parent();
        assert(keep_parent(parents[j]));
        lemma_filter_has_key(parents, keep_parent, kept[k].parent());
    }
}

/// Deleting a parent together with its children leaves no child without a
/// parent.
pub proof fn lemma_cascade<T: Child, P: Record>(rows: Seq<T>, parents: Seq<P>, id: Seq<char>)
    requires
        all_parented(rows, parents),
    ensures
        all_parented(without_children_of(rows, id), without_key(parents, id)),
{
    lemma_filter_parented(rows, parent_differs::<T>(id), parents, key_differs::<P>(id));
}

/// Deleting the children of a record together with what belongs to them
/// leaves nothing without a parent.
pub proof fn lemma_cascade_children<T: Child, P: Child>(
    rows: Seq<T>,
    parents: Seq<P>,
    id: Seq<char>,
)
    requires
        all_parented(rows, parents),
    ensures
        all_parented(
            without_descendants_of(rows, children_of(parents, id)),
            without_children_of(parents, id),
        ),
{
    let gone = children_of(parents, id);
    assert forall|i: int, j: int|
        0 <= i < rows.len() && 0 <= j < parents.len() && !has_key(gone, rows[i].parent())
            && #[trigger] parents[j].key() == #[trigger] rows[i].parent() implies parents[j]
        .parent() != id by {
        lemma_filter_has_key(parents, parent_is::<P>(id), rows[i].parent());
    }
    lemma_filter_parented(
        rows,
        parent_not_among::<T, P>(gone),
        parents,
        parent_differs::<P>(id),
    );
}

/// Deleting the descendants of some records together with what belongs to
/// those descendants leaves nothing without a parent.
pub proof fn lemma_cascade_descendants<T: Child, P: Child, G: Record>(
    rows: Seq<T>,
    parents: Seq<P>,
    roots: Seq<G>,
)
    requires
        all_parented(rows, parents),
    ensures
        all_parented(
            without_descendants_of(rows, descendants_of(parents, roots)),
            without_descendants_of(parents, roots),
        ),
{
    let gone = descendants_of(parents, roots);
    assert forall|i: int, j: int|
        0 <= i < rows.len() && 0 <= j < parents.len() && !has_key(gone, rows[i].parent())
            && #[trigger] parents[j].key() == #[trigger] rows[i].parent() implies !has_key(
        roots,
        parents[j].parent(),
    ) by {
        lemma_filter_has_key(parents, parent_among::<P, G>(roots), rows[i].parent());
    }
    lemma_filter_parented(
        rows,
        parent_not_among::<T, P>(gone),
        parents,
        parent_not_among::<P, G>(roots),
    );
}

/// The filters of this module keep a table free of repeated identities.
pub proof fn lemma_removal_distinct<T: Child, P: Record>(
    rows: Seq<T>,
    id: Seq<char>,
    parents: Seq<P>,
)
    requires
        distinct_keys(rows),
    ensures
        distinct_keys(without_key(rows, id)),
        distinct_keys(without_children_of(rows, id)),
        distinct_keys(without_descendants_of(rows, parents)),
{
    lemma_filter_distinct(rows, key_differs::<T>(id));
    lemma_filter_distinct(rows, parent_differs::<T>(id));
    lemma_filter_distinct(rows, parent_not_among::<T, P>(parents));
}

/// Deleting by identity keeps a table free of repeated identities, and
/// children of another table keep their parents.
pub proof fn lemma_without_key<T: Record>(rows: Seq<T>, id: Seq<char>)
    ensures
        distinct_keys(rows) ==> distinct_keys(without_key(rows, id)),
        forall|key: Seq<char>|
            has_key(without_key(rows, id), key) <==> (has_key(rows, key) && key != id),
{
    if distinct_keys(rows) {
        lemma_filter_distinct(rows, key_differs::<T>(id));
    }
    assert forall|key: Seq<char>|
        has_key(without_key(rows, id), key) <==> (has_key(rows, key) && key != id) by {
        lemma_filter_has_key(rows, key_differs::<T>(id), key);
    }
}

/// A filter of children keeps their parents.
pub proof fn lemma_removal_parented<T: Child, P: Record, G: Record>(
    rows: Seq<T>,
    parents: Seq<P>,
    id: Seq<char>,
    roots: Seq<G>,
)
    requires
        all_parented(rows, parents),
    ensures
        all_parented(without_key(rows, id), parents),
        all_parented(without_children_of(rows, id), parents),
        all_parented(without_descendants_of(rows, roots), parents),
{
    lemma_filter_subset_parented(rows, key_differs::<T>(id), parents);
    lemma_filter_subset_parented(rows, parent_differs::<T>(id), parents);
    lemma_filter_subset_parented(rows, parent_not_among::<T, G>(roots), parents);
}

/// What a filter keeps of records that all have a parent all have one.
pub proof fn lemma_filter_subset_parented<T: Child, P: Record>(
    rows: Seq<T>,
    keep: spec_fn(T) -> bool,
    parents: Seq<P>,
)
    requires
        all_parented(rows, parents),
    ensures
        all_parented(rows.filter(keep), parents),
{
    let kept = rows.filter(keep);
    assert forall|k: int| 0 <= k < kept.len() implies has_key(
        parents,
        #[trigger] kept[k].parent(),
    ) by {
        assert(kept.contains(kept[k]));
        rows.lemma_filter_contains_rev(keep, kept[k]);
        let i = choose|i: int| 0 <= i < rows.len() && rows[i] == kept[k];
        assert(has_key(parents, rows[i].parent()));
    }
}

/// Replacing the record at a position by one with the same identity does
/// not change where an identity is found.
pub proof fn lemma_replaced_index<T: Record + View>(
    before: Seq<T>,
    after: Seq<T>,
    at: int,
    key: Seq<char>,
)
    requires
        0 <= at < before.len(),
        after.len() == before.len(),
        after[at].key() == before[at].key(),
        forall|j: int| 0 <= j < before.len() && j != at ==> after[j] == before[j],
    ensures
        index_of(after, key) == index_of(before, key),
{
    lemma_index_of(before, key);
    lemma_index_of(after, key);
    assert forall|j: int| 0 <= j < before.len() implies #[trigger] after[j].key()
        == before[j].key() by {}
    match index_of(before, key) {
        Some(i) => {
            assert(after[i].key() == key);
            match index_of(after, key) {
                Some(k) => {
                    if k < i {
                        assert(before[k].key() != key);
                    }
                    if i < k {
                        assert(after[i].key() != key);
                    }
                },
                None => {},
            }
        },
        None => {
            if let Some(k) = index_of(after, key) {
                assert(before[k].key() == key);
            }
        },
    }
}

/// The position of the first record with the identity `key`.
pub fn position<T: Record>(rows: &Vec<T>, key: &String) -> (found: Option<usize>)
    ensures
        match found {
            Some(i) => index_of(rows@, key@) == Some(i as int),
            None => index_of(rows@, key@) is None,
        },
{
    let mut i: usize = 0;
    while i < rows.len()
        invariant
            i <= rows.len(),
            forall|j: int| 0 <= j < i ==> #[trigger] rows[j].key() != key@,
        decreases rows.len() - i,
    {
        if *rows[i].id() == *key {
            proof {
                lemma_index_of(rows@, key@);
            }
            return Some(i);
        }
        i += 1;
    }
    proof {
        lemma_index_of(rows@, key@);
    }
    None
}

/// Copies of the rows, in their order.
pub fn copy_rows<T: Row>(rows: &Vec<T>) -> (copies: Vec<T>)
    ensures
        copies@ == rows@,
{
    let mut copies: Vec<T> = Vec::new();
    let mut i: usize = 0;
    while i < rows.len()
        invariant
            i <= rows.len(),
            copies@ == rows@.take(i as int),
        decreases rows.len() - i,
    {
        copies.push(rows[i].duplicate());
        proof {
            assert(rows@.take(i + 1) =~= rows@.take(i as int).push(rows[i as int]));
        }
        i += 1;
    }
    proof {
        assert(rows@.take(rows.len() as int) =~= rows@);
    }
    copies
}

/// A copy of the first record with the identity `key`.
pub fn find<T: Record>(rows: &Vec<T>, key: &String) -> (row: Option<T>)
    ensures
        row == found(rows@, key@),
{
    match position(rows, key) {
        Some(i) => {
            proof {
                lemma_index_of(rows@, key@);
            }
            Some(rows[i].duplicate())
        },
        None => None,
    }
}

/// Whether some record has the identity `key`.
pub fn contains_key<T: Record>(rows: &Vec<T>, key: &String) -> (found: bool)
    ensures
        found == has_key(rows@, key@),
{
    proof {
        lemma_index_of(rows@, key@);
    }
    position(rows, key).is_some()
}

/// Copies of the records whose parent is `parent`, in their order.
pub fn select_children<T: Child>(rows: &Vec<T>, parent: &String) -> (found: Vec<T>)
    ensures
        found@ == children_of(rows@, parent@),
{
    let mut found: Vec<T> = Vec::new();
    let mut i: usize = 0;
    let ghost keep = parent_is::<T>(parent@);
    proof {
        reveal(Seq::filter);
        assert(rows@.take(0).filter(keep) =~= Seq::<T>::empty());
    }
    while i < rows.len()
        invariant
            i <= rows.len(),
            keep == parent_is::<T>(parent@),
            found@ == rows@.take(i as int).filter(keep),
        decreases rows.len() - i,
    {
        proof {
            assert(rows@.take(i + 1) =~= rows@.take(i as int).push(rows[i as int]));
            rows@.take(i as int).lemma_filter_push(rows[i as int], keep);
        }
        if *rows[i].parent_id() == *parent {
            found.push(rows[i].duplicate());
        }
        i += 1;
    }
    proof {
        assert(rows@.take(rows.len() as int) =~= rows@);
    }
    found
}

/// Copies of the records whose parent is among `parents`, in their order.
pub fn select_descendants<T: Child, P: Record>(rows: &Vec<T>, parents: &Vec<P>) -> (found: Vec<T>)
    ensures
        found@ == descendants_of(rows@, parents@),
{
    let mut found: Vec<T> = Vec::new();
    let mut i: usize = 0;
    let ghost keep = parent_among::<T, P>(parents@);
    proof {
        reveal(Seq::filter);
        assert(rows@.take(0).filter(keep) =~= Seq::<T>::empty());
    }
    while i < rows.len()
        invariant
            i <= rows.len(),
            keep == parent_among::<T, P>(parents@),
            found@ == rows@.take(i as int).filter(keep),
        decreases rows.len() - i,
    {
        proof {
            assert(rows@.take(i + 1) =~= rows@.take(i as int).push(rows[i as int]));
            rows@.take(i as int).lemma_filter_push(rows[i as int], keep);
        }
        if contains_key(parents, rows[i].parent_id()) {
            found.push(rows[i].duplicate());
        }
        i += 1;
    }
    proof {
        assert(rows@.take(rows.len() as int) =~= rows@);
    }
    found
}

/// Puts `row` in the place of the first record with its identity, if there
/// is one.
pub fn replace<T: Record>(rows: &mut Vec<T>, row: T) -> (found: bool)
    ensures
        match index_of(old(rows)@, row.key()) {
            Some(i) => found && final(rows)@ == old(rows)@.update(i, row),
            None => !found && final(rows)@ == old(rows)@,
        },
{
    match position(rows, row.id()) {
        Some(i) => {
            proof {
                lemma_index_of(rows@, row.key());
            }
            rows.set(i, row);
            true
        },
        None => false,
    }
}

/// Removes the records whose identity is `key`.
pub fn remove_key<T: Record>(rows: &mut Vec<T>, key: &String)
    ensures
        final(rows)@ == without_key(old(rows)@, key@),
{
    let mut kept: Vec<T> = Vec::new();
    let mut i: usize = 0;
    let ghost keep = key_differs::<T>(key@);
    proof {
        reveal(Seq::filter);
        assert(rows@.take(0).filter(keep) =~= Seq::<T>::empty());
    }
    while i < rows.len()
        invariant
            i <= rows.len(),
            rows@ == old(rows)@,
            keep == key_differs::<T>(key@),
            kept@ == rows@.take(i as int).filter(keep),
        decreases rows.len() - i,
    {
        proof {
            assert(rows@.take(i + 1) =~= rows@.take(i as int).push(rows[i as int]));
            rows@.take(i as int).lemma_filter_push(rows[i as int], keep);
        }
        if !(*rows[i].id() == *key) {
            kept.push(rows[i].duplicate());
        }
        i += 1;
    }
    proof {
        assert(rows@.take(rows.len() as int) =~= rows@);
    }
    *rows = kept;
}

/// Removes the records whose parent is `parent`.
pub fn remove_children<T: Child>(rows: &mut Vec<T>, parent: &String)
    ensures
        final(rows)@ == without_children_of(old(rows)@, parent@),
{
    let mut kept: Vec<T> = Vec::new();
    let mut i: usize = 0;
    let ghost keep = parent_differs::<T>(parent@);
    proof {
        reveal(Seq::filter);
        assert(rows@.take(0).filter(keep) =~= Seq::<T>::empty());
    }
    while i < rows.len()
        invariant
            i <= rows.len(),
            rows@ == old(rows)@,
            keep == parent_differs::<T>(parent@),
            kept@ == rows@.take(i as int).filter(keep),
        decreases rows.len() - i,
    {
        proof {
            assert(rows@.take(i + 1) =~= rows@.take(i as int).push(rows[i as int]));
            rows@.take(i as int).lemma_filter_push(rows[i as int], keep);
        }
        if !(*rows[i].parent_id() == *parent) {
            kept.push(rows[i].duplicate());
        }
        i += 1;
    }
    proof {
        assert(rows@.take(rows.len() as int) =~= rows@);
    }
    *rows = kept;
}

/// Removes the records whose parent is among `parents`.
pub fn remove_descendants<T: Child, P: Record>(rows: &mut Vec<T>, parents: &Vec<P>)
    ensures
        final(rows)@ == without_descendants_of(old(rows)@, parents@),
{
    let mut kept: Vec<T> = Vec::new();
    let mut i: usize = 0;
    let ghost keep = parent_not_among::<T, P>(parents@);
    proof {
        reveal(Seq::filter);
        assert(rows@.take(0).filter(keep) =~= Seq::<T>::empty());
    }
    while i < rows.len()
        invariant
            i <= rows.len(),
            rows@ == old(rows)@,
            keep == parent_not_among::<T, P>(parents@),
            kept@ == rows@.take(i as int).filter(keep),
        decreases rows.len() - i,
    {
        proof {
            assert(rows@.take(i + 1) =~= rows@.take(i as int).push(rows[i as int]));
            rows@.take(i as int).lemma_filter_push(rows[i as int], keep);
        }
        if !contains_key(parents, rows[i].parent_id()) {
            kept.push(rows[i].duplicate());
        }
        i += 1;
    }
    proof {
        assert(rows@.take(rows.len() as int) =~= rows@);
    }
    *rows = kept;
}

} // verus!
