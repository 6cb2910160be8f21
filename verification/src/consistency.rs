//! What the constraints of the store mean for loading records and for
//! snapshots: records that meet the constraints can be stored whatever
//! their order within a table, and a snapshot of a store gives the records
//! of that store back.

use crate::backup::{
    in_snapshot_order, lemma_restored_each, restored_all, restores, snapshot_of, snapshot_rows,
    DatabaseBackup, Stored,
};
use crate::database::{distinct_logins, has_login, DatabaseView};
use crate::error::Error;
use crate::backup::UserBackup;
use crate::models::{Client, Clothes, ClothingService, Impression, Order, User};
use crate::ordering::{lemma_ascending, same_records};
use crate::table::{
    all_parented, distinct_keys, has_key, lemma_parents_kept, lemma_push_distinct,
    lemma_push_has_key, lemma_push_parented, Child, Record,
};
use vstd::prelude::*;

verus! {

/// The two stores hold the same records, table by table, whatever the order
/// within each table.
pub open spec fn same_tables(a: DatabaseView, b: DatabaseView) -> bool {
    &&& same_records(a.users, b.users)
    &&& same_records(a.clients, b.clients)
    &&& same_records(a.orders, b.orders)
    &&& same_records(a.impressions, b.impressions)
    &&& same_records(a.clothes, b.clothes)
    &&& same_records(a.clothing_services, b.clothing_services)
}

/// What loading the records of `rows` gives.
pub open spec fn loads(rows: DatabaseView) -> Result<DatabaseView, Error> {
    DatabaseView::loaded(
        rows.users,
        rows.clients,
        rows.orders,
        rows.impressions,
        rows.clothes,
        rows.clothing_services,
    )
}

/// What stands at two places of a sequence occurs at least twice in it.
proof fn lemma_twice<T>(s: Seq<T>, i: int, j: int)
    requires
        0 <= i < j < s.len(),
        s[i] == s[j],
    ensures
        s.to_multiset().count(s[i]) >= 2,
    decreases s.len(),
{
    broadcast use vstd::seq_lib::to_multiset_build;

    let front = s.drop_last();
    assert(s =~= front.push(s.last()));
    assert(front.push(s.last()).to_multiset() =~= front.to_multiset().insert(s.last()));
    if j == s.len() - 1 {
        assert(front[i] == s[i]);
        assert(front.contains(s[i]));
        vstd::seq_lib::to_multiset_contains(front, s[i]);
    } else {
        assert(front[i] == s[i] && front[j] == s[j]);
        lemma_twice(front, i, j);
    }
}

/// What occurs at least twice in a sequence stands at two places of it.
proof fn lemma_two_places<T>(s: Seq<T>, x: T)
    requires
        s.to_multiset().count(x) >= 2,
    ensures
        exists|i: int, j: int| 0 <= i < j < s.len() && s[i] == x && s[j] == x,
    decreases s.len(),
{
    broadcast use vstd::seq_lib::to_multiset_build;

    if s.len() == 0 {
        assert(s =~= Seq::<T>::empty());
        vstd::seq_lib::to_multiset_len(s);
        assert(s.to_multiset().len() == 0);
        assert(s.to_multiset() =~= vstd::multiset::Multiset::<T>::empty());
    } else {
        let front = s.drop_last();
        assert(s =~= front.push(s.last()));
        assert(front.push(s.last()).to_multiset() =~= front.to_multiset().insert(s.last()));
        if s.last() == x {
            assert(front.to_multiset().count(x) >= 1);
            vstd::seq_lib::to_multiset_contains(front, x);
            let i = choose|i: int| 0 <= i < front.len() && front[i] == x;
            assert(s[i] == x && s[s.len() - 1] == x);
        } else {
            lemma_two_places(front, x);
            let (i, j) = choose|i: int, j: int|
                0 <= i < j < front.len() && front[i] == x && front[j] == x;
            assert(s[i] == x && s[j] == x);
        }
    }
}

/// What stands in one of two sequences with the same records stands in the
/// other.
proof fn lemma_same_records_place<T>(a: Seq<T>, b: Seq<T>, i: int) -> (p: int)
    requires
        same_records(a, b),
        0 <= i < b.len(),
    ensures
        0 <= p < a.len(),
        a[p] == b[i],
{
    assert(b.contains(b[i]));
    vstd::seq_lib::to_multiset_contains(b, b[i]);
    vstd::seq_lib::to_multiset_contains(a, b[i]);
    choose|p: int| 0 <= p < a.len() && a[p] == b[i]
}

/// Two tables with the same records have the same identities.
pub proof fn lemma_same_records_has_key<T: Record>(a: Seq<T>, b: Seq<T>, key: Seq<char>)
    requires
        same_records(a, b),
    ensures
        has_key(a, key) == has_key(b, key),
{
    if has_key(b, key) {
        let i = choose|i: int| 0 <= i < b.len() && #[trigger] b[i].key() == key;
        let p = lemma_same_records_place(a, b, i);
        assert(a[p].key() == key);
    }
    if has_key(a, key) {
        let i = choose|i: int| 0 <= i < a.len() && #[trigger] a[i].key() == key;
        let p = lemma_same_records_place(b, a, i);
        assert(b[p].key() == key);
    }
}

/// Of two tables with the same records, one repeats an identity only if the
/// other does.
pub proof fn lemma_same_records_distinct<T: Record>(a: Seq<T>, b: Seq<T>)
    requires
        same_records(a, b),
        distinct_keys(a),
    ensures
        distinct_keys(b),
{
    assert forall|i: int, j: int| 0 <= i < j < b.len() implies #[trigger] b[i].key()
        != #[trigger] b[j].key() by {
        if b[i].key() == b[j].key() {
            if b[i] == b[j] {
                lemma_twice(b, i, j);
                lemma_two_places(a, b[i]);
                let (p, q) = choose|p: int, q: int|
                    0 <= p < q < a.len() && a[p] == b[i] && a[q] == b[i];
                assert(a[p].key() == a[q].key());
            } else {
                let p = lemma_same_records_place(a, b, i);
                let q = lemma_same_records_place(a, b, j);
                if p < q {
                    assert(a[p].key() == a[q].key());
                } else {
                    assert(a[q].key() == a[p].key());
                }
            }
        }
    }
}

/// Of two tables with the same users, one repeats a login only if the other
/// does.
pub proof fn lemma_same_records_logins(a: Seq<User>, b: Seq<User>)
    requires
        same_records(a, b),
        distinct_logins(a),
    ensures
        distinct_logins(b),
{
    assert forall|i: int, j: int| 0 <= i < j < b.len() implies (#[trigger] b[i]).login@ != (
    #[trigger] b[j]).login@ by {
        if b[i].login@ == b[j].login@ {
            if b[i] == b[j] {
                lemma_twice(b, i, j);
                lemma_two_places(a, b[i]);
                let (p, q) = choose|p: int, q: int|
                    0 <= p < q < a.len() && a[p] == b[i] && a[q] == b[i];
                assert(a[p].login@ == a[q].login@);
            } else {
                let p = lemma_same_records_place(a, b, i);
                let q = lemma_same_records_place(a, b, j);
                if p < q {
                    assert(a[p].login@ == a[q].login@);
                } else {
                    assert(a[q].login@ == a[p].login@);
                }
            }
        }
    }
}

/// Where the records of one table all have a parent in another, they do so
/// whatever the order of either table.
pub proof fn lemma_same_records_parented<T: Child, P: Record>(
    a: Seq<T>,
    b: Seq<T>,
    parents_a: Seq<P>,
    parents_b: Seq<P>,
)
    requires
        same_records(a, b),
        same_records(parents_a, parents_b),
        all_parented(a, parents_a),
    ensures
        all_parented(b, parents_b),
{
    assert forall|i: int| 0 <= i < b.len() implies has_key(parents_b, #[trigger] b[i].parent()) by {
        let p = lemma_same_records_place(a, b, i);
        assert(has_key(parents_a, a[p].parent()));
        lemma_same_records_has_key(parents_a, parents_b, b[i].parent());
    }
}

/// Whether records meet the constraints of the store does not depend on
/// their order within the tables.
pub proof fn lemma_constraints_ignore_order(a: DatabaseView, b: DatabaseView)
    requires
        same_tables(a, b),
        a.wf(),
    ensures
        b.wf(),
{
    lemma_same_records_distinct(a.users, b.users);
    lemma_same_records_logins(a.users, b.users);
    lemma_same_records_distinct(a.clients, b.clients);
    lemma_same_records_distinct(a.orders, b.orders);
    lemma_same_records_distinct(a.impressions, b.impressions);
    lemma_same_records_distinct(a.clothes, b.clothes);
    lemma_same_records_distinct(a.clothing_services, b.clothing_services);
    lemma_same_records_parented(a.orders, b.orders, a.clients, b.clients);
    lemma_same_records_parented(a.impressions, b.impressions, a.orders, b.orders);
    lemma_same_records_parented(a.clothes, b.clothes, a.orders, b.orders);
    lemma_same_records_parented(a.clothing_services, b.clothing_services, a.clothes, b.clothes);
}

/// Rows that meet the constraints are all stored, in their order.
proof fn lemma_fill_users(base: DatabaseView, rows: Seq<User>, n: int)
    requires
        base.users == Seq::<User>::empty(),
        distinct_keys(rows),
        distinct_logins(rows),
        0 <= n <= rows.len(),
    ensures
        base.with_users(rows.take(n)) == Ok::<DatabaseView, Error>(
            DatabaseView { users: rows.take(n), ..base },
        ),
    decreases n,
{
    if n == 0 {
        assert(rows.take(0) =~= Seq::<User>::empty());
        assert(base == (DatabaseView { users: rows.take(0), ..base }));
    } else {
        lemma_fill_users(base, rows, n - 1);
        let front = rows.take(n - 1);
        assert(rows.take(n).drop_last() =~= front);
        assert(rows.take(n).last() == rows[n - 1]);
        assert(!has_key(front, rows[n - 1].key())) by {
            if has_key(front, rows[n - 1].key()) {
                let i = choose|i: int| 0 <= i < front.len() && #[trigger] front[i].key() == rows[n
                    - 1].key();
                assert(rows[i].key() == rows[n - 1].key());
            }
        }
        assert(!has_login(front, rows[n - 1].login@)) by {
            if has_login(front, rows[n - 1].login@) {
                let i = choose|i: int| 0 <= i < front.len() && #[trigger] front[i].login@ == rows[n
                    - 1].login@;
                assert(rows[i].login@ == rows[n - 1].login@);
            }
        }
        assert(front.push(rows[n - 1]) =~= rows.take(n));
    }
}

/// Rows that were all stored stand behind what the table held, and the
/// constraints still hold where they held before.
proof fn lemma_filled_users(base: DatabaseView, rows: Seq<User>, after: DatabaseView)
    requires
        base.with_users(rows) == Ok::<DatabaseView, Error>(after),
    ensures
        after == (DatabaseView { users: base.users + rows, ..base }),
        base.wf() ==> after.wf(),
    decreases rows.len(),
{
    if rows.len() == 0 {
        assert(base.users + rows =~= base.users);
    } else {
        let front = base.with_users(rows.drop_last())->Ok_0;
        lemma_filled_users(base, rows.drop_last(), front);
        let row = rows.last();
        assert(front.users.push(row) =~= base.users + rows);
        if base.wf() {
            lemma_push_distinct(front.users, row);
            lemma_push_has_key(front.users, row);
            assert(distinct_logins(after.users)) by {
                assert forall|i: int, j: int| 0 <= i < j < after.users.len() implies (
                #[trigger] after.users[i]).login@ != (#[trigger] after.users[j]).login@ by {
                    if j < front.users.len() {
                        assert(front.users[i].login@ != front.users[j].login@);
                    } else {
                        assert(after.users[i] == front.users[i]);
                    }
                }
            }
        }
    }
}

/// Rows that meet the constraints are all stored, in their order.
proof fn lemma_fill_clients(base: DatabaseView, rows: Seq<Client>, n: int)
    requires
        base.clients == Seq::<Client>::empty(),
        distinct_keys(rows),
        0 <= n <= rows.len(),
    ensures
        base.with_clients(rows.take(n)) == Ok::<DatabaseView, Error>(
            DatabaseView { clients: rows.take(n), ..base },
        ),
    decreases n,
{
    if n == 0 {
        assert(rows.take(0) =~= Seq::<Client>::empty());
        assert(base == (DatabaseView { clients: rows.take(0), ..base }));
    } else {
        lemma_fill_clients(base, rows, n - 1);
        let front = rows.take(n - 1);
        assert(rows.take(n).drop_last() =~= front);
        assert(rows.take(n).last() == rows[n - 1]);
        assert(!has_key(front, rows[n - 1].key())) by {
            if has_key(front, rows[n - 1].key()) {
                let i = choose|i: int| 0 <= i < front.len() && #[trigger] front[i].key() == rows[n
                    - 1].key();
                assert(rows[i].key() == rows[n - 1].key());
            }
        }
        assert(front.push(rows[n - 1]) =~= rows.take(n));
    }
}

/// Rows that were all stored stand behind what the table held, and the
/// constraints still hold where they held before.
proof fn lemma_filled_clients(base: DatabaseView, rows: Seq<Client>, after: DatabaseView)
    requires
        base.with_clients(rows) == Ok::<DatabaseView, Error>(after),
    ensures
        after == (DatabaseView { clients: base.clients + rows, ..base }),
        base.wf() ==> after.wf(),
    decreases rows.len(),
{
    if rows.len() == 0 {
        assert(base.clients + rows =~= base.clients);
    } else {
        let front = base.with_clients(rows.drop_last())->Ok_0;
        lemma_filled_clients(base, rows.drop_last(), front);
        let row = rows.last();
        assert(front.clients.push(row) =~= base.clients + rows);
        if base.wf() {
            lemma_push_distinct(front.clients, row);
            lemma_push_has_key(front.clients, row);
            lemma_parents_kept(front.orders, front.clients, after.clients);
        }
    }
}

/// Rows that meet the constraints are all stored, in their order.
proof fn lemma_fill_orders(base: DatabaseView, rows: Seq<Order>, n: int)
    requires
        base.orders == Seq::<Order>::empty(),
        distinct_keys(rows),
        all_parented(rows, base.clients),
        0 <= n <= rows.len(),
    ensures
        base.with_orders(rows.take(n)) == Ok::<DatabaseView, Error>(
            DatabaseView { orders: rows.take(n), ..base },
        ),
    decreases n,
{
    if n == 0 {
        assert(rows.take(0) =~= Seq::<Order>::empty());
        assert(base == (DatabaseView { orders: rows.take(0), ..base }));
    } else {
        lemma_fill_orders(base, rows, n - 1);
        let front = rows.take(n - 1);
        assert(rows.take(n).drop_last() =~= front);
        assert(rows.take(n).last() == rows[n - 1]);
        assert(!has_key(front, rows[n - 1].key())) by {
            if has_key(front, rows[n - 1].key()) {
                let i = choose|i: int| 0 <= i < front.len() && #[trigger] front[i].key() == rows[n
                    - 1].key();
                assert(rows[i].key() == rows[n - 1].key());
            }
        }
        assert(front.push(rows[n - 1]) =~= rows.take(n));
    }
}

/// Rows that were all stored stand behind what the table held, and the
/// constraints still hold where they held before.
proof fn lemma_filled_orders(base: DatabaseView, rows: Seq<Order>, after: DatabaseView)
    requires
        base.with_orders(rows) == Ok::<DatabaseView, Error>(after),
    ensures
        after == (DatabaseView { orders: base.orders + rows, ..base }),
        base.wf() ==> after.wf(),
    decreases rows.len(),
{
    if rows.len() == 0 {
        assert(base.orders + rows =~= base.orders);
    } else {
        let front = base.with_orders(rows.drop_last())->Ok_0;
        lemma_filled_orders(base, rows.drop_last(), front);
        let row = rows.last();
        assert(front.orders.push(row) =~= base.orders + rows);
        if base.wf() {
            lemma_push_distinct(front.orders, row);
            lemma_push_has_key(front.orders, row);
            lemma_push_parented(front.orders, row, front.clients);
            lemma_parents_kept(front.impressions, front.orders, after.orders);
            lemma_parents_kept(front.clothes, front.orders, after.orders);
        }
    }
}

/// Rows that meet the constraints are all stored, in their order.
proof fn lemma_fill_impressions(base: DatabaseView, rows: Seq<Impression>, n: int)
    requires
        base.impressions == Seq::<Impression>::empty(),
        distinct_keys(rows),
        all_parented(rows, base.orders),
        0 <= n <= rows.len(),
    ensures
        base.with_impressions(rows.take(n)) == Ok::<DatabaseView, Error>(
            DatabaseView { impressions: rows.take(n), ..base },
        ),
    decreases n,
{
    if n == 0 {
        assert(rows.take(0) =~= Seq::<Impression>::empty());
        assert(base == (DatabaseView { impressions: rows.take(0), ..base }));
    } else {
        lemma_fill_impressions(base, rows, n - 1);
        let front = rows.take(n - 1);
        assert(rows.take(n).drop_last() =~= front);
        assert(rows.take(n).last() == rows[n - 1]);
        assert(!has_key(front, rows[n - 1].key())) by {
            if has_key(front, rows[n - 1].key()) {
                let i = choose|i: int| 0 <= i < front.len() && #[trigger] front[i].key() == rows[n
                    - 1].key();
                assert(rows[i].key() == rows[n - 1].key());
            }
        }
        assert(front.push(rows[n - 1]) =~= rows.take(n));
    }
}

/// Rows that were all stored stand behind what the table held, and the
/// constraints still hold where they held before.
proof fn lemma_filled_impressions(base: DatabaseView, rows: Seq<Impression>, after: DatabaseView)
    requires
        base.with_impressions(rows) == Ok::<DatabaseView, Error>(after),
    ensures
        after == (DatabaseView { impressions: base.impressions + rows, ..base }),
        base.wf() ==> after.wf(),
    decreases rows.len(),
{
    if rows.len() == 0 {
        assert(base.impressions + rows =~= base.impressions);
    } else {
        let front = base.with_impressions(rows.drop_last())->Ok_0;
        lemma_filled_impressions(base, rows.drop_last(), front);
        let row = rows.last();
        assert(front.impressions.push(row) =~= base.impressions + rows);
        if base.wf() {
            lemma_push_distinct(front.impressions, row);
            lemma_push_has_key(front.impressions, row);
            lemma_push_parented(front.impressions, row, front.orders);
        }
    }
}

/// Rows that meet the constraints are all stored, in their order.
proof fn lemma_fill_clothes_rows(base: DatabaseView, rows: Seq<Clothes>, n: int)
    requires
        base.clothes == Seq::<Clothes>::empty(),
        distinct_keys(rows),
        all_parented(rows, base.orders),
        0 <= n <= rows.len(),
    ensures
        base.with_clothes_rows(rows.take(n)) == Ok::<DatabaseView, Error>(
            DatabaseView { clothes: rows.take(n), ..base },
        ),
    decreases n,
{
    if n == 0 {
        assert(rows.take(0) =~= Seq::<Clothes>::empty());
        assert(base == (DatabaseView { clothes: rows.take(0), ..base }));
    } else {
        lemma_fill_clothes_rows(base, rows, n - 1);
        let front = rows.take(n - 1);
        assert(rows.take(n).drop_last() =~= front);
        assert(rows.take(n).last() == rows[n - 1]);
        assert(!has_key(front, rows[n - 1].key())) by {
            if has_key(front, rows[n - 1].key()) {
                let i = choose|i: int| 0 <= i < front.len() && #[trigger] front[i].key() == rows[n
                    - 1].key();
                assert(rows[i].key() == rows[n - 1].key());
            }
        }
        assert(front.push(rows[n - 1]) =~= rows.take(n));
    }
}

/// Rows that were all stored stand behind what the table held, and the
/// constraints still hold where they held before.
proof fn lemma_filled_clothes_rows(base: DatabaseView, rows: Seq<Clothes>, after: DatabaseView)
    requires
        base.with_clothes_rows(rows) == Ok::<DatabaseView, Error>(after),
    ensures
        after == (DatabaseView { clothes: base.clothes + rows, ..base }),
        base.wf() ==> after.wf(),
    decreases rows.len(),
{
    if rows.len() == 0 {
        assert(base.clothes + rows =~= base.clothes);
    } else {
        let front = base.with_clothes_rows(rows.drop_last())->Ok_0;
        lemma_filled_clothes_rows(base, rows.drop_last(), front);
        let row = rows.last();
        assert(front.clothes.push(row) =~= base.clothes + rows);
        if base.wf() {
            lemma_push_distinct(front.clothes, row);
            lemma_push_has_key(front.clothes, row);
            lemma_push_parented(front.clothes, row, front.orders);
            lemma_parents_kept(front.clothing_services, front.clothes, after.clothes);
        }
    }
}

/// Rows that meet the constraints are all stored, in their order.
proof fn lemma_fill_clothing_services(base: DatabaseView, rows: Seq<ClothingService>, n: int)
    requires
        base.clothing_services == Seq::<ClothingService>::empty(),
        distinct_keys(rows),
        all_parented(rows, base.clothes),
        0 <= n <= rows.len(),
    ensures
        base.with_clothing_services(rows.take(n)) == Ok::<DatabaseView, Error>(
            DatabaseView { clothing_services: rows.take(n), ..base },
        ),
    decreases n,
{
    if n == 0 {
        assert(rows.take(0) =~= Seq::<ClothingService>::empty());
        assert(base == (DatabaseView { clothing_services: rows.take(0), ..base }));
    } else {
        lemma_fill_clothing_services(base, rows, n - 1);
        let front = rows.take(n - 1);
        assert(rows.take(n).drop_last() =~= front);
        assert(rows.take(n).last() == rows[n - 1]);
        assert(!has_key(front, rows[n - 1].key())) by {
            if has_key(front, rows[n - 1].key()) {
                let i = choose|i: int| 0 <= i < front.len() && #[trigger] front[i].key() == rows[n
                    - 1].key();
                assert(rows[i].key() == rows[n - 1].key());
            }
        }
        assert(front.push(rows[n - 1]) =~= rows.take(n));
    }
}

/// Rows that were all stored stand behind what the table held, and the
/// constraints still hold where they held before.
proof fn lemma_filled_clothing_services(
    base: DatabaseView,
    rows: Seq<ClothingService>,
    after: DatabaseView,
)
    requires
        base.with_clothing_services(rows) == Ok::<DatabaseView, Error>(after),
    ensures
        after == (DatabaseView { clothing_services: base.clothing_services + rows, ..base }),
        base.wf() ==> after.wf(),
    decreases rows.len(),
{
    if rows.len() == 0 {
        assert(base.clothing_services + rows =~= base.clothing_services);
    } else {
        let front = base.with_clothing_services(rows.drop_last())->Ok_0;
        lemma_filled_clothing_services(base, rows.drop_last(), front);
        let row = rows.last();
        assert(front.clothing_services.push(row) =~= base.clothing_services + rows);
        if base.wf() {
            lemma_push_distinct(front.clothing_services, row);
            lemma_push_has_key(front.clothing_services, row);
            lemma_push_parented(front.clothing_services, row, front.clothes);
        }
    }
}
/// Records that meet the constraints of the store are loaded as they are.
/// Each table is filled only after the tables that it refers to, so a
/// record may stand ahead of its parent's position, or behind it: only the
/// order of the tables matters.
pub proof fn lemma_consistent_rows_load(rows: DatabaseView)
    requires
        rows.wf(),
    ensures
        loads(rows) == Ok::<DatabaseView, Error>(rows),
{
    let e = DatabaseView::empty();
    lemma_fill_users(e, rows.users, rows.users.len() as int);
    assert(rows.users.take(rows.users.len() as int) =~= rows.users);
    let a = DatabaseView { users: rows.users, ..e };
    lemma_fill_clients(a, rows.clients, rows.clients.len() as int);
    assert(rows.clients.take(rows.clients.len() as int) =~= rows.clients);
    let b = DatabaseView { clients: rows.clients, ..a };
    lemma_fill_orders(b, rows.orders, rows.orders.len() as int);
    assert(rows.orders.take(rows.orders.len() as int) =~= rows.orders);
    let c = DatabaseView { orders: rows.orders, ..b };
    lemma_fill_impressions(c, rows.impressions, rows.impressions.len() as int);
    assert(rows.impressions.take(rows.impressions.len() as int) =~= rows.impressions);
    let d = DatabaseView { impressions: rows.impressions, ..c };
    lemma_fill_clothes_rows(d, rows.clothes, rows.clothes.len() as int);
    assert(rows.clothes.take(rows.clothes.len() as int) =~= rows.clothes);
    let f = DatabaseView { clothes: rows.clothes, ..d };
    lemma_fill_clothing_services(
        f,
        rows.clothing_services,
        rows.clothing_services.len() as int,
    );
    assert(rows.clothing_services.take(rows.clothing_services.len() as int)
        =~= rows.clothing_services);
}

/// Records that were loaded are the store, and meet its constraints.
pub proof fn lemma_loaded_rows_consistent(rows: DatabaseView, after: DatabaseView)
    requires
        loads(rows) == Ok::<DatabaseView, Error>(after),
    ensures
        after == rows,
        rows.wf(),
{
    let e = DatabaseView::empty();
    let a = e.with_users(rows.users)->Ok_0;
    lemma_filled_users(e, rows.users, a);
    let b = a.with_clients(rows.clients)->Ok_0;
    lemma_filled_clients(a, rows.clients, b);
    let c = b.with_orders(rows.orders)->Ok_0;
    lemma_filled_orders(b, rows.orders, c);
    let d = c.with_impressions(rows.impressions)->Ok_0;
    lemma_filled_impressions(c, rows.impressions, d);
    let f = d.with_clothes_rows(rows.clothes)->Ok_0;
    lemma_filled_clothes_rows(d, rows.clothes, f);
    lemma_filled_clothing_services(f, rows.clothing_services, after);
    assert(Seq::<User>::empty() + rows.users =~= rows.users);
    assert(Seq::<Client>::empty() + rows.clients =~= rows.clients);
    assert(Seq::<Order>::empty() + rows.orders =~= rows.orders);
    assert(Seq::<Impression>::empty() + rows.impressions =~= rows.impressions);
    assert(Seq::<Clothes>::empty() + rows.clothes =~= rows.clothes);
    assert(Seq::<ClothingService>::empty() + rows.clothing_services =~= rows.clothing_services);
}

/// Whether records can be loaded does not depend on their order within the
/// tables: where they can be loaded in one order, they can be loaded in any
/// other, and the store then holds them in that other order.
pub proof fn lemma_load_in_any_order(a: DatabaseView, b: DatabaseView)
    requires
        same_tables(a, b),
        loads(a) is Ok,
    ensures
        loads(b) == Ok::<DatabaseView, Error>(b),
{
    lemma_loaded_rows_consistent(a, loads(a)->Ok_0);
    lemma_constraints_ignore_order(a, b);
    lemma_consistent_rows_load(b);
}

/// A store in the order of a snapshot holds the records of the store, and
/// meets the constraints where the store does.
pub proof fn lemma_snapshot_order(db: DatabaseView)
    ensures
        same_tables(db, in_snapshot_order(db)),
        db.wf() ==> in_snapshot_order(db).wf(),
{
    lemma_ascending(db.users);
    lemma_ascending(db.clients);
    lemma_ascending(db.orders);
    lemma_ascending(db.impressions);
    lemma_ascending(db.clothes);
    lemma_ascending(db.clothing_services);
    if db.wf() {
        lemma_constraints_ignore_order(db, in_snapshot_order(db));
    }
}

/// Restoring a snapshot of a store gives every record of that store back:
/// the same identities, the same fields, the same parents, in every table.
/// Within a table the records stand in the order of the snapshot, the
/// earliest first.
pub proof fn lemma_backup_restores(db: DatabaseView, backup: DatabaseBackup)
    requires
        db.wf(),
        snapshot_of(db, backup),
    ensures
        restores(backup) == Ok::<DatabaseView, Error>(in_snapshot_order(db)),
        same_tables(db, in_snapshot_order(db)),
        in_snapshot_order(db).wf(),
{
    lemma_snapshot_order(db);
    lemma_consistent_rows_load(in_snapshot_order(db));
}

/// The two snapshots hold the same saved records, table by table, whatever
/// the order within each table.
pub open spec fn same_snapshot_tables(a: DatabaseBackup, b: DatabaseBackup) -> bool {
    &&& same_records(a.users@, b.users@)
    &&& same_records(a.clients@, b.clients@)
    &&& same_records(a.orders@, b.orders@)
    &&& same_records(a.impressions@, b.impressions@)
    &&& same_records(a.clothes@, b.clothes@)
    &&& same_records(a.clothing_services@, b.clothing_services@)
}

/// `rows` are what the saved forms `forms` stand for, one by one.
pub open spec fn read_each<T: Stored>(forms: Seq<T::Saved>, rows: Seq<T>) -> bool {
    &&& rows.len() == forms.len()
    &&& forall|i: int|
        0 <= i < forms.len() ==> T::restored(#[trigger] forms[i]) == Ok::<T, Error>(rows[i])
}

/// Saved forms that can all be read can all be read in any other order.
proof fn lemma_read_in_any_order<T: Stored>(fa: Seq<T::Saved>, fb: Seq<T::Saved>)
    requires
        same_records(fa, fb),
        restored_all::<T>(fa) is Ok,
    ensures
        restored_all::<T>(fb) is Ok,
        read_each(fa, restored_all::<T>(fa)->Ok_0),
        read_each(fb, restored_all::<T>(fb)->Ok_0),
{
    lemma_restored_each::<T>(fa);
    lemma_restored_each::<T>(fb);
    if let Err(e) = restored_all::<T>(fb) {
        let i = choose|i: int|
            0 <= i < fb.len() && T::restored(#[trigger] fb[i]) == Err::<T, Error>(e);
        let p = lemma_same_records_place(fa, fb, i);
        assert(T::restored(fa[p]) is Ok);
    }
}

/// A record read from one of two sequences of forms with the same records
/// is read from the other too.
proof fn lemma_read_place<T: Stored>(
    fa: Seq<T::Saved>,
    fb: Seq<T::Saved>,
    ra: Seq<T>,
    rb: Seq<T>,
    i: int,
) -> (p: int)
    requires
        same_records(fa, fb),
        read_each(fa, ra),
        read_each(fb, rb),
        0 <= i < rb.len(),
    ensures
        0 <= p < ra.len(),
        ra[p] == rb[i],
        fa[p] == fb[i],
{
    let p = lemma_same_records_place(fa, fb, i);
    assert(T::restored(fa[p]) == Ok::<T, Error>(ra[p]));
    assert(T::restored(fb[i]) == Ok::<T, Error>(rb[i]));
    p
}

/// Two records read at different positions of one sequence of forms are
/// read at different positions of any other with the same records.
proof fn lemma_read_places<T: Stored>(
    fa: Seq<T::Saved>,
    fb: Seq<T::Saved>,
    ra: Seq<T>,
    rb: Seq<T>,
    i: int,
    j: int,
) -> (places: (int, int))
    requires
        same_records(fa, fb),
        read_each(fa, ra),
        read_each(fb, rb),
        0 <= i < j < rb.len(),
    ensures
        0 <= places.0 < places.1 < ra.len(),
        (ra[places.0] == rb[i] && ra[places.1] == rb[j]) || (ra[places.0] == rb[j]
            && ra[places.1] == rb[i]),
{
    if fb[i] == fb[j] {
        lemma_twice(fb, i, j);
        lemma_two_places(fa, fb[i]);
        let (p, q) = choose|p: int, q: int|
            0 <= p < q < fa.len() && fa[p] == fb[i] && fa[q] == fb[i];
        assert(T::restored(fa[p]) == Ok::<T, Error>(ra[p]));
        assert(T::restored(fa[q]) == Ok::<T, Error>(ra[q]));
        assert(T::restored(fb[i]) == Ok::<T, Error>(rb[i]));
        assert(T::restored(fb[j]) == Ok::<T, Error>(rb[j]));
        (p, q)
    } else {
        let p = lemma_read_place(fa, fb, ra, rb, i);
        let q = lemma_read_place(fa, fb, ra, rb, j);
        if p < q {
            (p, q)
        } else {
            (q, p)
        }
    }
}

/// Records read from forms in another order repeat an identity only if
/// the records read from the forms do.
proof fn lemma_read_distinct<T: Stored>(
    fa: Seq<T::Saved>,
    fb: Seq<T::Saved>,
    ra: Seq<T>,
    rb: Seq<T>,
)
    requires
        same_records(fa, fb),
        read_each(fa, ra),
        read_each(fb, rb),
        distinct_keys(ra),
    ensures
        distinct_keys(rb),
{
    assert forall|i: int, j: int| 0 <= i < j < rb.len() implies #[trigger] rb[i].key()
        != #[trigger] rb[j].key() by {
        let (p, q) = lemma_read_places(fa, fb, ra, rb, i, j);
        assert(ra[p].key() != ra[q].key());
    }
}

/// Users read from forms in another order repeat a login only if the users
/// read from the forms do.
proof fn lemma_read_logins(fa: Seq<UserBackup>, fb: Seq<UserBackup>, ra: Seq<User>, rb: Seq<User>)
    requires
        same_records(fa, fb),
        read_each(fa, ra),
        read_each(fb, rb),
        distinct_logins(ra),
    ensures
        distinct_logins(rb),
{
    assert forall|i: int, j: int| 0 <= i < j < rb.len() implies (#[trigger] rb[i]).login@ != (
    #[trigger] rb[j]).login@ by {
        let (p, q) = lemma_read_places(fa, fb, ra, rb, i, j);
        assert(ra[p].login@ != ra[q].login@);
    }
}

/// Records read from forms in another order all have a parent among the
/// parents read from forms in another order, where the records read from the
/// forms have.
proof fn lemma_read_parented<T: Stored + Child, P: Stored>(
    fa: Seq<T::Saved>,
    fb: Seq<T::Saved>,
    ra: Seq<T>,
    rb: Seq<T>,
    pfa: Seq<P::Saved>,
    pfb: Seq<P::Saved>,
    pa: Seq<P>,
    pb: Seq<P>,
)
    requires
        same_records(fa, fb),
        read_each(fa, ra),
        read_each(fb, rb),
        same_records(pfa, pfb),
        read_each(pfa, pa),
        read_each(pfb, pb),
        all_parented(ra, pa),
    ensures
        all_parented(rb, pb),
{
    assert forall|i: int| 0 <= i < rb.len() implies has_key(pb, #[trigger] rb[i].parent()) by {
        let p = lemma_read_place(fa, fb, ra, rb, i);
        assert(has_key(pa, ra[p].parent()));
        let k = choose|k: int| 0 <= k < pa.len() && #[trigger] pa[k].key() == ra[p].parent();
        let q = lemma_read_place(pfb, pfa, pb, pa, k);
        assert(pb[q].key() == rb[i].parent());
    }
}

/// Records read from forms in another order are the same records, each
/// as often.
proof fn lemma_read_same_records<T: Stored>(
    fa: Seq<T::Saved>,
    fb: Seq<T::Saved>,
    ra: Seq<T>,
    rb: Seq<T>,
)
    requires
        same_records(fa, fb),
        read_each(fa, ra),
        read_each(fb, rb),
    ensures
        same_records(ra, rb),
    decreases fa.len(),
{
    broadcast use vstd::multiset::group_multiset_axioms;

    vstd::seq_lib::to_multiset_len(fa);
    vstd::seq_lib::to_multiset_len(fb);
    if fa.len() == 0 {
        assert(ra =~= rb);
    } else {
        let last = fa.len() - 1;
        let p = lemma_same_records_place(fb, fa, last);
        let fa_rest = fa.drop_last();
        let fb_rest = fb.remove(p);
        let ra_rest = ra.drop_last();
        let rb_rest = rb.remove(p);
        assert(fa =~= fa_rest.push(fa[last]));
        vstd::seq_lib::to_multiset_build(fa_rest, fa[last]);
        vstd::seq_lib::to_multiset_remove(fb, p);
        assert(fa_rest.to_multiset() =~= fb_rest.to_multiset());
        assert forall|i: int| 0 <= i < fa_rest.len() implies T::restored(#[trigger] fa_rest[i])
            == Ok::<T, Error>(ra_rest[i]) by {
            assert(fa_rest[i] == fa[i]);
        }
        assert forall|i: int| 0 <= i < fb_rest.len() implies T::restored(#[trigger] fb_rest[i])
            == Ok::<T, Error>(rb_rest[i]) by {
            if i < p {
                assert(fb_rest[i] == fb[i]);
            } else {
                assert(fb_rest[i] == fb[i + 1]);
            }
        }
        lemma_read_same_records::<T>(fa_rest, fb_rest, ra_rest, rb_rest);
        assert(T::restored(fa[last]) == Ok::<T, Error>(ra[last]));
        assert(T::restored(fb[p]) == Ok::<T, Error>(rb[p]));
        assert(ra =~= ra_rest.push(ra[last]));
        vstd::seq_lib::to_multiset_build(ra_rest, ra[last]);
        vstd::seq_lib::to_multiset_remove(rb, p);
        assert(rb.contains(rb[p]));
        vstd::seq_lib::to_multiset_contains(rb, rb[p]);
        assert(rb.to_multiset() =~= rb_rest.to_multiset().insert(rb[p]));
        assert(ra.to_multiset() =~= rb.to_multiset());
    }
}

/// Whether a snapshot can be restored does not depend on the order of the
/// records within its tables: a garment line may stand behind its services,
/// an order behind its lines, a client behind its orders, each in its own
/// table. The store that is restored holds the same records either way.
pub proof fn lemma_restore_in_any_order(a: DatabaseBackup, b: DatabaseBackup)
    requires
        same_snapshot_tables(a, b),
        restores(a) is Ok,
    ensures
        restores(b) is Ok,
        same_tables(restores(a)->Ok_0, restores(b)->Ok_0),
{
    lemma_read_in_any_order::<User>(a.users@, b.users@);
    lemma_read_in_any_order::<Client>(a.clients@, b.clients@);
    lemma_read_in_any_order::<Order>(a.orders@, b.orders@);
    lemma_read_in_any_order::<Impression>(a.impressions@, b.impressions@);
    lemma_read_in_any_order::<Clothes>(a.clothes@, b.clothes@);
    lemma_read_in_any_order::<ClothingService>(a.clothing_services@, b.clothing_services@);
    let ra = snapshot_rows(a)->Ok_0;
    let rb = snapshot_rows(b)->Ok_0;
    lemma_loaded_rows_consistent(ra, loads(ra)->Ok_0);
    lemma_read_distinct::<User>(a.users@, b.users@, ra.users, rb.users);
    lemma_read_logins(a.users@, b.users@, ra.users, rb.users);
    lemma_read_distinct::<Client>(a.clients@, b.clients@, ra.clients, rb.clients);
    lemma_read_distinct::<Order>(a.orders@, b.orders@, ra.orders, rb.orders);
    lemma_read_distinct::<Impression>(
        a.impressions@,
        b.impressions@,
        ra.impressions,
        rb.impressions,
    );
    lemma_read_distinct::<Clothes>(a.clothes@, b.clothes@, ra.clothes, rb.clothes);
    lemma_read_distinct::<ClothingService>(
        a.clothing_services@,
        b.clothing_services@,
        ra.clothing_services,
        rb.clothing_services,
    );
    lemma_read_parented::<Order, Client>(
        a.orders@,
        b.orders@,
        ra.orders,
        rb.orders,
        a.clients@,
        b.clients@,
        ra.clients,
        rb.clients,
    );
    lemma_read_parented::<Impression, Order>(
        a.impressions@,
        b.impressions@,
        ra.impressions,
        rb.impressions,
        a.orders@,
        b.orders@,
        ra.orders,
        rb.orders,
    );
    lemma_read_parented::<Clothes, Order>(
        a.clothes@,
        b.clothes@,
        ra.clothes,
        rb.clothes,
        a.orders@,
        b.orders@,
        ra.orders,
        rb.orders,
    );
    lemma_read_parented::<ClothingService, Clothes>(
        a.clothing_services@,
        b.clothing_services@,
        ra.clothing_services,
        rb.clothing_services,
        a.clothes@,
        b.clothes@,
        ra.clothes,
        rb.clothes,
    );
    lemma_consistent_rows_load(rb);
    lemma_consistent_rows_load(ra);
    lemma_read_same_records::<User>(a.users@, b.users@, ra.users, rb.users);
    lemma_read_same_records::<Client>(a.clients@, b.clients@, ra.clients, rb.clients);
    lemma_read_same_records::<Order>(a.orders@, b.orders@, ra.orders, rb.orders);
    lemma_read_same_records::<Impression>(
        a.impressions@,
        b.impressions@,
        ra.impressions,
        rb.impressions,
    );
    lemma_read_same_records::<Clothes>(a.clothes@, b.clothes@, ra.clothes, rb.clothes);
    lemma_read_same_records::<ClothingService>(
        a.clothing_services@,
        b.clothing_services@,
        ra.clothing_services,
        rb.clothing_services,
    );
}

/// Restoring the same snapshot again gives the same store again.
pub proof fn lemma_restore_repeatable(
    backup: DatabaseBackup,
    first: DatabaseView,
    second: DatabaseView,
)
    requires
        restores(backup) == Ok::<DatabaseView, Error>(first),
        restores(backup) == Ok::<DatabaseView, Error>(second),
    ensures
        first == second,
{
}

} // verus!
