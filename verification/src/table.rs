//! A small dictionary from texts to values.

use crate::numeric::Real;
use crate::text::{chars_of, code, same};
use vstd::prelude::*;

verus! {

impl View for Real {
    type V = Real;

    open spec fn view(&self) -> Real {
        *self
    }
}

/// One value per key, in the order of the keys.
#[derive(Debug, PartialEq)]
pub struct Table<V: View> {
    pub rows: Vec<(String, V)>,
}

/// One text stands before another in a dictionary of characters.
pub open spec fn precedes(a: Seq<char>, b: Seq<char>) -> bool
    decreases a.len(),
{
    if b.len() == 0 {
        false
    } else if a.len() == 0 {
        true
    } else if a[0] == b[0] {
        precedes(a.drop_first(), b.drop_first())
    } else {
        (a[0] as int) < (b[0] as int)
    }
}

proof fn precedes_is_transitive(a: Seq<char>, b: Seq<char>, c: Seq<char>)
    requires
        precedes(a, b),
        precedes(b, c),
    ensures
        precedes(a, c),
    decreases a.len(),
{
    if a.len() > 0 && a[0] == b[0] && b[0] == c[0] {
        precedes_is_transitive(a.drop_first(), b.drop_first(), c.drop_first());
    }
}

proof fn precedes_is_total(a: Seq<char>, b: Seq<char>)
    requires
        a != b,
    ensures
        precedes(a, b) || precedes(b, a),
    decreases a.len(),
{
    if a.len() > 0 && b.len() > 0 && a[0] == b[0] {
        let x = a.drop_first();
        let y = b.drop_first();
        if x == y {
            assert(a =~= seq![a[0]] + x);
            assert(b =~= seq![b[0]] + y);
        }
        precedes_is_total(x, y);
    } else if a.len() == 0 && b.len() == 0 {
        assert(a =~= b);
    }
}

fn stands_before(a: &str, b: &str) -> (r: bool)
    ensures
        r == precedes(a@, b@),
{
    let x = chars_of(a);
    let y = chars_of(b);
    let mut i: usize = 0;
    assert(x@.skip(0) =~= x@ && y@.skip(0) =~= y@);
    while i < x.len() && i < y.len() && x[i] == y[i]
        invariant
            i <= x.len(),
            i <= y.len(),
            precedes(x@, y@) == precedes(x@.skip(i as int), y@.skip(i as int)),
        decreases x.len() - i,
    {
        assert(x@.skip(i as int).drop_first() =~= x@.skip(i + 1));
        assert(y@.skip(i as int).drop_first() =~= y@.skip(i + 1));
        i += 1;
    }
    if i == y.len() {
        false
    } else if i == x.len() {
        true
    } else {
        code(x[i]) < code(y[i])
    }
}

/// Rows in the order of their keys, each key once.
pub open spec fn ordered<V: View>(rows: Seq<(String, V)>) -> bool {
    forall|i: int, j: int|
        #![trigger rows[i], rows[j]]
        0 <= i < j < rows.len() ==> precedes(rows[i].0@, rows[j].0@)
}

/// What a list of rows says: of two rows with one key, the later one counts.
pub open spec fn entries<V: View>(rows: Seq<(String, V)>) -> Map<Seq<char>, V::V>
    decreases rows.len(),
{
    if rows.len() == 0 {
        Map::empty()
    } else {
        entries(rows.drop_last()).insert(rows.last().0@, rows.last().1@)
    }
}

impl<V: View> View for Table<V> {
    type V = Map<Seq<char>, V::V>;

    open spec fn view(&self) -> Map<Seq<char>, V::V> {
        entries(self.rows@)
    }
}

proof fn last_row_counts<V: View>(rows: Seq<(String, V)>, i: int, key: Seq<char>)
    requires
        0 <= i < rows.len(),
        rows[i].0@ == key,
        forall|k: int| i < k < rows.len() ==> (#[trigger] rows[k]).0@ != key,
    ensures
        entries(rows).dom().contains(key),
        entries(rows)[key] == rows[i].1@,
    decreases rows.len(),
{
    if i < rows.len() - 1 {
        let rest = rows.drop_last();
        assert(rows[rows.len() - 1].0@ != key);
        assert forall|k: int| i < k < rest.len() implies (#[trigger] rest[k]).0@ != key by {
            assert(rest[k] == rows[k]);
        }
        last_row_counts(rest, i, key);
    }
}

proof fn absent_key<V: View>(rows: Seq<(String, V)>, key: Seq<char>)
    requires
        forall|k: int| 0 <= k < rows.len() ==> (#[trigger] rows[k]).0@ != key,
    ensures
        !entries(rows).dom().contains(key),
    decreases rows.len(),
{
    if rows.len() > 0 {
        let rest = rows.drop_last();
        assert forall|k: int| 0 <= k < rest.len() implies (#[trigger] rest[k]).0@ != key by {
            assert(rest[k] == rows[k]);
        }
        assert(rows[rows.len() - 1].0@ != key);
        absent_key(rest, key);
    }
}

proof fn replaced_row<V: View>(rows: Seq<(String, V)>, i: int, row: (String, V))
    requires
        0 <= i < rows.len(),
        rows[i].0@ == row.0@,
        forall|k: int| i < k < rows.len() ==> (#[trigger] rows[k]).0@ != row.0@,
    ensures
        entries(rows.update(i, row)) == entries(rows).insert(row.0@, row.1@),
    decreases rows.len(),
{
    let rest = rows.drop_last();
    if i < rows.len() - 1 {
        assert(rows[rows.len() - 1].0@ != row.0@);
        assert forall|k: int| i < k < rest.len() implies (#[trigger] rest[k]).0@ != row.0@ by {
            assert(rest[k] == rows[k]);
        }
        replaced_row(rest, i, row);
        assert(rows.update(i, row).drop_last() =~= rest.update(i, row));
    } else {
        assert(rows.update(i, row).drop_last() =~= rest);
    }
    assert(entries(rows.update(i, row)) =~= entries(rows).insert(row.0@, row.1@));
}

proof fn inserted_row<V: View>(rows: Seq<(String, V)>, i: int, row: (String, V))
    requires
        0 <= i <= rows.len(),
        forall|k: int| 0 <= k < rows.len() ==> (#[trigger] rows[k]).0@ != row.0@,
    ensures
        entries(rows.insert(i, row)) == entries(rows).insert(row.0@, row.1@),
    decreases rows.len(),
{
    if i < rows.len() {
        let rest = rows.drop_last();
        assert forall|k: int| 0 <= k < rest.len() implies (#[trigger] rest[k]).0@ != row.0@ by {
            assert(rest[k] == rows[k]);
        }
        inserted_row(rest, i, row);
        assert(rows.insert(i, row).drop_last() =~= rest.insert(i, row));
        assert(rows[rows.len() - 1].0@ != row.0@);
        assert(entries(rows.insert(i, row)) =~= entries(rows).insert(row.0@, row.1@));
    } else {
        assert(rows.insert(i, row).drop_last() =~= rows);
    }
}

proof fn inserted_in_order<V: View>(rows: Seq<(String, V)>, i: int, row: (String, V))
    requires
        ordered(rows),
        0 <= i <= rows.len(),
        forall|k: int| 0 <= k < rows.len() ==> (#[trigger] rows[k]).0@ != row.0@,
        forall|k: int| 0 <= k < i ==> precedes((#[trigger] rows[k]).0@, row.0@),
        i < rows.len() ==> !precedes(rows[i].0@, row.0@),
    ensures
        ordered(rows.insert(i, row)),
{
    let all = rows.insert(i, row);
    if i < rows.len() {
        precedes_is_total(rows[i].0@, row.0@);
    }
    assert forall|k: int, l: int|
        #![trigger all[k], all[l]]
        0 <= k < l < all.len() implies precedes(all[k].0@, all[l].0@) by {
        let x = if k < i {
            k
        } else {
            k - 1
        };
        let y = if l < i {
            l
        } else {
            l - 1
        };
        if k == i {
            assert(all[l] == rows[y]);
            if y > i {
                assert(precedes(rows[i].0@, rows[y].0@));
                precedes_is_transitive(row.0@, rows[i].0@, rows[y].0@);
            }
        } else if l == i {
            assert(all[k] == rows[x]);
        } else {
            assert(all[k] == rows[x] && all[l] == rows[y]);
        }
    }
}

impl<V: View> Table<V> {
    pub fn new() -> (r: Self)
        ensures
            r@ == Map::<Seq<char>, V::V>::empty(),
            ordered(r.rows@),
    {
        Table { rows: Vec::new() }
    }

    fn last_row(&self, key: &str) -> (r: Option<usize>)
        ensures
            match r {
                Some(i) => i < self.rows.len() && self.rows@[i as int].0@ == key@ && forall|k: int|
                    i < k < self.rows.len() ==> (#[trigger] self.rows@[k]).0@ != key@,
                None => forall|k: int|
                    0 <= k < self.rows.len() ==> (#[trigger] self.rows@[k]).0@ != key@,
            },
    {
        let mut i: usize = self.rows.len();
        while i > 0
            invariant
                i <= self.rows.len(),
                forall|k: int| i <= k < self.rows.len() ==> (#[trigger] self.rows@[k]).0@ != key@,
            decreases i,
        {
            i -= 1;
            if same(&self.rows[i].0, key) {
                return Some(i);
            }
        }
        None
    }

    pub fn get(&self, key: &str) -> (r: Option<&V>)
        ensures
            match r {
                Some(v) => self@.dom().contains(key@) && self@[key@] == v@,
                None => !self@.dom().contains(key@),
            },
    {
        match self.last_row(key) {
            Some(i) => {
                proof {
                    last_row_counts(self.rows@, i as int, key@);
                }
                Some(&self.rows[i].1)
            },
            None => {
                proof {
                    absent_key(self.rows@, key@);
                }
                None
            },
        }
    }

    pub fn insert(&mut self, key: &str, value: V)
        ensures
            final(self)@ == old(self)@.insert(key@, value@),
            ordered(old(self).rows@) ==> ordered(final(self).rows@),
    {
        match self.last_row(key) {
            Some(i) => {
                let row = (key.to_owned(), value);
                proof {
                    replaced_row(self.rows@, i as int, row);
                }
                self.rows.set(i, row);
            },
            None => {
                let ghost before = self.rows@;
                let mut i: usize = 0;
                while i < self.rows.len() && stands_before(&self.rows[i].0, key)
                    invariant
                        i <= self.rows.len(),
                        self.rows@ == before,
                        forall|k: int| 0 <= k < i ==> precedes((#[trigger] before[k]).0@, key@),
                    decreases self.rows.len() - i,
                {
                    i += 1;
                }
                let row = (key.to_owned(), value);
                proof {
                    inserted_row(before, i as int, row);
                    if ordered(before) {
                        inserted_in_order(before, i as int, row);
                    }
                }
                self.rows.insert(i, row);
            },
        }
    }
}

proof fn same_rows<V: View>(a: Seq<(String, V)>, b: Seq<(String, V)>)
    requires
        a.len() == b.len(),
        forall|k: int| 0 <= k < a.len() ==> (#[trigger] a[k]).0@ == b[k].0@ && a[k].1@ == b[k].1@,
    ensures
        entries(a) == entries(b),
    decreases a.len(),
{
    if a.len() > 0 {
        let x = a.drop_last();
        let y = b.drop_last();
        assert forall|k: int| 0 <= k < x.len() implies (#[trigger] x[k]).0@ == y[k].0@ && x[k].1@
            == y[k].1@ by {
            assert(x[k] == a[k]);
        }
        same_rows(x, y);
        assert(a[a.len() - 1].0@ == b[a.len() - 1].0@);
    }
}

impl Clone for Table<Real> {
    fn clone(&self) -> (r: Self)
        ensures
            r@ == self@,
            ordered(self.rows@) ==> ordered(r.rows@),
    {
        let mut rows: Vec<(String, Real)> = Vec::new();
        let mut i: usize = 0;
        while i < self.rows.len()
            invariant
                i <= self.rows.len(),
                rows.len() == i,
                forall|k: int|
                    0 <= k < i ==> (#[trigger] rows@[k]).0@ == self.rows@[k].0@ && rows@[k].1
                        == self.rows@[k].1,
            decreases self.rows.len() - i,
        {
            rows.push((self.rows[i].0.clone(), self.rows[i].1));
            i += 1;
        }
        proof {
            same_rows(rows@, self.rows@);
        }
        Table { rows }
    }
}

} // verus!
