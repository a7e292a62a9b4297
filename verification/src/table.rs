//! A small table of values under textual identifiers.

use vstd::prelude::*;

verus! {

/// Values under distinct textual identifiers. Its view is the map from
/// identifiers to values.
#[derive(Debug)]
pub struct IdTable<V> {
    rows: Vec<(String, V)>,
}

/// Row `i` of `rows` stands under `id`.
pub open spec fn stands_under<V>(rows: Seq<(Seq<char>, V)>, id: Seq<char>, i: int) -> bool {
    0 <= i < rows.len() && rows[i].0 == id
}

/// No two rows stand under the same identifier.
pub open spec fn ids_distinct<V>(rows: Seq<(Seq<char>, V)>) -> bool {
    forall|i: int, j: int| 0 <= i < j < rows.len() ==> (#[trigger] rows[i]).0 != (#[trigger] rows[j]).0
}

/// The map that `rows` denote.
pub open spec fn rows_map<V>(rows: Seq<(Seq<char>, V)>) -> Map<Seq<char>, V> {
    Map::new(
        |id: Seq<char>| exists|i: int| stands_under(rows, id, i),
        |id: Seq<char>| rows[choose|i: int| stands_under(rows, id, i)].1,
    )
}

/// A row's value is what the map holds under the row's identifier.
proof fn row_is_mapped<V>(rows: Seq<(Seq<char>, V)>, i: int)
    requires
        ids_distinct(rows),
        0 <= i < rows.len(),
    ensures
        rows_map(rows).contains_key(rows[i].0),
        rows_map(rows)[rows[i].0] == rows[i].1,
{
    assert(stands_under(rows, rows[i].0, i));
    let j = choose|j: int| stands_under(rows, rows[i].0, j);
    assert(stands_under(rows, rows[i].0, j));
    assert(i == j);
}

/// The map has as many entries as there are rows.
proof fn map_len<V>(rows: Seq<(Seq<char>, V)>)
    requires
        ids_distinct(rows),
    ensures
        rows_map(rows).dom().finite(),
        rows_map(rows).len() == rows.len(),
{
    let ids = rows.map_values(|r: (Seq<char>, V)| r.0);
    assert forall|i: int, j: int| 0 <= i < ids.len() && 0 <= j < ids.len() && i != j implies ids[i]
        != ids[j] by {
        assert(ids[i] == rows[i].0 && ids[j] == rows[j].0);
    }
    ids.unique_seq_to_set();
    assert(ids.to_set() =~= rows_map(rows).dom()) by {
        assert forall|id: Seq<char>| ids.to_set().contains(id) <==> rows_map(rows).dom().contains(
            id,
        ) by {
            if ids.to_set().contains(id) {
                let i = choose|i: int| 0 <= i < ids.len() && ids[i] == id;
                assert(stands_under(rows, id, i));
            }
            if rows_map(rows).dom().contains(id) {
                let i = choose|i: int| stands_under(rows, id, i);
                assert(ids[i] == id);
            }
        }
    }
}

/// Replacing the value of a row replaces it in the map.
proof fn map_update<V>(rows: Seq<(Seq<char>, V)>, i: int, v: V)
    requires
        ids_distinct(rows),
        0 <= i < rows.len(),
    ensures
        ids_distinct(rows.update(i, (rows[i].0, v))),
        rows_map(rows.update(i, (rows[i].0, v))) == rows_map(rows).insert(rows[i].0, v),
{
    let next = rows.update(i, (rows[i].0, v));
    assert(ids_distinct(next));
    assert forall|id: Seq<char>| rows_map(next).contains_key(id) <==> rows_map(rows).insert(
        rows[i].0,
        v,
    ).contains_key(id) by {
        if rows_map(next).contains_key(id) {
            let j = choose|j: int| stands_under(next, id, j);
            assert(stands_under(rows, id, j));
        }
        if rows_map(rows).contains_key(id) {
            let j = choose|j: int| stands_under(rows, id, j);
            assert(stands_under(next, id, j));
        }
        assert(stands_under(next, rows[i].0, i));
    }
    assert forall|id: Seq<char>| #[trigger] rows_map(next).contains_key(id) implies rows_map(next)[id]
        == rows_map(rows).insert(rows[i].0, v)[id] by {
        let j = choose|j: int| stands_under(next, id, j);
        assert(stands_under(next, id, j));
        row_is_mapped(next, j);
        row_is_mapped(rows, j);
    }
    assert(rows_map(next) =~= rows_map(rows).insert(rows[i].0, v));
}

/// Adding a row under a new identifier adds an entry to the map.
proof fn map_push<V>(rows: Seq<(Seq<char>, V)>, id: Seq<char>, v: V)
    requires
        ids_distinct(rows),
        !rows_map(rows).contains_key(id),
    ensures
        ids_distinct(rows.push((id, v))),
        rows_map(rows.push((id, v))) == rows_map(rows).insert(id, v),
{
    let next = rows.push((id, v));
    assert forall|i: int| 0 <= i < rows.len() implies (#[trigger] rows[i]).0 != id by {
        if rows[i].0 == id {
            assert(stands_under(rows, id, i));
        }
    }
    assert(ids_distinct(next)) by {
        assert forall|i: int, j: int| 0 <= i < j < next.len() implies (#[trigger] next[i]).0 != (
        #[trigger] next[j]).0 by {
            assert(next[i] == rows[i]);
            if j < rows.len() {
                assert(next[j] == rows[j]);
            }
        }
    }
    assert forall|k: Seq<char>| rows_map(next).contains_key(k) <==> rows_map(rows).insert(
        id,
        v,
    ).contains_key(k) by {
        if rows_map(next).contains_key(k) {
            let j = choose|j: int| stands_under(next, k, j);
            if j < rows.len() {
                assert(stands_under(rows, k, j));
            }
        }
        if rows_map(rows).contains_key(k) {
            let j = choose|j: int| stands_under(rows, k, j);
            assert(stands_under(next, k, j));
        }
        assert(stands_under(next, id, rows.len() as int));
    }
    assert forall|k: Seq<char>| #[trigger] rows_map(next).contains_key(k) implies rows_map(next)[k]
        == rows_map(rows).insert(id, v)[k] by {
        let j = choose|j: int| stands_under(next, k, j);
        assert(stands_under(next, k, j));
        row_is_mapped(next, j);
        if j < rows.len() {
            row_is_mapped(rows, j);
        }
    }
    assert(rows_map(next) =~= rows_map(rows).insert(id, v));
}

/// Taking a row away takes its entry away from the map.
proof fn map_remove<V>(rows: Seq<(Seq<char>, V)>, i: int)
    requires
        ids_distinct(rows),
        0 <= i < rows.len(),
    ensures
        ids_distinct(rows.remove(i)),
        rows_map(rows.remove(i)) == rows_map(rows).remove(rows[i].0),
{
    let next = rows.remove(i);
    assert(ids_distinct(next)) by {
        assert forall|a: int, b: int| 0 <= a < b < next.len() implies (#[trigger] next[a]).0 != (
        #[trigger] next[b]).0 by {
            let a2 = if a < i {
                a
            } else {
                a + 1
            };
            let b2 = if b < i {
                b
            } else {
                b + 1
            };
            assert(next[a] == rows[a2] && next[b] == rows[b2]);
        }
    }
    assert forall|k: Seq<char>| rows_map(next).contains_key(k) <==> rows_map(rows).remove(
        rows[i].0,
    ).contains_key(k) by {
        if rows_map(next).contains_key(k) {
            let j = choose|j: int| stands_under(next, k, j);
            let j2 = if j < i {
                j
            } else {
                j + 1
            };
            assert(next[j] == rows[j2]);
            assert(stands_under(rows, k, j2));
        }
        if rows_map(rows).contains_key(k) && k != rows[i].0 {
            let j = choose|j: int| stands_under(rows, k, j);
            let j2 = if j < i {
                j
            } else {
                j - 1
            };
            assert(stands_under(next, k, j2));
        }
    }
    assert forall|k: Seq<char>| #[trigger] rows_map(next).contains_key(k) implies rows_map(next)[k]
        == rows_map(rows).remove(rows[i].0)[k] by {
        let j = choose|j: int| stands_under(next, k, j);
        assert(stands_under(next, k, j));
        row_is_mapped(next, j);
        let j2 = if j < i {
            j
        } else {
            j + 1
        };
        assert(next[j] == rows[j2]);
        row_is_mapped(rows, j2);
    }
    assert(rows_map(next) =~= rows_map(rows).remove(rows[i].0));
}

impl<V> View for IdTable<V> {
    type V = Map<Seq<char>, V>;

    open spec fn view(&self) -> Map<Seq<char>, V> {
        rows_map(self.spec_rows())
    }
}

impl<V> IdTable<V> {
    /// The table's rows, in order.
    pub closed spec fn spec_rows(&self) -> Seq<(Seq<char>, V)> {
        self.rows@.map_values(|r: (String, V)| (r.0@, r.1))
    }

    /// No two rows stand under the same identifier.
    pub open spec fn wf(&self) -> bool {
        ids_distinct(self.spec_rows())
    }

    /// A table without entries.
    pub fn new() -> (t: IdTable<V>)
        ensures
            t.wf(),
            t@ == Map::<Seq<char>, V>::empty(),
    {
        let t = IdTable { rows: Vec::new() };
        assert(t@ =~= Map::<Seq<char>, V>::empty());
        t
    }

    /// The number of entries.
    pub fn len(&self) -> (n: usize)
        requires
            self.wf(),
        ensures
            n == self@.len(),
            n == self.spec_rows().len(),
            self@.dom().finite(),
    {
        proof {
            map_len(self.spec_rows());
        }
        self.rows.len()
    }

    /// The row that stands under `id`.
    fn position(&self, id: &str) -> (r: Option<usize>)
        requires
            self.wf(),
        ensures
            match r {
                Some(i) => stands_under(self.spec_rows(), id@, i as int) && self@.contains_key(id@)
                    && self@[id@] == self.spec_rows()[i as int].1,
                None => !self@.contains_key(id@),
            },
    {
        let wanted = id.to_string();
        for i in 0..self.rows.len()
            invariant
                wanted@ == id@,
                forall|j: int| 0 <= j < i ==> !stands_under(self.spec_rows(), id@, j),
                self.wf(),
        {
            if self.rows[i].0 == wanted {
                assert(self.spec_rows()[i as int] == (self.rows@[i as int].0@, self.rows@[i as int].1));
                proof {
                    row_is_mapped(self.spec_rows(), i as int);
                }
                return Some(i);
            }
        }
        None
    }

    /// The value under `id`.
    pub fn get(&self, id: &str) -> (r: Option<&V>)
        requires
            self.wf(),
        ensures
            match r {
                Some(v) => self@.contains_key(id@) && *v == self@[id@],
                None => !self@.contains_key(id@),
            },
    {
        match self.position(id) {
            Some(i) => Some(&self.rows[i].1),
            None => None,
        }
    }

    /// Puts `v` under `id`, in place of what was there.
    pub fn insert(&mut self, id: String, v: V)
        requires
            old(self).wf(),
        ensures
            final(self).wf(),
            final(self)@ == old(self)@.insert(id@, v),
    {
        let ghost rows = self.spec_rows();
        match self.position(id.as_str()) {
            Some(i) => {
                proof {
                    map_update(rows, i as int, v);
                }
                self.rows.set(i, (id, v));
                assert(self.spec_rows() =~= rows.update(i as int, (id@, v)));
            },
            None => {
                proof {
                    map_push(rows, id@, v);
                }
                self.rows.push((id, v));
                assert(self.spec_rows() =~= rows.push((id@, v)));
            },
        }
    }

    /// Takes away the entry under `id`.
    pub fn remove(&mut self, id: &str) -> (r: Option<V>)
        requires
            old(self).wf(),
        ensures
            final(self).wf(),
            final(self)@ == old(self)@.remove(id@),
            match r {
                Some(v) => old(self)@.contains_key(id@) && v == old(self)@[id@],
                None => !old(self)@.contains_key(id@),
            },
    {
        let ghost rows = self.spec_rows();
        match self.position(id) {
            Some(i) => {
                proof {
                    map_remove(rows, i as int);
                }
                let (_, v) = self.rows.remove(i);
                assert(self.spec_rows() =~= rows.remove(i as int));
                Some(v)
            },
            None => {
                assert(self@ =~= old(self)@.remove(id@));
                None
            },
        }
    }

    /// The value in row `i`.
    pub fn value_at(&self, i: usize) -> (v: &V)
        requires
            self.wf(),
            i < self.spec_rows().len(),
        ensures
            *v == self.spec_rows()[i as int].1,
            self@.contains_key(self.spec_rows()[i as int].0),
            self@[self.spec_rows()[i as int].0] == *v,
    {
        proof {
            row_is_mapped(self.spec_rows(), i as int);
        }
        &self.rows[i].1
    }

    /// Takes away row `i`.
    pub fn remove_at(&mut self, i: usize) -> (r: (String, V))
        requires
            old(self).wf(),
            i < old(self).spec_rows().len(),
        ensures
            final(self).wf(),
            final(self).spec_rows() == old(self).spec_rows().remove(i as int),
            final(self)@ == old(self)@.remove(r.0@),
            old(self).spec_rows()[i as int] == (r.0@, r.1),
            old(self)@.contains_key(r.0@),
            old(self)@[r.0@] == r.1,
    {
        let ghost rows = self.spec_rows();
        proof {
            map_remove(rows, i as int);
            row_is_mapped(rows, i as int);
        }
        let r = self.rows.remove(i);
        assert(self.spec_rows() =~= rows.remove(i as int));
        r
    }

    /// Every entry of the map stands in some row.
    pub proof fn entry_has_row(&self, id: Seq<char>) -> (i: int)
        requires
            self.wf(),
            self@.contains_key(id),
        ensures
            0 <= i < self.spec_rows().len(),
            self.spec_rows()[i] == (id, self@[id]),
    {
        let i = choose|i: int| stands_under(self.spec_rows(), id, i);
        row_is_mapped(self.spec_rows(), i);
        i
    }
}

} // verus!
