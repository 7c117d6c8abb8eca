//! The per-iteration measurement table.
//!
//! A small mapping from metric name to a 64-bit scalar, rebuilt every
//! iteration: cleared before the step and filled while the step's
//! measurements are computed.  Entries keep their insertion order;
//! inserting a name that is already present replaces its value for the
//! current iteration only.

use vstd::prelude::*;

verus! {

/// The position of the first entry named `name`, or `-1` when no entry
/// carries that name.
pub open spec fn first_index_of(s: Seq<(Seq<char>, i64)>, name: Seq<char>) -> int
    decreases s.len(),
{
    if s.len() == 0 {
        -1
    } else if s[0].0 == name {
        0
    } else {
        let r = first_index_of(s.drop_first(), name);
        if r == -1 {
            -1
        } else {
            r + 1
        }
    }
}

/// What inserting `name -> value` does to the entries: replaces the
/// value of the entry already carrying `name`, or appends a new entry.
pub open spec fn table_insert(
    s: Seq<(Seq<char>, i64)>,
    name: Seq<char>,
    value: i64,
) -> Seq<(Seq<char>, i64)> {
    let i = first_index_of(s, name);
    if i == -1 {
        s.push((name, value))
    } else {
        s.update(i, (name, value))
    }
}

/// The value stored under `name`, if any.
pub open spec fn table_lookup(s: Seq<(Seq<char>, i64)>, name: Seq<char>) -> Option<i64> {
    let i = first_index_of(s, name);
    if i == -1 {
        None
    } else {
        Some(s[i].1)
    }
}

/// `first_index_of` is what its name says: `-1` exactly when the name is
/// absent, and otherwise the position of its first occurrence.
pub proof fn lemma_first_index_of(s: Seq<(Seq<char>, i64)>, name: Seq<char>)
    ensures
        first_index_of(s, name) == -1 <==> (forall|q: int|
            0 <= q < s.len() ==> (#[trigger] s[q]).0 != name),
        first_index_of(s, name) != -1 ==> {
            let i = first_index_of(s, name);
            &&& 0 <= i < s.len()
            &&& s[i].0 == name
            &&& forall|q: int| 0 <= q < i ==> (#[trigger] s[q]).0 != name
        },
    decreases s.len(),
{
    if s.len() > 0 && s[0].0 != name {
        let t = s.drop_first();
        lemma_first_index_of(t, name);
        let r = first_index_of(t, name);
        if r == -1 {
            assert forall|q: int| 0 <= q < s.len() implies (#[trigger] s[q]).0 != name by {
                if q > 0 {
                    assert(t[q - 1] == s[q]);
                    assert(t[q - 1].0 != name);
                }
            }
        } else {
            assert(t[r] == s[r + 1]);
            assert(s[r + 1].0 == name);
            assert forall|q: int| 0 <= q < r + 1 implies (#[trigger] s[q]).0 != name by {
                if q > 0 {
                    assert(t[q - 1] == s[q]);
                    assert(t[q - 1].0 != name);
                }
            }
        }
    }
}

/// A name-to-scalar mapping whose entries keep insertion order.
///
/// Scalars are carried in fixed-point form, as a signed count of
/// ten-thousandths, matching the four decimal places the monitoring
/// report prints; callers measuring real-valued quantities scale them by
/// ten thousand.
pub struct MeasureTable {
    entries: Vec<(String, i64)>,
}

impl View for MeasureTable {
    type V = Seq<(Seq<char>, i64)>;

    closed spec fn view(&self) -> Seq<(Seq<char>, i64)> {
        Seq::new(self.entries@.len(), |i: int| ((self.entries@[i].0)@, self.entries@[i].1))
    }
}

impl MeasureTable {
    /// Creates an empty table.
    pub fn new() -> (r: MeasureTable)
        ensures
            r@ == Seq::<(Seq<char>, i64)>::empty(),
    {
        let r = MeasureTable { entries: Vec::new() };
        proof {
            assert(r@ =~= Seq::<(Seq<char>, i64)>::empty());
        }
        r
    }

    /// Removes every entry.
    pub fn clear(&mut self)
        ensures
            final(self)@ == Seq::<(Seq<char>, i64)>::empty(),
    {
        self.entries.clear();
        proof {
            assert(self@ =~= Seq::<(Seq<char>, i64)>::empty());
        }
    }

    /// The number of entries.
    pub fn len(&self) -> (n: usize)
        ensures
            n == self@.len(),
    {
        self.entries.len()
    }

    /// The name of the entry at position `i`.
    pub fn entry_name(&self, i: usize) -> (r: &String)
        requires
            i < self@.len(),
        ensures
            r@ == self@[i as int].0,
    {
        &self.entries[i].0
    }

    /// The value of the entry at position `i`.
    pub fn entry_value(&self, i: usize) -> (r: i64)
        requires
            i < self@.len(),
        ensures
            r == self@[i as int].1,
    {
        self.entries[i].1
    }

    /// Stores `name -> value`, replacing the value of an entry already
    /// carrying `name` and appending a new entry otherwise.
    pub fn insert(&mut self, name: String, value: i64)
        ensures
            final(self)@ == table_insert(old(self)@, name@, value),
    {
        let ghost pre = self@;
        let n = self.entries.len();
        let mut i: usize = 0;
        while i < n
            invariant
                n == self.entries@.len(),
                i <= n,
                pre == old(self)@,
                self@ == pre,
                forall|q: int| 0 <= q < i ==> (#[trigger] pre[q]).0 != name@,
            decreases n - i,
        {
            if self.entries[i].0 == name {
                proof {
                    assert(pre[i as int].0 == (self.entries@[i as int].0)@);
                }
                self.entries[i] = (name, value);
                proof {
                    lemma_first_index_of(pre, name@);
                    assert(pre[i as int].0 == name@);
                    assert(first_index_of(pre, name@) == i);
                    assert(self@ =~= pre.update(i as int, (name@, value)));
                }
                return ;
            }
            proof {
                assert(pre[i as int].0 == (self.entries@[i as int].0)@);
            }
            i += 1;
        }
        self.entries.push((name, value));
        proof {
            lemma_first_index_of(pre, name@);
            assert(self@ =~= pre.push((name@, value)));
        }
    }

    /// The value stored under `name`, if any.
    pub fn get(&self, name: &String) -> (r: Option<i64>)
        ensures
            r == table_lookup(self@, name@),
    {
        let n = self.entries.len();
        let mut i: usize = 0;
        while i < n
            invariant
                n == self.entries@.len(),
                i <= n,
                forall|q: int| 0 <= q < i ==> (#[trigger] self@[q]).0 != name@,
            decreases n - i,
        {
            if self.entries[i].0 == *name {
                proof {
                    assert(self@[i as int].0 == (self.entries@[i as int].0)@);
                    lemma_first_index_of(self@, name@);
                    assert(self@[i as int].0 == name@);
                    assert(first_index_of(self@, name@) == i);
                }
                return Some(self.entries[i].1);
            }
            proof {
                assert(self@[i as int].0 == (self.entries@[i as int].0)@);
            }
            i += 1;
        }
        proof {
            lemma_first_index_of(self@, name@);
        }
        None
    }
}

/// A value just inserted is what a lookup of its name finds.
pub proof fn lemma_table_insert_lookup(s: Seq<(Seq<char>, i64)>, name: Seq<char>, value: i64)
    ensures
        table_lookup(table_insert(s, name, value), name) == Some(value),
{
    let i = first_index_of(s, name);
    lemma_first_index_of(s, name);
    if i == -1 {
        let t = s.push((name, value));
        lemma_first_index_of(t, name);
        let j = first_index_of(t, name);
        assert(t[s.len() as int].0 == name);
        assert(j != -1);
    } else {
        let t = s.update(i, (name, value));
        lemma_first_index_of(t, name);
        let j = first_index_of(t, name);
        assert(t[i].0 == name);
        assert(j != -1);
        assert(0 <= j < t.len() && t[j].0 == name);
        if j < i {
            assert(s[j].0 != name);
            assert(t[j] == s[j]);
            assert(false);
        }
        if j > i {
            assert(t[i].0 == name);
            assert(false);
        }
    }
}

/// Inserting one name leaves what is stored under every other name
/// unchanged.
pub proof fn lemma_table_insert_other(
    s: Seq<(Seq<char>, i64)>,
    name: Seq<char>,
    value: i64,
    other: Seq<char>,
)
    requires
        other != name,
    ensures
        table_lookup(table_insert(s, name, value), other) == table_lookup(s, other),
{
    let i = first_index_of(s, name);
    let o = first_index_of(s, other);
    lemma_first_index_of(s, name);
    lemma_first_index_of(s, other);
    let t = table_insert(s, name, value);
    lemma_first_index_of(t, other);
    let ot = first_index_of(t, other);
    if i == -1 {
        // `t` is `s` with a new entry named `name` at the end.
        if o == -1 {
            assert(forall|q: int| 0 <= q < t.len() ==> (#[trigger] t[q]).0 != other);
            assert(ot == -1);
        } else {
            assert(t[o].0 == other);
            assert(ot != -1);
            assert(forall|q: int| 0 <= q < o ==> (#[trigger] t[q]).0 != other);
            assert(ot == o);
        }
    } else {
        // `t` is `s` with the entry at `i` renamed to `name` again.
        if o == -1 {
            assert(forall|q: int| 0 <= q < t.len() ==> (#[trigger] t[q]).0 != other);
            assert(ot == -1);
        } else {
            assert(s[o].0 == other);
            assert(o != i);
            assert(t[o].0 == other);
            assert(ot != -1);
            assert(forall|q: int| 0 <= q < o ==> (#[trigger] t[q]).0 != other);
            assert(ot == o);
        }
    }
}

} // verus!
