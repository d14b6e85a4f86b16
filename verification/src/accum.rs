use vstd::prelude::*;

verus! {

/// One accumulator entry: a stage name and its running total in
/// milliseconds.
pub struct Entry {
    pub name: String,
    pub millis: i64,
}

impl DeepView for Entry {
    type V = (Seq<char>, i64);

    open spec fn deep_view(&self) -> (Seq<char>, i64) {
        (self.name@, self.millis)
    }
}

/// The stage-name-to-total-duration mapping built during processing.
/// Entries are created on first attribution, never removed, and kept in
/// insertion order; names are unique.
pub struct StageDurations {
    entries: Vec<Entry>,
}

impl View for StageDurations {
    type V = Seq<(Seq<char>, i64)>;

    closed spec fn view(&self) -> Seq<(Seq<char>, i64)> {
        self.entries.deep_view()
    }
}

/// Index of the first entry named `name`, or -1 when there is none.
pub open spec fn find_name(m: Seq<(Seq<char>, i64)>, name: Seq<char>) -> int
    decreases m.len(),
{
    if m.len() == 0 {
        -1
    } else if m[0].0 == name {
        0
    } else {
        let r = find_name(m.drop_first(), name);
        if r < 0 {
            -1
        } else {
            r + 1
        }
    }
}

/// No two entries share a name.
pub open spec fn unique_names(m: Seq<(Seq<char>, i64)>) -> bool {
    forall|i: int, j: int| 0 <= i < j < m.len() ==> (#[trigger] m[i]).0 != (#[trigger] m[j]).0
}

/// Adding `delta` to the entry named `name`: the first such entry's total
/// grows by `delta`, or a new entry is appended. `None` when the delta or
/// the grown total does not fit the duration type.
pub open spec fn spec_add(m: Seq<(Seq<char>, i64)>, name: Seq<char>, delta: int) -> Option<
    Seq<(Seq<char>, i64)>,
> {
    if !(i64::MIN <= delta <= i64::MAX) {
        None
    } else {
        let i = find_name(m, name);
        if i < 0 {
            Some(m.push((name, delta as i64)))
        } else {
            let v = m[i].1 + delta;
            if i64::MIN <= v <= i64::MAX {
                Some(m.update(i, (name, v as i64)))
            } else {
                None
            }
        }
    }
}

/// The accumulated time across all stages together.
pub open spec fn total_millis(m: Seq<(Seq<char>, i64)>) -> int
    decreases m.len(),
{
    if m.len() == 0 {
        0
    } else {
        m[0].1 + total_millis(m.drop_first())
    }
}

proof fn lemma_total_push(m: Seq<(Seq<char>, i64)>, e: (Seq<char>, i64))
    ensures
        total_millis(m.push(e)) == total_millis(m) + e.1,
    decreases m.len(),
{
    if m.len() == 0 {
        assert(m.push(e)[0] == e);
        assert(m.push(e).drop_first() =~= Seq::<(Seq<char>, i64)>::empty());
        assert(total_millis(m.push(e)) == e.1 + total_millis(
            Seq::<(Seq<char>, i64)>::empty(),
        ));
        assert(total_millis(Seq::<(Seq<char>, i64)>::empty()) == 0);
    } else {
        assert(m.push(e)[0] == m[0]);
        assert(m.push(e).drop_first() =~= m.drop_first().push(e));
        lemma_total_push(m.drop_first(), e);
        assert(total_millis(m.push(e)) == m[0].1 + total_millis(m.drop_first().push(e)));
        assert(total_millis(m) == m[0].1 + total_millis(m.drop_first()));
    }
}

proof fn lemma_total_update(m: Seq<(Seq<char>, i64)>, i: int, e: (Seq<char>, i64))
    requires
        0 <= i < m.len(),
    ensures
        total_millis(m.update(i, e)) == total_millis(m) - m[i].1 + e.1,
    decreases m.len(),
{
    if i == 0 {
        assert(m.update(0, e).drop_first() =~= m.drop_first());
    } else {
        assert(m.update(i, e).drop_first() =~= m.drop_first().update(i - 1, e));
        lemma_total_update(m.drop_first(), i - 1, e);
    }
}

/// Adding a delta to one stage grows the total across all stages by
/// exactly that delta.
pub proof fn lemma_add_total(m: Seq<(Seq<char>, i64)>, name: Seq<char>, delta: int)
    requires
        spec_add(m, name, delta) is Some,
    ensures
        total_millis(spec_add(m, name, delta)->0) == total_millis(m) + delta,
{
    let i = find_name(m, name);
    if i < 0 {
        lemma_total_push(m, (name, delta as i64));
    } else {
        lemma_find_name_in_range(m, name);
        lemma_total_update(m, i, (name, (m[i].1 + delta) as i64));
    }
}

proof fn lemma_find_name_in_range(m: Seq<(Seq<char>, i64)>, name: Seq<char>)
    requires
        find_name(m, name) >= 0,
    ensures
        find_name(m, name) < m.len(),
    decreases m.len(),
{
    if m.len() > 0 && m[0].0 != name {
        if find_name(m.drop_first(), name) >= 0 {
            lemma_find_name_in_range(m.drop_first(), name);
        }
    }
}

proof fn lemma_find_name_at(m: Seq<(Seq<char>, i64)>, name: Seq<char>, i: int)
    requires
        0 <= i < m.len(),
        m[i].0 == name,
        forall|j: int| 0 <= j < i ==> (#[trigger] m[j]).0 != name,
    ensures
        find_name(m, name) == i,
    decreases m.len(),
{
    if i == 0 {
    } else {
        assert(m[0].0 != name);
        assert(forall|j: int| 0 <= j < m.len() - 1 ==> #[trigger] m.drop_first()[j] == m[j + 1]);
        lemma_find_name_at(m.drop_first(), name, i - 1);
    }
}

proof fn lemma_find_name_none(m: Seq<(Seq<char>, i64)>, name: Seq<char>)
    requires
        forall|j: int| 0 <= j < m.len() ==> (#[trigger] m[j]).0 != name,
    ensures
        find_name(m, name) == -1,
    decreases m.len(),
{
    if m.len() > 0 {
        assert(forall|j: int| 0 <= j < m.len() - 1 ==> #[trigger] m.drop_first()[j] == m[j + 1]);
        lemma_find_name_none(m.drop_first(), name);
    }
}

impl StageDurations {
    /// An empty accumulator.
    pub fn new() -> (r: StageDurations)
        ensures
            r@ == Seq::<(Seq<char>, i64)>::empty(),
    {
        let r = StageDurations { entries: Vec::new() };
        proof {
            assert(r@ =~= Seq::<(Seq<char>, i64)>::empty());
        }
        r
    }

    /// How many stages have an entry.
    pub fn len(&self) -> (n: usize)
        ensures
            n == self@.len(),
    {
        self.entries.len()
    }

    /// The entry at position `i` in insertion order.
    pub fn entry_at(&self, i: usize) -> (r: (String, i64))
        requires
            i < self@.len(),
        ensures
            r.0@ == self@[i as int].0,
            r.1 == self@[i as int].1,
    {
        let e = &self.entries[i];
        (e.name.clone(), e.millis)
    }

    /// The total recorded for `name`, or `None` when no time was ever
    /// attributed to it.
    pub fn get_millis(&self, name: &str) -> (r: Option<i64>)
        ensures
            r == (if find_name(self@, name@) >= 0 {
                Some(self@[find_name(self@, name@)].1)
            } else {
                Option::<i64>::None
            }),
    {
        let name_s = name.to_owned();
        let mut i: usize = 0;
        while i < self.entries.len()
            invariant
                0 <= i <= self@.len(),
                name_s@ == name@,
                self@.len() == self.entries@.len(),
                forall|j: int| 0 <= j < i ==> (#[trigger] self@[j]).0 != name@,
            decreases self@.len() - i,
        {
            if self.entries[i].name == name_s {
                proof {
                    assert(self@[i as int].0 == name@);
                    lemma_find_name_at(self@, name@, i as int);
                }
                return Some(self.entries[i].millis);
            }
            i += 1;
        }
        proof {
            lemma_find_name_none(self@, name@);
        }
        None
    }

    /// Add `delta` milliseconds to the stage named `name`, creating its
    /// entry at the end when it has none. Returns false — and leaves the
    /// accumulator unchanged — exactly when the grown total would not fit.
    /// Unique names stay unique.
    pub fn add(&mut self, name: String, delta: i64) -> (ok: bool)
        ensures
            match spec_add(old(self)@, name@, delta as int) {
                Some(m) => ok && final(self)@ == m,
                None => !ok && final(self)@ == old(self)@,
            },
            unique_names(old(self)@) ==> unique_names(final(self)@),
    {
        let ghost m0 = self@;
        let mut i: usize = 0;
        while i < self.entries.len()
            invariant
                0 <= i <= m0.len(),
                m0 == old(self)@,
                self@ == m0,
                m0.len() == self.entries@.len(),
                forall|j: int| 0 <= j < i ==> (#[trigger] m0[j]).0 != name@,
            decreases m0.len() - i,
        {
            if self.entries[i].name == name {
                proof {
                    assert(m0[i as int].0 == name@);
                    lemma_find_name_at(m0, name@, i as int);
                }
                let cur = self.entries[i].millis;
                if (delta > 0 && cur > i64::MAX - delta) || (delta < 0 && cur < i64::MIN - delta) {
                    return false;
                }
                let e = self.entries.remove(i);
                self.entries.insert(i, Entry { name, millis: cur + delta });
                proof {
                    assert(find_name(m0, name@) == i);
                    assert(self@ =~= m0.update(i as int, (name@, (cur + delta) as i64)));
                    assert(unique_names(m0) ==> unique_names(self@)) by {
                        if unique_names(m0) {
                            assert(forall|a: int, b: int|
                                0 <= a < b < self@.len() ==> (#[trigger] self@[a]).0 != (
                                #[trigger] self@[b]).0) by {
                                assert(forall|a: int|
                                    0 <= a < self@.len() && a != i ==> (#[trigger] self@[a]).0
                                        == m0[a].0);
                            }
                        }
                    }
                }
                return true;
            }
            i += 1;
        }
        proof {
            lemma_find_name_none(m0, name@);
        }
        self.entries.push(Entry { name, millis: delta });
        proof {
            assert(self@ =~= m0.push((name@, delta)));
            assert(unique_names(m0) ==> unique_names(self@)) by {
                if unique_names(m0) {
                    assert(forall|a: int|
                        0 <= a < m0.len() ==> (#[trigger] self@[a]).0 == m0[a].0);
                }
            }
        }
        true
    }
}

} // verus!
