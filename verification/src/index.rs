//! One direction of a relation between identities: for each code, the set of
//! identities filed under it.

use vstd::prelude::*;
use std::collections::HashMap;
use crate::identity::Identity;

verus! {

broadcast use vstd::std_specs::hash::group_hash_axioms;

/// For each code the identities filed under it, each once.
pub struct Index<V: Identity> {
    rows: HashMap<u128, Vec<V>>,
}

/// Where `wanted` stands in `row`, if it does.
fn position_in<V: Identity>(row: &Vec<V>, wanted: &V) -> (found: Option<usize>)
    ensures
        match found {
            Some(at) => at < row@.len() && row@[at as int] == *wanted,
            None => !row@.contains(*wanted),
        },
{
    let mut i: usize = 0;
    while i < row.len()
        invariant
            i <= row@.len(),
            forall|j: int| 0 <= j < i ==> row@[j] != *wanted,
        decreases row@.len() - i,
    {
        if row[i].same(wanted) {
            return Some(i);
        }
        i += 1;
    }
    None
}

/// A copy of `row`.
fn copy_of<V: Identity>(row: &Vec<V>) -> (copy: Vec<V>)
    ensures
        copy@ == row@,
{
    let mut copy: Vec<V> = Vec::new();
    let mut i: usize = 0;
    while i < row.len()
        invariant
            i <= row@.len(),
            copy@ == row@.subrange(0, i as int),
        decreases row@.len() - i,
    {
        copy.push(row[i]);
        assert(copy@ =~= row@.subrange(0, i + 1));
        i += 1;
    }
    assert(copy@ =~= row@);
    copy
}

/// A row without repeats stays one when something new is put last.
proof fn lemma_push_new<V>(row: Seq<V>, value: V)
    requires
        row.no_duplicates(),
        !row.contains(value),
    ensures
        row.push(value).no_duplicates(),
        row.push(value).to_set() == row.to_set().insert(value),
{
    let longer = row.push(value);
    assert forall|x: V| longer.to_set().contains(x) == row.to_set().insert(value).contains(
        x,
    ) by {
        if longer.contains(x) {
            let at = choose|at: int| 0 <= at < longer.len() && longer[at] == x;
            if at < row.len() {
                assert(row[at] == x);
            }
        }
        if row.contains(x) {
            let at = choose|at: int| 0 <= at < row.len() && row[at] == x;
            assert(longer[at] == x);
        }
        if x == value {
            assert(longer[row.len() as int] == x);
        }
    }
    assert(longer.to_set() =~= row.to_set().insert(value));
}

/// A row without repeats stays one when an item is taken out, and then lacks
/// exactly that item.
proof fn lemma_remove_at<V>(row: Seq<V>, at: int)
    requires
        row.no_duplicates(),
        0 <= at < row.len(),
    ensures
        row.remove(at).no_duplicates(),
        row.remove(at).to_set() == row.to_set().remove(row[at]),
{
    let shorter = row.remove(at);
    assert forall|x: V| shorter.to_set().contains(x) == row.to_set().remove(row[at]).contains(
        x,
    ) by {
        if shorter.contains(x) {
            let i = choose|i: int| 0 <= i < shorter.len() && shorter[i] == x;
            if i < at {
                assert(row[i] == x);
            } else {
                assert(row[i + 1] == x);
            }
        }
        if row.contains(x) && x != row[at] {
            let i = choose|i: int| 0 <= i < row.len() && row[i] == x;
            if i < at {
                assert(shorter[i] == x);
            } else {
                assert(shorter[i - 1] == x);
            }
        }
    }
    assert(shorter.to_set() =~= row.to_set().remove(row[at]));
}

impl<V: Identity> Index<V> {
    /// The identities filed under `code`, in the order they were filed.
    pub closed spec fn row(&self, code: u128) -> Seq<V> {
        if self.rows@.contains_key(code) {
            self.rows@[code]@
        } else {
            Seq::empty()
        }
    }

    /// The identities filed under `code`.
    pub open spec fn related(&self, code: u128) -> Set<V> {
        self.row(code).to_set()
    }

    /// No row holds an identity twice.
    pub closed spec fn wf(&self) -> bool {
        forall|code: u128| #[trigger] self.row(code).no_duplicates()
    }

    /// An index with nothing filed.
    pub fn new() -> (index: Self)
        ensures
            index.wf(),
            forall|code: u128| #[trigger] index.related(code) == Set::<V>::empty(),
    {
        let index = Index { rows: HashMap::new() };
        assert forall|code: u128| #[trigger] index.related(code) == Set::<V>::empty() by {
            assert(index.related(code) =~= Set::<V>::empty());
        }
        index
    }

    /// Whether `value` is filed under `code`.
    pub fn contains(&self, code: u128, value: &V) -> (found: bool)
        ensures
            found == self.related(code).contains(*value),
    {
        match self.rows.get(&code) {
            Some(row) => position_in(row, value).is_some(),
            None => false,
        }
    }

    /// The identities filed under `code`, each once.
    pub fn list(&self, code: u128) -> (row: Vec<V>)
        ensures
            row@ == self.row(code),
    {
        match self.rows.get(&code) {
            Some(row) => copy_of(row),
            None => Vec::new(),
        }
    }

    /// Files `value` under `code` unless it is filed there already, and says
    /// whether it was new.
    pub fn insert(&mut self, code: u128, value: V) -> (added: bool)
        requires
            old(self).wf(),
        ensures
            final(self).wf(),
            added == !old(self).related(code).contains(value),
            final(self).related(code) == old(self).related(code).insert(value),
            forall|other: u128|
                other != code ==> #[trigger] final(self).row(other) == old(self).row(other),
    {
        let mut row = match self.rows.remove(&code) {
            Some(row) => row,
            None => Vec::new(),
        };
        assert(row@ == old(self).row(code));
        let added = position_in(&row, &value).is_none();
        if added {
            proof {
                lemma_push_new(row@, value);
            }
            row.push(value);
        } else {
            assert(row@.to_set().insert(value) =~= row@.to_set());
        }
        self.rows.insert(code, row);
        assert(final(self).row(code) == row@);
        assert forall|other: u128| #[trigger] final(self).row(other).no_duplicates() by {
            if other != code {
                assert(final(self).row(other) == old(self).row(other));
            }
        }
        added
    }

    /// Takes `value` out from under `code`, and says whether it was there.
    pub fn remove(&mut self, code: u128, value: &V) -> (removed: bool)
        requires
            old(self).wf(),
        ensures
            final(self).wf(),
            removed == old(self).related(code).contains(*value),
            final(self).related(code) == old(self).related(code).remove(*value),
            forall|other: u128|
                other != code ==> #[trigger] final(self).row(other) == old(self).row(other),
    {
        let mut row = match self.rows.remove(&code) {
            Some(row) => row,
            None => Vec::new(),
        };
        assert(row@ == old(self).row(code));
        let removed = match position_in(&row, value) {
            Some(at) => {
                proof {
                    lemma_remove_at(row@, at as int);
                }
                row.remove(at);
                true
            },
            None => {
                assert(row@.to_set().remove(*value) =~= row@.to_set());
                false
            },
        };
        if row.len() > 0 {
            self.rows.insert(code, row);
        }
        assert(final(self).row(code) =~= row@);
        assert forall|other: u128| #[trigger] final(self).row(other).no_duplicates() by {
            if other != code {
                assert(final(self).row(other) == old(self).row(other));
            }
        }
        removed
    }

    /// Takes out all that is filed under `code`, and hands it over.
    pub fn take(&mut self, code: u128) -> (row: Vec<V>)
        requires
            old(self).wf(),
        ensures
            final(self).wf(),
            row@ == old(self).row(code),
            final(self).row(code) == Seq::<V>::empty(),
            forall|other: u128|
                other != code ==> #[trigger] final(self).row(other) == old(self).row(other),
    {
        let row = match self.rows.remove(&code) {
            Some(row) => row,
            None => Vec::new(),
        };
        assert forall|other: u128| #[trigger] final(self).row(other).no_duplicates() by {
            if other != code {
                assert(final(self).row(other) == old(self).row(other));
            }
        }
        row
    }

    /// No row holds an identity twice.
    pub proof fn lemma_rows_have_no_repeats(&self, code: u128)
        requires
            self.wf(),
        ensures
            self.row(code).no_duplicates(),
    {
    }
}

} // verus!
