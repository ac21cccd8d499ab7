//! The macro table: the names defined in one parse, each with its tree.
//!
//! The table keeps its entries in a vector and finds a name by comparing
//! texts. A hash map keyed by strings has no model to reason with: vstd
//! vouches for the hashing of integer keys only.

use vstd::prelude::*;
use crate::ast::Expr;
use crate::grammar::MacroMap;

verus! {

/// One macro: its name and the tree it stands for.
pub struct MacroEntry {
    pub name: String,
    pub body: Expr,
}

/// The macros of one parse. No name occurs twice.
pub struct MacroTable {
    entries: Vec<MacroEntry>,
}

/// The map that a run of entries stands for; of two entries with one name
/// the later counts.
pub open spec fn entries_map(entries: Seq<MacroEntry>) -> MacroMap
    decreases entries.len(),
{
    if entries.len() == 0 {
        Map::empty()
    } else {
        entries_map(entries.drop_last()).insert(entries.last().name@, entries.last().body@)
    }
}

/// Whether no two of the entries have the same name.
pub open spec fn distinct_names(entries: Seq<MacroEntry>) -> bool {
    forall|i: int, j: int|
        0 <= i < j < entries.len() ==> (#[trigger] entries[i]).name@ != (#[trigger] entries[j]).name@
}

proof fn lemma_replace(entries: Seq<MacroEntry>, at: int, entry: MacroEntry)
    requires
        0 <= at < entries.len(),
        entries[at].name@ == entry.name@,
        forall|k: int| at < k < entries.len() ==> (#[trigger] entries[k]).name@ != entry.name@,
    ensures
        entries_map(entries.update(at, entry)) == entries_map(entries).insert(
            entry.name@,
            entry.body@,
        ),
    decreases entries.len(),
{
    let changed = entries.update(at, entry);
    if at == entries.len() - 1 {
        assert(changed.drop_last() =~= entries.drop_last());
        assert(entries_map(changed) =~= entries_map(entries).insert(entry.name@, entry.body@));
    } else {
        assert(changed.drop_last() =~= entries.drop_last().update(at, entry));
        lemma_replace(entries.drop_last(), at, entry);
        assert(entries.last().name@ != entry.name@);
        assert(entries_map(changed) =~= entries_map(entries).insert(entry.name@, entry.body@));
    }
}

proof fn lemma_alike_entries(a: Seq<MacroEntry>, b: Seq<MacroEntry>)
    requires
        a.len() == b.len(),
        forall|i: int|
            0 <= i < a.len() ==> (#[trigger] a[i]).name@ == b[i].name@ && a[i].body@ == b[i].body@,
    ensures
        entries_map(a) == entries_map(b),
        distinct_names(b) ==> distinct_names(a),
    decreases a.len(),
{
    if a.len() > 0 {
        assert(a.last().name@ == b.last().name@ && a.last().body@ == b.last().body@) by {
            assert(a[a.len() - 1].name@ == b[a.len() - 1].name@);
        }
        assert forall|i: int| 0 <= i < a.drop_last().len() implies (#[trigger] a.drop_last()[i]).name@
            == b.drop_last()[i].name@ && a.drop_last()[i].body@ == b.drop_last()[i].body@ by {
            assert(a[i].name@ == b[i].name@);
        }
        lemma_alike_entries(a.drop_last(), b.drop_last());
    }
    if distinct_names(b) {
        assert forall|i: int, j: int| 0 <= i < j < a.len() implies (#[trigger] a[i]).name@ != (
        #[trigger] a[j]).name@ by {
            assert(a[i].name@ == b[i].name@);
            assert(a[j].name@ == b[j].name@);
            assert(b[i].name@ != b[j].name@);
        }
    }
}

impl View for MacroTable {
    type V = MacroMap;

    closed spec fn view(&self) -> MacroMap {
        entries_map(self.entries@)
    }
}

impl MacroTable {
    /// Whether the table is as it should be: no name occurs twice. This
    /// holds of every table at all times.
    #[verifier::type_invariant]
    pub closed spec fn wf(&self) -> bool {
        distinct_names(self.entries@)
    }

    /// The empty table.
    pub fn new() -> (table: Self)
        ensures
            table.wf(),
            table@ == Map::<Seq<char>, crate::ast::ExprView>::empty(),
    {
        MacroTable { entries: Vec::new() }
    }

    /// The index of the entry called `name`, if there is one.
    fn find(&self, name: &String) -> (found: Option<usize>)
        ensures
            match found {
                Some(i) => {
                    &&& i < self.entries.len()
                    &&& self.entries[i as int].name@ == name@
                    &&& forall|k: int|
                        i < k < self.entries.len() ==> (#[trigger] self.entries[k]).name@ != name@
                    &&& self@.dom().contains(name@)
                    &&& self@[name@] == self.entries[i as int].body@
                },
                None => {
                    &&& !self@.dom().contains(name@)
                    &&& forall|k: int|
                        0 <= k < self.entries.len() ==> (#[trigger] self.entries[k]).name@ != name@
                },
            },
    {
        let ghost all = self.entries@;
        let mut i: usize = self.entries.len();
        assert(all.take(i as int) =~= all);
        while i > 0
            invariant
                i <= self.entries.len(),
                all == self.entries@,
                forall|k: int| i <= k < all.len() ==> (#[trigger] all[k]).name@ != name@,
                entries_map(all).dom().contains(name@) == entries_map(all.take(i as int)).dom().contains(
                    name@,
                ),
                entries_map(all).dom().contains(name@) ==> entries_map(all)[name@] == entries_map(
                    all.take(i as int),
                )[name@],
            decreases i,
        {
            i = i - 1;
            assert(all.take(i + 1).drop_last() =~= all.take(i as int));
            assert(all.take(i + 1).last() == all[i as int]);
            if self.entries[i].name == *name {
                return Some(i);
            }
        }
        assert(all.take(0) =~= Seq::<MacroEntry>::empty());
        None
    }

    /// A copy of the table, sharing nothing with this one.
    pub fn duplicate(&self) -> (copy: MacroTable)
        ensures
            copy@ == self@,
    {
        proof {
            use_type_invariant(self);
        }
        let mut entries: Vec<MacroEntry> = Vec::new();
        let mut i: usize = 0;
        while i < self.entries.len()
            invariant
                i <= self.entries.len(),
                entries.len() == i,
                forall|j: int|
                    0 <= j < i ==> (#[trigger] entries@[j]).name@ == self.entries@[j].name@
                        && entries@[j].body@ == self.entries@[j].body@,
            decreases self.entries.len() - i,
        {
            let entry = &self.entries[i];
            entries.push(MacroEntry { name: entry.name.clone(), body: entry.body.deep_copy() });
            i = i + 1;
        }
        proof {
            lemma_alike_entries(entries@, self.entries@);
        }
        MacroTable { entries }
    }

    /// Whether a macro called `name` is defined.
    pub fn contains(&self, name: &String) -> (found: bool)
        ensures
            found == self@.dom().contains(name@),
    {
        self.find(name).is_some()
    }

    /// Lets `name` stand for `body`, whether or not it stood for something
    /// before.
    pub fn store(&mut self, name: String, body: Expr)
        ensures
            final(self).wf(),
            final(self)@ == old(self)@.insert(name@, body@),
    {
        proof {
            use_type_invariant(&*self);
        }
        let found = self.find(&name);
        let entry = MacroEntry { name, body };
        let mut entries: Vec<MacroEntry> = Vec::new();
        core::mem::swap(&mut self.entries, &mut entries);
        match found {
            Some(i) => {
                proof {
                    lemma_replace(entries@, i as int, entry);
                }
                entries.set(i, entry);
            },
            None => {
                entries.push(entry);
                assert(entries@.drop_last() =~= old(self).entries@);
            },
        }
        core::mem::swap(&mut self.entries, &mut entries);
    }

    /// A copy of the tree that `name` stands for, if it is defined.
    pub fn expand(&self, name: &String) -> (tree: Option<Expr>)
        ensures
            match tree {
                Some(e) => self@.dom().contains(name@) && e@ == self@[name@],
                None => !self@.dom().contains(name@),
            },
    {
        match self.find(name) {
            Some(i) => Some(self.entries[i].body.deep_copy()),
            None => None,
        }
    }
}

} // verus!
