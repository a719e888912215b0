use vstd::prelude::*;

use crate::data_frame::DataFrame;
use crate::datatype::str_eq;
use crate::error::Error;
use crate::logical_plan::{LogicalPlan, Scan};
use crate::table::{same_table, Table};

verus! {

/// Tables by case-sensitive name; each name occurs once.
#[derive(Debug)]
pub struct Catalog {
    pub tables: Vec<(String, Table)>,
}

impl Catalog {
    /// Names are unique and every table is well formed.
    pub open spec fn wf(&self) -> bool {
        &&& forall|i: int, j: int|
            0 <= i < j < self.tables@.len() ==> (#[trigger] self.tables@[i]).0@ != (
            #[trigger] self.tables@[j]).0@
        &&& forall|i: int| 0 <= i < self.tables@.len() ==> (#[trigger] self.tables@[i]).1.wf()
    }

    /// The position of the table named `name`, if any.
    pub open spec fn position(&self, name: Seq<char>) -> Option<int> {
        if exists|i: int| 0 <= i < self.tables@.len() && self.tables@[i].0@ == name {
            Some(choose|i: int| 0 <= i < self.tables@.len() && self.tables@[i].0@ == name)
        } else {
            None
        }
    }

    pub fn new() -> (r: Catalog)
        ensures
            r.wf(),
            r.tables@.len() == 0,
    {
        Catalog { tables: Vec::new() }
    }

    fn find(&self, name: &str) -> (r: Option<usize>)
        ensures
            match r {
                Some(i) => i < self.tables@.len() && self.tables@[i as int].0@ == name@,
                None => forall|i: int| 0 <= i < self.tables@.len() ==> self.tables@[i].0@ != name@,
            },
    {
        let mut i: usize = 0;
        while i < self.tables.len()
            invariant
                i <= self.tables@.len(),
                forall|k: int| 0 <= k < i ==> self.tables@[k].0@ != name@,
            decreases self.tables@.len() - i,
        {
            if str_eq(self.tables[i].0.as_str(), name) {
                return Some(i);
            }
            i = i + 1;
        }
        None
    }

    /// Registers `table` under `name`, in place of any table of that name.
    pub fn add_table(&mut self, name: &str, table: Table)
        requires
            old(self).wf(),
            table.wf(),
        ensures
            final(self).wf(),
            final(self).position(name@) matches Some(i) && final(self).tables@[i].1 == table,
            forall|n: Seq<char>|
                n != name@ ==> (#[trigger] final(self).position(n)) is Some == old(self).position(
                    n,
                ) is Some,
    {
        match self.find(name) {
            Some(i) => {
                let ghost before = self.tables@;
                self.tables.set(i, (name.to_string(), table));
                assert(self.tables@[i as int].0@ == name@ && self.tables@[i as int].1 == table);
                assert forall|k: int| 0 <= k < self.tables@.len() && self.tables@[k].0@ == name@
                    implies k == i by {
                    if k != i {
                        assert(before[k].0@ == self.tables@[k].0@);
                    }
                }
                assert forall|n: Seq<char>| n != name@ implies (#[trigger] self.position(n)) is Some
                    == old(self).position(n) is Some by {
                    if old(self).position(n) is Some {
                        let k = choose|k: int| 0 <= k < before.len() && before[k].0@ == n;
                        assert(self.tables@[k].0@ == n);
                    }
                    if self.position(n) is Some {
                        let k = choose|k: int| 0 <= k < self.tables@.len() && self.tables@[k].0@ == n;
                        assert(before[k].0@ == n);
                    }
                }
            },
            None => {
                let ghost before = self.tables@;
                self.tables.push((name.to_string(), table));
                let ghost last = (self.tables@.len() - 1) as int;
                assert(self.tables@[last].0@ == name@ && self.tables@[last].1 == table);
                assert forall|k: int| 0 <= k < self.tables@.len() && self.tables@[k].0@ == name@
                    implies k == last by {
                    if k != last {
                        assert(before[k].0@ == self.tables@[k].0@);
                    }
                }
                assert forall|n: Seq<char>| n != name@ implies (#[trigger] self.position(n)) is Some
                    == old(self).position(n) is Some by {
                    if old(self).position(n) is Some {
                        let k = choose|k: int| 0 <= k < before.len() && before[k].0@ == n;
                        assert(self.tables@[k].0@ == n);
                    }
                    if self.position(n) is Some {
                        let k = choose|k: int| 0 <= k < self.tables@.len() && self.tables@[k].0@ == n;
                        assert(k != last);
                        assert(before[k].0@ == n);
                    }
                }
            },
        }
    }

    /// The table named `name`.
    pub fn get_table_by_name(&self, name: &str) -> (r: Result<&Table, Error>)
        requires
            self.wf(),
        ensures
            match r {
                Ok(t) => self.position(name@) matches Some(i) && *t == self.tables@[i].1,
                Err(e) => e is NoSuchTable && self.position(name@) is None,
            },
    {
        match self.find(name) {
            Some(i) => {
                proof {
                    let k = choose|k: int| 0 <= k < self.tables@.len() && self.tables@[k].0@ == name@;
                    if k != i {
                        if k < i {
                            assert(self.tables@[k].0@ != self.tables@[i as int].0@);
                        } else {
                            assert(self.tables@[i as int].0@ != self.tables@[k].0@);
                        }
                    }
                }
                Ok(&self.tables[i].1)
            },
            None => Err(Error::NoSuchTable(name.to_string())),
        }
    }

    /// A data frame that scans the table named `name`.
    pub fn get_table_df(&self, name: &str) -> (r: Result<DataFrame, Error>)
        requires
            self.wf(),
        ensures
            match r {
                Ok(df) => self.position(name@) matches Some(i) && match df.plan {
                    LogicalPlan::Scan(s) => s.projection is None && s.data_source.wf()
                        && same_table(self.tables@[i].1, s.data_source),
                    _ => false,
                },
                Err(e) => e is NoSuchTable && self.position(name@) is None,
            },
    {
        match self.get_table_by_name(name) {
            Ok(t) => {
                assert(t.wf());
                Ok(DataFrame::new(LogicalPlan::Scan(Scan { data_source: t.clone(), projection: None })))
            },
            Err(e) => Err(e),
        }
    }
}

} // verus!
