//! Class mirrors: the table from a class to its mirror, and the special
//! object that is the mirror.

use crate::runtime::structs::object::ObjectMonitor;
use vstd::prelude::*;

verus! {

/// The table of the class mirrors: for the class with place `i`, the
/// identifier of its mirror, or 0 where it has none yet.
pub struct ClassTable {
    pub map: Vec<u32>,
}

impl ClassTable {
    /// The mirror of the class, if it has one.
    pub open spec fn lookup(&self, class: usize) -> Option<u32> {
        if class < self.map.len() && self.map@[class as int] != 0 {
            Some(self.map@[class as int])
        } else {
            None
        }
    }

    /// A table with no mirrors.
    pub fn new() -> (table: Self)
        ensures
            forall|class: usize| table.lookup(class).is_none(),
    {
        ClassTable { map: Vec::new() }
    }

    /// The mirror of the class, if it has one.
    pub fn get(&self, class: usize) -> (found: Option<u32>)
        ensures
            found == self.lookup(class),
    {
        if class < self.map.len() && self.map[class] != 0 {
            Some(self.map[class])
        } else {
            None
        }
    }

    /// Notes the mirror of a class.
    pub fn insert(&mut self, class: usize, mirror: u32)
        requires
            mirror != 0,
        ensures
            final(self).lookup(class) == Some(mirror),
            forall|other: usize|
                other != class ==> final(self).lookup(other) == old(self).lookup(other),
    {
        while self.map.len() <= class
            invariant
                self.map.len() >= old(self).map.len(),
                forall|k: int| 0 <= k < old(self).map.len() ==> self.map@[k] == old(self).map@[k],
                forall|k: int| old(self).map.len() <= k < self.map.len() ==> self.map@[k] == 0,
            decreases class + 1 - self.map.len(),
        {
            self.map.push(0);
        }
        self.map.set(class, mirror);
    }
}

/// The mirror of a class. Its name and the name of its package are the
/// identifiers of interned strings, or 0 while they are not known.
#[derive(Debug, Clone, Copy, PartialEq, Eq, Structural)]
pub struct SpecialClassObject {
    pub class: usize,
    pub monitor: ObjectMonitor,
    pub name_str: u32,
    pub package_name_str: u32,
}

} // verus!
