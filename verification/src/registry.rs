//! The process-wide registry of named schemas, with an explicit
//! construct-all, publish, read-only lifecycle: every registration happens
//! before `publish`, every lookup after it.

use vstd::prelude::*;

use crate::error::SpecError;
use crate::schema::Schema;

verus! {

/// The registry of named schemas.
pub struct SchemaRegistry {
    entries: Vec<(String, Schema)>,
    published: bool,
}

/// The first registered schema under a name, if any, by index.
pub open spec fn spec_registry_find(entries: Seq<(String, Schema)>, name: Seq<char>) -> Option<
    int,
> {
    if exists|i: int| 0 <= i < entries.len() && (#[trigger] entries[i]).0@ == name {
        Some(choose|i: int| 0 <= i < entries.len() && (#[trigger] entries[i]).0@ == name)
    } else {
        None
    }
}

impl SchemaRegistry {
    /// The registered entries.
    pub closed spec fn entries(self) -> Seq<(String, Schema)> {
        self.entries@
    }

    /// Whether the registry was published and may be read.
    pub closed spec fn is_published(self) -> bool {
        self.published
    }

    /// Names are registered at most once.
    pub open spec fn wf(self) -> bool {
        forall|i: int, j: int|
            0 <= i < j < self.entries().len() ==> (#[trigger] self.entries()[i]).0@ != (
            #[trigger] self.entries()[j]).0@
    }

    /// An empty, unpublished registry.
    pub fn new() -> (r: SchemaRegistry)
        ensures
            r.entries() == Seq::<(String, Schema)>::empty(),
            !r.is_published(),
            r.wf(),
    {
        SchemaRegistry { entries: Vec::new(), published: false }
    }

    /// Register a schema under a name, before publication only. A name
    /// registered twice is an error naming it.
    #[verifier::loop_isolation(false)]
    pub fn register(&mut self, name: String, schema: Schema) -> (r: Result<(), SpecError>)
        requires
            !old(self).is_published(),
            old(self).wf(),
        ensures
            !final(self).is_published(),
            final(self).wf(),
            match r {
                Ok(_) => {
                    &&& final(self).entries() == old(self).entries().push((name, schema))
                    &&& forall|i: int|
                        0 <= i < old(self).entries().len() ==> (#[trigger] old(self).entries()[
                            i
                        ]).0@ != name@
                },
                Err(e) => {
                    &&& e == SpecError::DuplicateSchemaName(name)
                    &&& *final(self) == *old(self)
                    &&& exists|i: int|
                        0 <= i < old(self).entries().len() && (#[trigger] old(self).entries()[
                            i
                        ]).0@ == name@
                },
            },
    {
        let mut i: usize = 0;
        while i < self.entries.len()
            invariant
                i <= self.entries@.len(),
                forall|k: int| 0 <= k < i ==> (#[trigger] self.entries@[k]).0@ != name@,
            decreases self.entries@.len() - i,
        {
            if self.entries[i].0.eq(&name) {
                return Err(SpecError::DuplicateSchemaName(name));
            }
            i += 1;
        }
        self.entries.push((name, schema));
        Ok(())
    }

    /// Publish the registry: from here on it is read-only.
    pub fn publish(&mut self)
        ensures
            final(self).is_published(),
            final(self).entries() == old(self).entries(),
    {
        self.published = true;
    }

    /// Look a schema up by name, after publication only.
    #[verifier::loop_isolation(false)]
    pub fn lookup(&self, name: &String) -> (r: Option<&Schema>)
        requires
            self.is_published(),
            self.wf(),
        ensures
            match r {
                Some(s) => spec_registry_find(self.entries(), name@) matches Some(i) && *s
                    == self.entries()[i].1,
                None => spec_registry_find(self.entries(), name@) is None,
            },
    {
        let mut i: usize = 0;
        while i < self.entries.len()
            invariant
                i <= self.entries@.len(),
                forall|k: int| 0 <= k < i ==> (#[trigger] self.entries@[k]).0@ != name@,
            decreases self.entries@.len() - i,
        {
            if self.entries[i].0.eq(name) {
                proof {
                    let w = choose|k: int|
                        0 <= k < self.entries@.len() && (#[trigger] self.entries@[k]).0@ == name@;
                    if w < i as int {
                        assert(self.entries@[w].0@ != self.entries@[i as int].0@);
                    } else if w > i as int {
                        assert(self.entries@[i as int].0@ != self.entries@[w].0@);
                    }
                }
                return Some(&self.entries[i].1);
            }
            i += 1;
        }
        None
    }
}

} // verus!
