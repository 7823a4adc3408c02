//! Registry mapping primitive names to dispatch opcodes.
use vstd::prelude::*;

use crate::profile::{PrimitiveKind, PrimitiveOpcode, PrimitiveSpec};
use crate::seqs::{find_first, lemma_first_index_is};
use crate::text::str_eq;

verus! {

/// Resolved information for a single registered primitive.
#[derive(Clone, Debug, PartialEq, Eq)]
pub struct PrimitiveEntry {
    /// Primitive control sequence name without leading backslash.
    pub name: String,
    /// Numeric dispatch key for generated or native engine code.
    pub opcode: PrimitiveOpcode,
    /// Semantic category of the primitive.
    pub kind: PrimitiveKind,
}

impl View for PrimitiveEntry {
    type V = (Seq<char>, PrimitiveOpcode, PrimitiveKind);

    open spec fn view(&self) -> (Seq<char>, PrimitiveOpcode, PrimitiveKind) {
        (self.name@, self.opcode, self.kind)
    }
}

/// Error returned when building a `PrimitiveRegistry`.
#[derive(Clone, Debug, PartialEq, Eq)]
#[non_exhaustive]
pub enum PrimitiveRegistryError {
    /// Two primitives were registered under the same name.
    DuplicateName {
        /// The duplicated control sequence name.
        name: String,
    },
}

/// Whether the spec at `i` repeats the name of an earlier spec.
pub open spec fn repeats_earlier_name(s: Seq<PrimitiveSpec>, i: int) -> bool {
    exists|j: int| 0 <= j < i && (#[trigger] s[j]).name@ == s[i].name@
}

/// No two specs share a name.
pub open spec fn names_distinct(s: Seq<PrimitiveSpec>) -> bool {
    forall|i: int, j: int| 0 <= i < j < s.len() ==> s[i].name@ != s[j].name@
}

/// Matches entries with the given name.
pub open spec fn entry_named(name: Seq<char>) -> spec_fn(PrimitiveEntry) -> bool {
    |e: PrimitiveEntry| e.name@ == name
}

/// Maps primitive control sequence names to their dispatch opcodes and semantic kinds.
#[derive(Clone, Debug, PartialEq, Eq)]
pub struct PrimitiveRegistry {
    entries: Vec<PrimitiveEntry>,
}

impl PrimitiveRegistry {
    /// The registered entries, in registration order.
    pub closed spec fn spec_entries(&self) -> Seq<PrimitiveEntry> {
        self.entries@
    }

    /// No two registered entries share a name.
    pub open spec fn well_formed(&self) -> bool {
        forall|i: int, j: int|
            0 <= i < j < self.spec_entries().len() ==> self.spec_entries()[i].name@
                != self.spec_entries()[j].name@
    }

    /// The entry registered under a name, if any.
    pub open spec fn spec_get(&self, name: Seq<char>) -> Option<PrimitiveEntry> {
        find_first(self.spec_entries(), entry_named(name))
    }

    /// Creates an empty registry.
    pub fn new() -> (r: Self)
        ensures
            r.well_formed(),
            r.spec_entries().len() == 0,
    {
        PrimitiveRegistry { entries: Vec::new() }
    }

    /// Builds a registry from a slice of specs, returning an error on the first duplicate name.
    pub fn from_specs(specs: &[PrimitiveSpec]) -> (r: Result<Self, PrimitiveRegistryError>)
        ensures
            r is Ok <==> names_distinct(specs@),
            r matches Ok(reg) ==> reg.well_formed() && reg.spec_entries().map_values(
                |e: PrimitiveEntry| e@,
            ) == specs@.map_values(|p: PrimitiveSpec| p@),
            r matches Err(PrimitiveRegistryError::DuplicateName { name }) ==> exists|i: int|
                0 <= i < specs@.len() && repeats_earlier_name(specs@, i) && (forall|k: int|
                    0 <= k < i ==> !repeats_earlier_name(specs@, k)) && name@ == specs@[i].name@,
    {
        let mut registry = PrimitiveRegistry::new();
        let mut i: usize = 0;
        while i < specs.len()
            invariant
                0 <= i <= specs@.len(),
                registry.well_formed(),
                registry.spec_entries().map_values(|e: PrimitiveEntry| e@) == specs@.take(
                    i as int,
                ).map_values(|p: PrimitiveSpec| p@),
                forall|k: int| 0 <= k < i ==> !repeats_earlier_name(specs@, k),
            decreases specs@.len() - i,
        {
            let ghost before = registry.spec_entries();
            match registry.insert(&specs[i]) {
                Ok(()) => {},
                Err(e) => {
                    proof {
                        assert(before.map_values(|e: PrimitiveEntry| e@).len() == specs@.take(
                            i as int,
                        ).map_values(|p: PrimitiveSpec| p@).len());
                        assert(before.len() == i);
                        let j = choose|j: int|
                            0 <= j < before.len() && (#[trigger] before[j]).name@ == specs@[i as int].name@;
                        assert(before.map_values(|e: PrimitiveEntry| e@)[j] == specs@.take(
                            i as int,
                        ).map_values(|p: PrimitiveSpec| p@)[j]);
                        assert(specs@[j].name@ == specs@[i as int].name@);
                        assert(repeats_earlier_name(specs@, i as int));
                        assert(!names_distinct(specs@));
                    }
                    return Err(e);
                },
            }
            proof {
                assert(before.map_values(|e: PrimitiveEntry| e@).len() == specs@.take(
                    i as int,
                ).map_values(|p: PrimitiveSpec| p@).len());
                assert(before.len() == i);
                assert forall|j: int| 0 <= j < i implies (#[trigger] specs@[j]).name@ != specs@[i as int].name@ by {
                    assert(before.map_values(|e: PrimitiveEntry| e@)[j] == specs@.take(
                        i as int,
                    ).map_values(|p: PrimitiveSpec| p@)[j]);
                    assert(before[j].name@ != specs@[i as int].name@);
                }
                assert(!repeats_earlier_name(specs@, i as int));
                let after = registry.spec_entries();
                let ma = after.map_values(|e: PrimitiveEntry| e@);
                let mb = specs@.take(i + 1).map_values(|p: PrimitiveSpec| p@);
                assert forall|k: int| 0 <= k < i + 1 implies #[trigger] ma[k] == mb[k] by {
                    if k < i {
                        assert(after[k] == after.drop_last()[k]);
                        assert(before.map_values(|e: PrimitiveEntry| e@)[k] == specs@.take(
                            i as int,
                        ).map_values(|p: PrimitiveSpec| p@)[k]);
                    } else {
                        assert(after[k] == after.last());
                    }
                }
                assert(ma =~= mb);
            }
            i += 1;
        }
        proof {
            assert(specs@.take(specs@.len() as int) =~= specs@);
            assert forall|a: int, b: int| 0 <= a < b < specs@.len() implies specs@[a].name@
                != specs@[b].name@ by {
                assert(!repeats_earlier_name(specs@, b));
            }
        }
        Ok(registry)
    }

    /// Inserts a single primitive spec, returning an error if the name is already registered.
    pub fn insert(&mut self, spec: &PrimitiveSpec) -> (r: Result<(), PrimitiveRegistryError>)
        requires
            old(self).well_formed(),
        ensures
            final(self).well_formed(),
            r is Err <==> exists|j: int|
                0 <= j < old(self).spec_entries().len() && (#[trigger] old(self).spec_entries()[j]).name@
                    == spec.name@,
            r matches Err(PrimitiveRegistryError::DuplicateName { name }) ==> name@ == spec.name@
                && final(self).spec_entries() == old(self).spec_entries(),
            r is Ok ==> final(self).spec_entries().len() == old(self).spec_entries().len() + 1
                && final(self).spec_entries().drop_last() == old(self).spec_entries()
                && final(self).spec_entries().last()@ == spec@,
    {
        let entry = PrimitiveEntry { name: spec.name.to_owned(), opcode: spec.opcode, kind: spec.kind };
        let mut i: usize = 0;
        while i < self.entries.len()
            invariant
                0 <= i <= self.entries@.len(),
                self.entries@ == old(self).entries@,
                old(self).well_formed(),
                entry@ == spec@,
                forall|j: int| 0 <= j < i ==> (#[trigger] self.entries@[j]).name@ != spec.name@,
            decreases self.entries@.len() - i,
        {
            if str_eq(self.entries[i].name.as_str(), entry.name.as_str()) {
                return Err(PrimitiveRegistryError::DuplicateName { name: entry.name });
            }
            i += 1;
        }
        let ghost before = self.entries@;
        self.entries.push(entry);
        proof {
            assert(self.entries@.drop_last() =~= before);
            assert forall|a: int, b: int| 0 <= a < b < self.entries@.len() implies self.entries@[a].name@
                != self.entries@[b].name@ by {
                assert(self.entries@[a] == before[a]);
                if b < before.len() {
                    assert(self.entries@[b] == before[b]);
                }
            }
        }
        Ok(())
    }

    /// Look up a primitive by control sequence name without leading backslash.
    pub fn get(&self, name: &str) -> (r: Option<&PrimitiveEntry>)
        ensures
            r is Some <==> self.spec_get(name@) is Some,
            r matches Some(e) ==> self.spec_get(name@) == Some(*e),
    {
        let ghost p = entry_named(name@);
        let mut i: usize = 0;
        while i < self.entries.len()
            invariant
                0 <= i <= self.entries@.len(),
                forall|j: int| 0 <= j < i ==> !p(#[trigger] self.entries@[j]),
                p == entry_named(name@),
            decreases self.entries@.len() - i,
        {
            if str_eq(self.entries[i].name.as_str(), name) {
                proof {
                    lemma_first_index_is(self.entries@, p, i as int);
                }
                return Some(&self.entries[i]);
            }
            i += 1;
        }
        proof {
            lemma_first_index_is(self.entries@, p, i as int);
        }
        None
    }

    /// Returns the number of registered primitives.
    pub fn len(&self) -> (r: usize)
        ensures
            r == self.spec_entries().len(),
    {
        self.entries.len()
    }

    /// Returns true when no primitives have been registered.
    pub fn is_empty(&self) -> (r: bool)
        ensures
            r == (self.spec_entries().len() == 0),
    {
        self.entries.len() == 0
    }
}

/// A registry built from specs with distinct names (as `from_specs` builds one) holds one
/// entry per spec: looking up a spec's name gives that spec's entry, and a name that no spec
/// has finds nothing.
pub proof fn lemma_registry_finds_every_spec(reg: PrimitiveRegistry, specs: Seq<PrimitiveSpec>, name: Seq<char>)
    requires
        names_distinct(specs),
        reg.spec_entries().map_values(|e: PrimitiveEntry| e@) == specs.map_values(|p: PrimitiveSpec| p@),
    ensures
        reg.spec_entries().len() == specs.len(),
        forall|i: int|
            0 <= i < specs.len() ==> (reg.spec_get(#[trigger] specs[i].name@) matches Some(e) && e@ == specs[i]@),
        (forall|i: int| 0 <= i < specs.len() ==> (#[trigger] specs[i]).name@ != name) ==> reg.spec_get(name) is None,
{
    let es = reg.spec_entries();
    assert(es.map_values(|e: PrimitiveEntry| e@).len() == specs.map_values(|p: PrimitiveSpec| p@).len());
    assert forall|i: int| 0 <= i < specs.len() implies (reg.spec_get(#[trigger] specs[i].name@) matches Some(e) && e@
        == specs[i]@) by {
        let p = entry_named(specs[i].name@);
        assert(es.map_values(|e: PrimitiveEntry| e@)[i] == specs.map_values(|p: PrimitiveSpec| p@)[i]);
        assert forall|j: int| 0 <= j < i implies !p(#[trigger] es[j]) by {
            assert(es.map_values(|e: PrimitiveEntry| e@)[j] == specs.map_values(|p: PrimitiveSpec| p@)[j]);
        }
        lemma_first_index_is(es, p, i);
    }
    if forall|i: int| 0 <= i < specs.len() ==> (#[trigger] specs[i]).name@ != name {
        let p = entry_named(name);
        assert forall|j: int| 0 <= j < es.len() implies !p(#[trigger] es[j]) by {
            assert(es.map_values(|e: PrimitiveEntry| e@)[j] == specs.map_values(|p: PrimitiveSpec| p@)[j]);
            assert(specs[j].name@ != name);
        }
        lemma_first_index_is(es, p, es.len() as int);
    }
}

} // verus!
