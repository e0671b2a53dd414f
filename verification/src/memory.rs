//! Long-term memory: facts with their sources, deduplicated, so that
//! recording the same fact twice changes nothing. Persisting the store to
//! disk happens outside the library.

use vstd::prelude::*;

verus! {

/// One remembered fact and where it came from.
#[derive(Debug)]
pub struct MemoryFact {
    pub fact: String,
    pub source: String,
}

/// The store already holds this fact from this source.
pub open spec fn has_fact(facts: Seq<MemoryFact>, fact: Seq<char>, source: Seq<char>) -> bool {
    exists|i: int| 0 <= i < facts.len() && facts[i].fact@ == fact && facts[i].source@ == source
}

/// What recording owes: an already-known pair leaves the store unchanged,
/// a new one is appended.
pub open spec fn record_spec(facts: Seq<MemoryFact>, m: MemoryFact) -> Seq<MemoryFact> {
    if has_fact(facts, m.fact@, m.source@) {
        facts
    } else {
        facts.push(m)
    }
}

/// The deduplicated fact store.
#[derive(Debug)]
pub struct FactStore {
    pub facts: Vec<MemoryFact>,
}

impl FactStore {
    /// An empty store.
    pub fn new() -> (r: FactStore)
        ensures
            r.facts@.len() == 0,
    {
        FactStore { facts: Vec::new() }
    }

    /// Record one fact with its source; a pair already present changes
    /// nothing.
    pub fn record_fact(&mut self, fact: String, source: String)
        ensures
            final(self).facts@ == record_spec(
                old(self).facts@,
                MemoryFact { fact: fact, source: source },
            ),
    {
        let ghost m = MemoryFact { fact: fact, source: source };
        let n = self.facts.len();
        let mut i: usize = 0;
        while i < n
            invariant
                n == self.facts@.len(),
                i <= n,
                forall|k: int|
                    0 <= k < i ==> !(self.facts@[k].fact@ == fact@ && self.facts@[k].source@
                        == source@),
            decreases n - i,
        {
            if crate::text::str_eq(self.facts[i].fact.as_str(), fact.as_str())
                && crate::text::str_eq(self.facts[i].source.as_str(), source.as_str()) {
                proof {
                    assert(has_fact(self.facts@, fact@, source@)) by {
                        assert(self.facts@[i as int].fact@ == fact@ && self.facts@[
                            i as int].source@ == source@);
                    }
                }
                return;
            }
            i += 1;
        }
        proof {
            assert(!has_fact(self.facts@, fact@, source@));
        }
        self.facts.push(MemoryFact { fact, source });
    }

    /// How many facts are stored.
    pub fn len(&self) -> (r: usize)
        ensures
            r == self.facts@.len(),
    {
        self.facts.len()
    }
}

/// Recording the same fact and source twice leaves the store as one
/// recording does.
pub proof fn lemma_record_fact_idempotent(facts: Seq<MemoryFact>, m1: MemoryFact, m2: MemoryFact)
    requires
        m1.fact@ == m2.fact@,
        m1.source@ == m2.source@,
    ensures
        record_spec(record_spec(facts, m1), m2) == record_spec(facts, m1),
{
    let once = record_spec(facts, m1);
    if has_fact(facts, m1.fact@, m1.source@) {
        assert(once == facts);
        assert(has_fact(once, m2.fact@, m2.source@));
    } else {
        assert(once == facts.push(m1));
        assert(once[once.len() - 1].fact@ == m2.fact@);
        assert(has_fact(once, m2.fact@, m2.source@));
    }
}

} // verus!
