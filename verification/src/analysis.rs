//! The lowered index: definitions, per-unit analyses and their aggregate.

use vstd::prelude::*;
use crate::raw::DefKind;
use crate::span::{Span, SpanV};
use crate::tables::{SpanTable, DefTable, IdListTable, SpanListTable};

verus! {

/// A lowered definition.
pub struct Def {
    pub kind: DefKind,
    pub span: Span,
    pub name: String,
    pub value: String,
    pub qualname: String,
    pub parent: Option<u32>,
    pub docs: String,
}

/// The mathematical value of a [`Def`].
pub ghost struct DefV {
    pub kind: DefKind,
    pub span: SpanV,
    pub name: Seq<char>,
    pub value: Seq<char>,
    pub qualname: Seq<char>,
    pub parent: Option<u32>,
    pub docs: Seq<char>,
}

impl View for Def {
    type V = DefV;

    open spec fn view(&self) -> DefV {
        DefV {
            kind: self.kind,
            span: self.span@,
            name: self.name@,
            value: self.value@,
            qualname: self.qualname@,
            parent: self.parent,
            docs: self.docs@,
        }
    }
}

/// The mathematical value of one unit's completed analysis.
#[verifier::ext_equal]
pub ghost struct PerCrateV {
    pub def_id_for_span: Map<SpanV, u32>,
    pub defs: Map<u32, DefV>,
    pub defs_per_file: Map<Seq<char>, Seq<u32>>,
    pub def_names: Map<Seq<char>, Seq<u32>>,
    pub ref_spans: Map<u32, Seq<SpanV>>,
}

/// The analysis of a unit before any record is processed.
pub open spec fn per_crate_empty() -> PerCrateV {
    PerCrateV {
        def_id_for_span: Map::empty(),
        defs: Map::empty(),
        defs_per_file: Map::empty(),
        def_names: Map::empty(),
        ref_spans: Map::empty(),
    }
}

/// One compilation unit's lowered analysis: span -> definition-id,
/// definition-id -> definition, file -> definition ids, short name ->
/// definition ids, and definition-id -> reference spans.
pub struct PerCrateAnalysis {
    pub def_id_for_span: SpanTable,
    pub defs: DefTable,
    pub defs_per_file: IdListTable,
    pub def_names: IdListTable,
    pub ref_spans: SpanListTable,
}

impl View for PerCrateAnalysis {
    type V = PerCrateV;

    open spec fn view(&self) -> PerCrateV {
        PerCrateV {
            def_id_for_span: self.def_id_for_span@,
            defs: self.defs@,
            defs_per_file: self.defs_per_file@,
            def_names: self.def_names@,
            ref_spans: self.ref_spans@,
        }
    }
}

impl PerCrateAnalysis {
    pub fn new() -> (r: Self)
        ensures
            r@ == per_crate_empty(),
    {
        let r = PerCrateAnalysis {
            def_id_for_span: SpanTable::new(),
            defs: DefTable::new(),
            defs_per_file: IdListTable::new(),
            def_names: IdListTable::new(),
            ref_spans: SpanListTable::new(),
        };
        proof {
            assert(r@ =~= per_crate_empty());
        }
        r
    }
}

/// The aggregate map described by an entry list: a later analysis merged
/// under a name shadows an earlier one under the same name.
pub open spec fn agg_map_of(entries: Seq<(String, PerCrateAnalysis)>) -> Map<Seq<char>, PerCrateV>
    decreases entries.len(),
{
    if entries.len() == 0 {
        Map::empty()
    } else {
        agg_map_of(entries.drop_last()).insert(entries.last().0@, entries.last().1@)
    }
}

/// A packed global identifier is defined in some already-merged unit.
pub open spec fn agg_has_def(m: Map<Seq<char>, PerCrateV>, id: u32) -> bool {
    exists|n: Seq<char>| #[trigger] m.dom().contains(n) && m[n].defs.contains_key(id)
}

proof fn lemma_agg_contains(entries: Seq<(String, PerCrateAnalysis)>, k: Seq<char>)
    ensures
        agg_map_of(entries).contains_key(k) <==> exists|i: int|
            0 <= i < entries.len() && (#[trigger] entries[i]).0@ == k,
    decreases entries.len(),
{
    if entries.len() > 0 {
        lemma_agg_contains(entries.drop_last(), k);
        if agg_map_of(entries).contains_key(k) {
            if entries.last().0@ == k {
                assert(entries[entries.len() - 1].0@ == k);
            } else {
                let i = choose|i: int|
                    0 <= i < entries.drop_last().len() && (#[trigger] entries.drop_last()[i]).0@
                        == k;
                assert(entries[i].0@ == k);
            }
        }
        if exists|i: int| 0 <= i < entries.len() && (#[trigger] entries[i]).0@ == k {
            let i = choose|i: int| 0 <= i < entries.len() && (#[trigger] entries[i]).0@ == k;
            if i < entries.len() - 1 {
                assert(entries.drop_last()[i].0@ == k);
            }
        }
    }
}

/// The aggregate of all units merged so far, keyed by unit name.
pub struct Analysis {
    pub per_crate: Vec<(String, PerCrateAnalysis)>,
}

impl View for Analysis {
    type V = Map<Seq<char>, PerCrateV>;

    open spec fn view(&self) -> Map<Seq<char>, PerCrateV> {
        agg_map_of(self.per_crate@)
    }
}

impl Analysis {
    pub fn new() -> (r: Self)
        ensures
            r@ == Map::<Seq<char>, PerCrateV>::empty(),
    {
        Analysis { per_crate: Vec::new() }
    }

    /// Merge one unit's completed analysis under its name.
    pub fn insert_per_crate(&mut self, name: String, per_crate: PerCrateAnalysis)
        ensures
            final(self)@ == old(self)@.insert(name@, per_crate@),
    {
        let ghost nv = name@;
        let ghost pv = per_crate@;
        self.per_crate.push((name, per_crate));
        proof {
            assert(self.per_crate@.drop_last() =~= old(self).per_crate@);
            assert(self@ == old(self)@.insert(nv, pv));
        }
    }

    /// The analysis merged under `name`, if any.
    pub fn get(&self, name: &String) -> (r: Option<&PerCrateAnalysis>)
        ensures
            match r {
                Some(p) => self@.contains_key(name@) && self@[name@] == p@,
                None => !self@.contains_key(name@),
            },
    {
        let mut i: usize = self.per_crate.len();
        proof {
            assert(self.per_crate@.take(i as int) =~= self.per_crate@);
        }
        while i > 0
            invariant
                i <= self.per_crate@.len(),
                self@.contains_key(name@) == agg_map_of(
                    self.per_crate@.take(i as int),
                ).contains_key(name@),
                self@.contains_key(name@) ==> agg_map_of(self.per_crate@.take(i as int))[name@]
                    == self@[name@],
            decreases i,
        {
            i = i - 1;
            proof {
                assert(self.per_crate@.take(i as int + 1).drop_last() =~= self.per_crate@.take(
                    i as int,
                ));
                assert(self.per_crate@.take(i as int + 1).last() == self.per_crate@[i as int]);
            }
            if self.per_crate[i].0 == *name {
                return Some(&self.per_crate[i].1);
            }
        }
        proof {
            assert(self.per_crate@.take(0) =~= Seq::<(String, PerCrateAnalysis)>::empty());
        }
        None
    }

    /// Whether `id` is defined in any already-merged unit.
    pub fn has_def(&self, id: u32) -> (r: bool)
        ensures
            r == agg_has_def(self@, id),
    {
        let mut i: usize = 0;
        while i < self.per_crate.len()
            invariant
                i <= self.per_crate@.len(),
                forall|j: int|
                    0 <= j < i ==> !(self@.contains_key((#[trigger] self.per_crate@[j]).0@)
                        && self@[self.per_crate@[j].0@].defs.contains_key(id)),
            decreases self.per_crate@.len() - i,
        {
            let name = &self.per_crate[i].0;
            match self.get(name) {
                Some(pca) => {
                    if pca.defs.contains(id) {
                        proof {
                            assert(self@.dom().contains(name@));
                        }
                        return true;
                    }
                },
                None => {
                    proof {
                        lemma_agg_contains(self.per_crate@, name@);
                        assert(false);
                    }
                },
            }
            i = i + 1;
        }
        proof {
            if agg_has_def(self@, id) {
                let n = choose|n: Seq<char>|
                    #[trigger] self@.dom().contains(n) && self@[n].defs.contains_key(id);
                lemma_agg_contains(self.per_crate@, n);
                let j = choose|j: int|
                    0 <= j < self.per_crate@.len() && (#[trigger] self.per_crate@[j]).0@ == n;
                assert(false);
            }
        }
        false
    }
}

} // verus!
