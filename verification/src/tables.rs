//! Small association tables with mathematical map views.
//!
//! Each table stores its entries as a vector of pairs and is read through
//! its view, a `Map` in which a later entry for a key shadows an earlier
//! one. Lookups scan from the most recent entry backwards, so they agree
//! with the view exactly, and insertion is a push.

use vstd::prelude::*;
use crate::span::{Span, SpanV, span_eq, spans_view};
use crate::analysis::{Def, DefV};

verus! {

/// The map described by an entry list: later entries shadow earlier ones.
pub open spec fn span_map_of(entries: Seq<(Span, u32)>) -> Map<SpanV, u32>
    decreases entries.len(),
{
    if entries.len() == 0 {
        Map::empty()
    } else {
        span_map_of(entries.drop_last()).insert(entries.last().0@, entries.last().1)
    }
}

/// Span -> definition-id table (`def_id_for_span`).
pub struct SpanTable {
    pub entries: Vec<(Span, u32)>,
}

impl View for SpanTable {
    type V = Map<SpanV, u32>;

    open spec fn view(&self) -> Map<SpanV, u32> {
        span_map_of(self.entries@)
    }
}

impl SpanTable {
    pub fn new() -> (r: Self)
        ensures
            r@ == Map::<SpanV, u32>::empty(),
    {
        SpanTable { entries: Vec::new() }
    }

    pub fn insert(&mut self, k: Span, v: u32)
        ensures
            final(self)@ == old(self)@.insert(k@, v),
    {
        let ghost kv = k@;
        self.entries.push((k, v));
        proof {
            assert(self.entries@.drop_last() =~= old(self).entries@);
            assert(self@ == old(self)@.insert(kv, v));
        }
    }

    pub fn get(&self, k: &Span) -> (r: Option<u32>)
        ensures
            match r {
                Some(v) => self@.contains_key(k@) && self@[k@] == v,
                None => !self@.contains_key(k@),
            },
    {
        let mut i: usize = self.entries.len();
        proof {
            assert(self.entries@.take(i as int) =~= self.entries@);
        }
        while i > 0
            invariant
                i <= self.entries@.len(),
                self@.contains_key(k@) == span_map_of(self.entries@.take(i as int)).contains_key(
                    k@,
                ),
                self@.contains_key(k@) ==> span_map_of(self.entries@.take(i as int))[k@]
                    == self@[k@],
            decreases i,
        {
            i = i - 1;
            let e = &self.entries[i];
            proof {
                assert(self.entries@.take(i as int + 1).drop_last() =~= self.entries@.take(
                    i as int,
                ));
                assert(self.entries@.take(i as int + 1).last() == self.entries@[i as int]);
            }
            if span_eq(&e.0, k) {
                return Some(e.1);
            }
        }
        proof {
            assert(self.entries@.take(0) =~= Seq::<(Span, u32)>::empty());
        }
        None
    }

    pub fn contains(&self, k: &Span) -> (r: bool)
        ensures
            r == self@.contains_key(k@),
    {
        self.get(k).is_some()
    }
}

/// The map described by an entry list: later entries shadow earlier ones.
pub open spec fn def_map_of(entries: Seq<(u32, Def)>) -> Map<u32, DefV>
    decreases entries.len(),
{
    if entries.len() == 0 {
        Map::empty()
    } else {
        def_map_of(entries.drop_last()).insert(entries.last().0, entries.last().1@)
    }
}

/// Definition-id -> definition table (`defs`).
pub struct DefTable {
    pub entries: Vec<(u32, Def)>,
}

impl View for DefTable {
    type V = Map<u32, DefV>;

    open spec fn view(&self) -> Map<u32, DefV> {
        def_map_of(self.entries@)
    }
}

impl DefTable {
    pub fn new() -> (r: Self)
        ensures
            r@ == Map::<u32, DefV>::empty(),
    {
        DefTable { entries: Vec::new() }
    }

    pub fn insert(&mut self, k: u32, v: Def)
        ensures
            final(self)@ == old(self)@.insert(k, v@),
    {
        let ghost vv = v@;
        self.entries.push((k, v));
        proof {
            assert(self.entries@.drop_last() =~= old(self).entries@);
            assert(self@ == old(self)@.insert(k, vv));
        }
    }

    pub fn get(&self, k: u32) -> (r: Option<&Def>)
        ensures
            match r {
                Some(d) => self@.contains_key(k) && self@[k] == d@,
                None => !self@.contains_key(k),
            },
    {
        let mut i: usize = self.entries.len();
        proof {
            assert(self.entries@.take(i as int) =~= self.entries@);
        }
        while i > 0
            invariant
                i <= self.entries@.len(),
                self@.contains_key(k) == def_map_of(self.entries@.take(i as int)).contains_key(k),
                self@.contains_key(k) ==> def_map_of(self.entries@.take(i as int))[k] == self@[k],
            decreases i,
        {
            i = i - 1;
            proof {
                assert(self.entries@.take(i as int + 1).drop_last() =~= self.entries@.take(
                    i as int,
                ));
                assert(self.entries@.take(i as int + 1).last() == self.entries@[i as int]);
            }
            if self.entries[i].0 == k {
                return Some(&self.entries[i].1);
            }
        }
        proof {
            assert(self.entries@.take(0) =~= Seq::<(u32, Def)>::empty());
        }
        None
    }

    pub fn contains(&self, k: u32) -> (r: bool)
        ensures
            r == self@.contains_key(k),
    {
        self.get(k).is_some()
    }
}

fn copy_ids(v: &Vec<u32>) -> (r: Vec<u32>)
    ensures
        r@ == v@,
{
    let mut r: Vec<u32> = Vec::new();
    let mut i: usize = 0;
    while i < v.len()
        invariant
            i <= v@.len(),
            r@ == v@.take(i as int),
        decreases v@.len() - i,
    {
        r.push(v[i]);
        proof {
            assert(v@.take(i as int + 1).drop_last() =~= v@.take(i as int));
            assert(r@ =~= v@.take(i as int + 1));
        }
        i = i + 1;
    }
    proof {
        assert(v@.take(v@.len() as int) =~= v@);
    }
    r
}

fn copy_spans(v: &Vec<Span>) -> (r: Vec<Span>)
    ensures
        spans_view(r@) == spans_view(v@),
{
    let mut r: Vec<Span> = Vec::new();
    let mut i: usize = 0;
    while i < v.len()
        invariant
            i <= v@.len(),
            r@.len() == i,
            forall|j: int| 0 <= j < i ==> (#[trigger] r@[j])@ == v@[j]@,
        decreases v@.len() - i,
    {
        r.push(v[i].clone());
        i = i + 1;
    }
    proof {
        assert(spans_view(r@) =~= spans_view(v@));
    }
    r
}

/// The map update made by appending one id to a key's list.
pub open spec fn pushed_id(m: Map<Seq<char>, Seq<u32>>, k: Seq<char>, v: u32) -> Map<
    Seq<char>,
    Seq<u32>,
> {
    m.insert(
        k,
        (if m.contains_key(k) {
            m[k]
        } else {
            Seq::empty()
        }).push(v),
    )
}

/// The map described by an entry list: later entries shadow earlier ones.
pub open spec fn ids_map_of(entries: Seq<(String, Vec<u32>)>) -> Map<Seq<char>, Seq<u32>>
    decreases entries.len(),
{
    if entries.len() == 0 {
        Map::empty()
    } else {
        ids_map_of(entries.drop_last()).insert(entries.last().0@, entries.last().1@)
    }
}

/// Name -> ordered definition-id list table (`defs_per_file`, `def_names`).
pub struct IdListTable {
    pub entries: Vec<(String, Vec<u32>)>,
}

impl View for IdListTable {
    type V = Map<Seq<char>, Seq<u32>>;

    open spec fn view(&self) -> Map<Seq<char>, Seq<u32>> {
        ids_map_of(self.entries@)
    }
}

impl IdListTable {
    pub fn new() -> (r: Self)
        ensures
            r@ == Map::<Seq<char>, Seq<u32>>::empty(),
    {
        IdListTable { entries: Vec::new() }
    }

    pub fn get(&self, k: &String) -> (r: Option<&Vec<u32>>)
        ensures
            match r {
                Some(ids) => self@.contains_key(k@) && self@[k@] == ids@,
                None => !self@.contains_key(k@),
            },
    {
        let mut i: usize = self.entries.len();
        proof {
            assert(self.entries@.take(i as int) =~= self.entries@);
        }
        while i > 0
            invariant
                i <= self.entries@.len(),
                self@.contains_key(k@) == ids_map_of(self.entries@.take(i as int)).contains_key(
                    k@,
                ),
                self@.contains_key(k@) ==> ids_map_of(self.entries@.take(i as int))[k@]
                    == self@[k@],
            decreases i,
        {
            i = i - 1;
            proof {
                assert(self.entries@.take(i as int + 1).drop_last() =~= self.entries@.take(
                    i as int,
                ));
                assert(self.entries@.take(i as int + 1).last() == self.entries@[i as int]);
            }
            if self.entries[i].0 == *k {
                return Some(&self.entries[i].1);
            }
        }
        proof {
            assert(self.entries@.take(0) =~= Seq::<(String, Vec<u32>)>::empty());
        }
        None
    }

    /// Append `v` to the list registered under `k`, starting a list if none.
    pub fn push_at(&mut self, k: String, v: u32)
        ensures
            final(self)@ == pushed_id(old(self)@, k@, v),
    {
        let ghost kv = k@;
        let mut cur: Vec<u32> = match self.get(&k) {
            Some(ids) => copy_ids(ids),
            None => Vec::new(),
        };
        cur.push(v);
        self.entries.push((k, cur));
        proof {
            assert(self.entries@.drop_last() =~= old(self).entries@);
            assert(self@ == pushed_id(old(self)@, kv, v));
        }
    }
}

/// The map update made by appending one span to an id's list.
pub open spec fn pushed_span(m: Map<u32, Seq<SpanV>>, k: u32, s: SpanV) -> Map<u32, Seq<SpanV>> {
    m.insert(
        k,
        (if m.contains_key(k) {
            m[k]
        } else {
            Seq::empty()
        }).push(s),
    )
}

/// The map described by an entry list: later entries shadow earlier ones.
pub open spec fn spans_map_of(entries: Seq<(u32, Vec<Span>)>) -> Map<u32, Seq<SpanV>>
    decreases entries.len(),
{
    if entries.len() == 0 {
        Map::empty()
    } else {
        spans_map_of(entries.drop_last()).insert(
            entries.last().0,
            spans_view(entries.last().1@),
        )
    }
}

/// Definition-id -> reference-span list table (`ref_spans`).
pub struct SpanListTable {
    pub entries: Vec<(u32, Vec<Span>)>,
}

impl View for SpanListTable {
    type V = Map<u32, Seq<SpanV>>;

    open spec fn view(&self) -> Map<u32, Seq<SpanV>> {
        spans_map_of(self.entries@)
    }
}

impl SpanListTable {
    pub fn new() -> (r: Self)
        ensures
            r@ == Map::<u32, Seq<SpanV>>::empty(),
    {
        SpanListTable { entries: Vec::new() }
    }

    pub fn get(&self, k: u32) -> (r: Option<&Vec<Span>>)
        ensures
            match r {
                Some(spans) => self@.contains_key(k) && self@[k] == spans_view(spans@),
                None => !self@.contains_key(k),
            },
    {
        let mut i: usize = self.entries.len();
        proof {
            assert(self.entries@.take(i as int) =~= self.entries@);
        }
        while i > 0
            invariant
                i <= self.entries@.len(),
                self@.contains_key(k) == spans_map_of(self.entries@.take(i as int)).contains_key(
                    k,
                ),
                self@.contains_key(k) ==> spans_map_of(self.entries@.take(i as int))[k]
                    == self@[k],
            decreases i,
        {
            i = i - 1;
            proof {
                assert(self.entries@.take(i as int + 1).drop_last() =~= self.entries@.take(
                    i as int,
                ));
                assert(self.entries@.take(i as int + 1).last() == self.entries@[i as int]);
            }
            if self.entries[i].0 == k {
                return Some(&self.entries[i].1);
            }
        }
        proof {
            assert(self.entries@.take(0) =~= Seq::<(u32, Vec<Span>)>::empty());
        }
        None
    }

    /// Append `s` to the list registered under `k`, starting a list if none.
    pub fn push_at(&mut self, k: u32, s: Span)
        ensures
            final(self)@ == pushed_span(old(self)@, k, s@),
    {
        let ghost sv = s@;
        let mut cur: Vec<Span> = match self.get(k) {
            Some(spans) => copy_spans(spans),
            None => Vec::new(),
        };
        cur.push(s);
        proof {
            assert(spans_view(cur@).drop_last() =~= spans_view(cur@.drop_last()));
        }
        self.entries.push((k, cur));
        proof {
            assert(self.entries@.drop_last() =~= old(self).entries@);
            assert(spans_view(self.entries@.last().1@) =~= (if old(self)@.contains_key(k) {
                old(self)@[k]
            } else {
                Seq::<SpanV>::empty()
            }).push(sv));
            assert(self@ == pushed_span(old(self)@, k, sv));
        }
    }
}

/// The registry view of a name list.
pub open spec fn reg_view_of(names: Seq<String>) -> Seq<Seq<char>> {
    names.map_values(|s: String| s@)
}

/// All registered names are distinct and the registry fits the 8-bit
/// global crate number field.
pub open spec fn reg_wf(reg: Seq<Seq<char>>) -> bool {
    &&& reg.len() <= 256
    &&& forall|i: int, j: int| 0 <= i < j < reg.len() ==> reg[i] != reg[j]
}

/// What one resolution does to the registry: an already-known name keeps
/// its number (its position), a new name is appended and numbered with the
/// old size, and a new name past 256 distinct units is refused.
pub open spec fn spec_resolve(reg: Seq<Seq<char>>, name: Seq<char>) -> Option<
    (Seq<Seq<char>>, u8),
> {
    if exists|i: int| 0 <= i < reg.len() && reg[i] == name {
        Some((reg, (choose|i: int| 0 <= i < reg.len() && reg[i] == name) as u8))
    } else if reg.len() < 256 {
        Some((reg.push(name), reg.len() as u8))
    } else {
        None
    }
}

/// Batch-scoped table mapping unit name -> small sequential global number,
/// first-seen-wins, shared across all units of one lowering pass.
pub struct CrateRegistry {
    pub names: Vec<String>,
}

impl View for CrateRegistry {
    type V = Seq<Seq<char>>;

    open spec fn view(&self) -> Seq<Seq<char>> {
        reg_view_of(self.names@)
    }
}

impl CrateRegistry {
    pub open spec fn wf(&self) -> bool {
        reg_wf(self@)
    }

    pub fn new() -> (r: Self)
        ensures
            r@ == Seq::<Seq<char>>::empty(),
            r.wf(),
    {
        let r = CrateRegistry { names: Vec::new() };
        proof {
            assert(r@ =~= Seq::<Seq<char>>::empty());
        }
        r
    }

    /// Global number of `name`, assigning the next sequential number on
    /// first encounter. `None` reports that a 257th distinct unit name
    /// would overflow the 8-bit crate number field.
    pub fn resolve(&mut self, name: &String) -> (r: Option<u8>)
        requires
            old(self).wf(),
        ensures
            final(self).wf(),
            match r {
                Some(n) => spec_resolve(old(self)@, name@) == Some((final(self)@, n)),
                None => spec_resolve(old(self)@, name@) is None && final(self)@ == old(self)@,
            },
    {
        let mut i: usize = 0;
        while i < self.names.len()
            invariant
                i <= self.names@.len(),
                old(self).wf(),
                self == old(self),
                forall|j: int| 0 <= j < i ==> self@[j] != name@,
            decreases self.names@.len() - i,
        {
            if self.names[i] == *name {
                proof {
                    assert(self@[i as int] == name@);
                    let w = choose|j: int| 0 <= j < self@.len() && self@[j] == name@;
                    assert(self@[w] == name@);
                    assert(w == i as int);
                }
                return Some(i as u8);
            }
            i = i + 1;
        }
        if self.names.len() < 256 {
            let ghost old_view = self@;
            let n = self.names.len() as u8;
            self.names.push(name.clone());
            proof {
                assert(self@ =~= old_view.push(name@));
                assert(!(exists|i: int| 0 <= i < old_view.len() && old_view[i] == name@));
            }
            Some(n)
        } else {
            proof {
                assert(!(exists|i: int| 0 <= i < self@.len() && self@[i] == name@));
            }
            None
        }
    }
}

} // verus!
