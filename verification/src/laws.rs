//! Batch-wide laws of the lowering pass, stated over the spec model and
//! proved once and for all.

use vstd::prelude::*;
use crate::raw;
use crate::raw::{NULL, DefKind, prelude_wf};
use crate::analysis::{PerCrateV, agg_has_def, per_crate_empty};
use crate::tables::{spec_resolve, reg_wf};
use crate::lowering::{
    spec_pack,
    spec_lower_span,
    spec_build_table,
    spec_table_deps,
    dep_with_num,
    step_import,
    step_def,
    step_ref,
    lower_imports_spec,
    lower_defs_spec,
    lower_refs_spec,
    spec_read_crate,
    spec_lower,
    doc_summary,
    sep_index_from,
};

verus! {

/// `a` is an initial segment of `b`.
pub open spec fn is_prefix_of(a: Seq<Seq<char>>, b: Seq<Seq<char>>) -> bool {
    a.len() <= b.len() && forall|i: int| 0 <= i < a.len() ==> #[trigger] a[i] == b[i]
}

proof fn lemma_resolve_props(reg: Seq<Seq<char>>, name: Seq<char>)
    requires
        reg_wf(reg),
    ensures
        spec_resolve(reg, name) matches Some(rn) ==> {
            &&& reg_wf(rn.0)
            &&& is_prefix_of(reg, rn.0)
            &&& (rn.1 as int) < rn.0.len()
            &&& rn.0[rn.1 as int] == name
        },
{
    if exists|i: int| 0 <= i < reg.len() && reg[i] == name {
        let i = choose|i: int| 0 <= i < reg.len() && reg[i] == name;
        assert(reg[i] == name);
        assert(i < 256);
        assert(((i as u8) as int) == i);
    } else if reg.len() < 256 {
        let reg2 = reg.push(name);
        assert forall|i: int, j: int| 0 <= i < j < reg2.len() implies reg2[i] != reg2[j] by {
            if j == reg.len() {
                assert(reg2[i] == reg[i]);
            }
        }
        assert(reg_wf(reg2));
    }
}

/// Within one pass, resolving a name a second time returns the same
/// global number and leaves the registry unchanged.
pub proof fn law_resolve_stable(reg: Seq<Seq<char>>, name: Seq<char>)
    requires
        reg_wf(reg),
    ensures
        spec_resolve(reg, name) matches Some(rn) ==> spec_resolve(rn.0, name) == Some(
            (rn.0, rn.1),
        ),
{
    lemma_resolve_props(reg, name);
    if spec_resolve(reg, name) is Some {
        let rn = spec_resolve(reg, name).unwrap();
        assert(rn.0[rn.1 as int] == name);
        assert(exists|i: int| 0 <= i < rn.0.len() && rn.0[i] == name);
        let w = choose|i: int| 0 <= i < rn.0.len() && rn.0[i] == name;
        assert(rn.0[w] == name);
        assert(w == rn.1 as int);
    }
}

proof fn table_deps_props(
    reg: Seq<Seq<char>>,
    deps: Seq<raw::ExternalCrateData>,
    k: int,
    table: Seq<u8>,
)
    requires
        reg_wf(reg),
        1 <= k <= deps.len() + 1,
        forall|i: int| 0 <= i < table.len() ==> ((#[trigger] table[i]) as int) < reg.len(),
    ensures
        reg_wf(spec_table_deps(reg, deps, k, table).0),
        is_prefix_of(reg, spec_table_deps(reg, deps, k, table).0),
        spec_table_deps(reg, deps, k, table).1 matches Some(tf) ==> {
            let regf = spec_table_deps(reg, deps, k, table).0;
            &&& tf.len() == table.len() + (deps.len() + 1 - k)
            &&& forall|i: int| 0 <= i < table.len() ==> #[trigger] tf[i] == table[i]
            &&& forall|i: int|
                table.len() <= i < tf.len() ==> ((#[trigger] tf[i]) as int) < regf.len()
                    && regf[tf[i] as int] == dep_with_num(deps, k + i - table.len()).name@
        },
    decreases deps.len() + 1 - k,
{
    if k > deps.len() {
        // base: the table is complete and the registry unchanged
    } else {
        let d = dep_with_num(deps, k);
        lemma_resolve_props(reg, d.name@);
        match spec_resolve(reg, d.name@) {
            Some(rn) => {
                assert forall|i: int| 0 <= i < table.push(rn.1).len() implies ((#[trigger] table.push(
                    rn.1,
                )[i]) as int) < rn.0.len() by {
                    if i < table.len() {
                        assert(table.push(rn.1)[i] == table[i]);
                    }
                }
                table_deps_props(rn.0, deps, k + 1, table.push(rn.1));
                let regf = spec_table_deps(reg, deps, k, table).0;
                assert forall|i: int| 0 <= i < reg.len() implies #[trigger] reg[i] == regf[i] by {
                    assert(rn.0[i] == regf[i]);
                }
                if spec_table_deps(reg, deps, k, table).1 is Some {
                    let tf = spec_table_deps(reg, deps, k, table).1.unwrap();
                    assert forall|i: int|
                        table.len() <= i < tf.len() implies ((#[trigger] tf[i]) as int)
                        < regf.len() && regf[tf[i] as int] == dep_with_num(
                        deps,
                        k + i - table.len(),
                    ).name@ by {
                        if i == table.len() {
                            assert(tf[i] == table.push(rn.1)[i]);
                            assert(tf[i] == rn.1);
                            assert(rn.0[rn.1 as int] == d.name@);
                            assert(regf[rn.1 as int] == d.name@);
                        } else {
                            assert(k + 1 + i - table.push(rn.1).len() == k + i - table.len());
                        }
                    }
                }
            },
            None => {},
        }
    }
}

/// The translation table a well-formed prelude gives rise to: one slot
/// per declared dependency plus slot 0; slot 0 carries the unit's own
/// global number (the position of its name in the final registry) and
/// slot `k` the global number of the dependency declared with local
/// number `k`.
pub proof fn law_translation_table(reg: Seq<Seq<char>>, p: raw::CratePreludeData)
    requires
        reg_wf(reg),
        prelude_wf(p),
    ensures
        spec_build_table(reg, p).1 matches Some(table) ==> {
            let regf = spec_build_table(reg, p).0;
            &&& table.len() == p.external_crates@.len() + 1
            &&& ((table[0] as int) < regf.len() && regf[table[0] as int] == p.crate_name@)
            &&& forall|k: int|
                1 <= k <= p.external_crates@.len() ==> ((#[trigger] table[k]) as int) < regf.len()
                    && regf[table[k] as int] == dep_with_num(p.external_crates@, k).name@
        },
{
    lemma_resolve_props(reg, p.crate_name@);
    match spec_resolve(reg, p.crate_name@) {
        Some(rn) => {
            assert(seq![rn.1][0] == rn.1);
            table_deps_props(rn.0, p.external_crates@, 1, seq![rn.1]);
            if spec_build_table(reg, p).1 is Some {
                let table = spec_build_table(reg, p).1.unwrap();
                let regf = spec_build_table(reg, p).0;
                assert(table[0] == rn.1);
                assert(regf[rn.1 as int] == p.crate_name@);
                assert forall|k: int| 1 <= k <= p.external_crates@.len() implies ((
                #[trigger] table[k]) as int) < regf.len() && regf[table[k] as int] == dep_with_num(
                    p.external_crates@,
                    k,
                ).name@ by {
                    assert(1 + k - seq![rn.1].len() == k);
                }
            }
        },
        None => {},
    }
}

/// Packing is lossless on the crate number and keeps exactly the low 24
/// bits of the local index: the named accessors recover both parts of any
/// identifier the packer builds.
pub proof fn law_pack_parts(n: u8, idx: u32)
    ensures
        crate::lowering::spec_crate_part(((n as u32) << 24) | (idx & 0x00ff_ffff)) == n,
        crate::lowering::spec_local_part(((n as u32) << 24) | (idx & 0x00ff_ffff)) == idx
            & 0x00ff_ffff,
{
    assert((((((n as u32) << 24) | (idx & 0x00ff_ffff)) >> 24) as u8) == n) by (bit_vector);
    assert(((((n as u32) << 24) | (idx & 0x00ff_ffff)) & 0x00ff_ffff) == idx & 0x00ff_ffff)
        by (bit_vector);
}

/// Lowering the same raw definition record twice does exactly what
/// lowering it once does: the second occurrence is dropped, whatever the
/// unit kind and whatever the record.
pub proof fn law_def_lower_idempotent(
    cm: Seq<u8>,
    crate_name: Seq<char>,
    dir: Seq<char>,
    api_crate: bool,
    a: PerCrateV,
    d: raw::Def,
)
    ensures
        lower_defs_spec(cm, crate_name, dir, api_crate, a, seq![d, d]) == lower_defs_spec(
            cm,
            crate_name,
            dir,
            api_crate,
            a,
            seq![d],
        ),
{
    let s2 = seq![d, d];
    let s1 = seq![d];
    assert(s2.first() == d);
    assert(s2.drop_first() =~= s1);
    assert(s1.first() == d);
    assert(s1.drop_first() =~= Seq::<raw::Def>::empty());
    let a1 = step_def(cm, crate_name, dir, api_crate, a, d);
    let id = spec_pack(cm, d.id);
    if id == NULL || a.defs.contains_key(id) {
        assert(a1 == a);
    } else {
        assert(a1.defs.contains_key(id));
    }
    assert(step_def(cm, crate_name, dir, api_crate, a1, d) == a1);
    assert(lower_defs_spec(cm, crate_name, dir, api_crate, a, s2) == lower_defs_spec(
        cm,
        crate_name,
        dir,
        api_crate,
        a1,
        s1,
    ));
}

/// A reference whose exact span is already claimed (by a definition or an
/// earlier reference) is dropped: it changes nothing, and in particular
/// the span keeps the id it already had.
pub proof fn law_ref_span_first_wins(
    cm: Seq<u8>,
    dir: Seq<char>,
    agg: Map<Seq<char>, PerCrateV>,
    a: PerCrateV,
    r: raw::Ref,
)
    requires
        a.def_id_for_span.contains_key(spec_lower_span(r.span, Some(dir))),
    ensures
        step_ref(cm, dir, agg, a, r) == a,
{
}

/// Documentation without a blank-line separator is preserved unchanged.
pub proof fn law_docs_without_separator(s: Seq<char>)
    requires
        forall|i: int| 0 <= i && i + 1 < s.len() ==> !(s[i] == '\n' && #[trigger] s[i + 1] == '\n'),
    ensures
        doc_summary(s) == s,
{
    lemma_no_sep(s, 0);
}

proof fn lemma_no_sep(s: Seq<char>, i: int)
    requires
        0 <= i,
        forall|j: int| 0 <= j && j + 1 < s.len() ==> !(s[j] == '\n' && #[trigger] s[j + 1] == '\n'),
    ensures
        sep_index_from(s, i) is None,
    decreases s.len() - i,
{
    if i + 1 < s.len() {
        lemma_no_sep(s, i + 1);
    }
}

/// In an interface-only unit a newly stored structure definition has its
/// raw value text cleared, whatever the raw record carried; in a normal
/// unit the same record keeps its value text unchanged.
pub proof fn law_interface_only_struct_value(
    cm: Seq<u8>,
    crate_name: Seq<char>,
    dir: Seq<char>,
    a: PerCrateV,
    d: raw::Def,
)
    requires
        spec_pack(cm, d.id) != NULL,
        !a.defs.contains_key(spec_pack(cm, d.id)),
        d.kind == DefKind::Struct,
    ensures
        step_def(cm, crate_name, dir, true, a, d).defs[spec_pack(cm, d.id)].value
            == Seq::<char>::empty(),
        step_def(cm, crate_name, dir, false, a, d).defs[spec_pack(cm, d.id)].value == d.value@,
{
}

/// Every reference-span list in a fully lowered batch belongs to an id
/// that some merged unit defines: a unit never records a reference to a
/// target unknown both to itself and to every unit merged before it.
pub open spec fn refs_closed(agg: Map<Seq<char>, PerCrateV>) -> bool {
    forall|n: Seq<char>, id: u32|
        #[trigger] agg.dom().contains(n) && #[trigger] agg[n].ref_spans.contains_key(id)
            ==> agg_has_def(agg, id)
}

proof fn lemma_imports_ref_spans(cm: Seq<u8>, dir: Seq<char>, a: PerCrateV, imports: Seq<raw::Import>)
    ensures
        lower_imports_spec(cm, dir, a, imports).ref_spans == a.ref_spans,
    decreases imports.len(),
{
    if imports.len() > 0 {
        lemma_imports_ref_spans(cm, dir, step_import(cm, dir, a, imports.first()), imports.drop_first());
    }
}

proof fn lemma_defs_ref_spans(
    cm: Seq<u8>,
    crate_name: Seq<char>,
    dir: Seq<char>,
    api_crate: bool,
    a: PerCrateV,
    defs: Seq<raw::Def>,
)
    ensures
        lower_defs_spec(cm, crate_name, dir, api_crate, a, defs).ref_spans == a.ref_spans,
    decreases defs.len(),
{
    if defs.len() > 0 {
        lemma_defs_ref_spans(
            cm,
            crate_name,
            dir,
            api_crate,
            step_def(cm, crate_name, dir, api_crate, a, defs.first()),
            defs.drop_first(),
        );
    }
}

proof fn lemma_refs_props(
    cm: Seq<u8>,
    dir: Seq<char>,
    agg: Map<Seq<char>, PerCrateV>,
    a: PerCrateV,
    refs: Seq<raw::Ref>,
)
    ensures
        lower_refs_spec(cm, dir, agg, a, refs).defs == a.defs,
        forall|id: u32|
            #[trigger] lower_refs_spec(cm, dir, agg, a, refs).ref_spans.contains_key(id)
                ==> a.ref_spans.contains_key(id) || agg_has_def(agg, id) || a.defs.contains_key(
                id,
            ),
    decreases refs.len(),
{
    if refs.len() > 0 {
        let a2 = step_ref(cm, dir, agg, a, refs.first());
        lemma_refs_props(cm, dir, agg, a2, refs.drop_first());
    }
}

proof fn lemma_read_crate_closed(
    reg: Seq<Seq<char>>,
    agg: Map<Seq<char>, PerCrateV>,
    krate: raw::Analysis,
    dir: Seq<char>,
)
    requires
        refs_closed(agg),
        !agg.dom().contains(krate.prelude.crate_name@),
    ensures
        spec_read_crate(reg, agg, krate, dir).1 matches Some(agg2) ==> {
            &&& refs_closed(agg2)
            &&& agg2.dom() == agg.dom().insert(krate.prelude.crate_name@)
        },
{
    let name = krate.prelude.crate_name@;
    let bt = spec_build_table(reg, krate.prelude);
    match bt.1 {
        None => {},
        Some(cm) => {
            let a1 = lower_imports_spec(cm, dir, per_crate_empty(), krate.imports@);
            let a2 = lower_defs_spec(
                cm,
                name,
                dir,
                krate.kind == raw::Format::InterfaceOnly,
                a1,
                krate.defs@,
            );
            let a3 = lower_refs_spec(cm, dir, agg, a2, krate.refs@);
            lemma_imports_ref_spans(cm, dir, per_crate_empty(), krate.imports@);
            lemma_defs_ref_spans(
                cm,
                name,
                dir,
                krate.kind == raw::Format::InterfaceOnly,
                a1,
                krate.defs@,
            );
            lemma_refs_props(cm, dir, agg, a2, krate.refs@);
            let agg2 = agg.insert(name, a3);
            assert(agg2.dom() =~= agg.dom().insert(name));
            assert forall|n: Seq<char>, id: u32|
                #[trigger] agg2.dom().contains(n) && #[trigger] agg2[n].ref_spans.contains_key(
                    id,
                ) implies agg_has_def(agg2, id) by {
                if n == name {
                    assert(a3.ref_spans.contains_key(id));
                    assert(!a2.ref_spans.contains_key(id));
                    if a2.defs.contains_key(id) {
                        assert(agg2.dom().contains(name) && agg2[name].defs.contains_key(id));
                    } else {
                        assert(agg_has_def(agg, id));
                        let n2 = choose|n2: Seq<char>|
                            #[trigger] agg.dom().contains(n2) && agg[n2].defs.contains_key(id);
                        assert(n2 != name);
                        assert(agg2.dom().contains(n2) && agg2[n2].defs.contains_key(id));
                    }
                } else {
                    assert(agg.dom().contains(n) && agg[n].ref_spans.contains_key(id));
                    assert(agg_has_def(agg, id));
                    let n2 = choose|n2: Seq<char>|
                        #[trigger] agg.dom().contains(n2) && agg[n2].defs.contains_key(id);
                    assert(n2 != name);
                    assert(agg2.dom().contains(n2) && agg2[n2].defs.contains_key(id));
                }
            }
        },
    }
}

proof fn lemma_lower_closed(
    reg: Seq<Seq<char>>,
    agg: Map<Seq<char>, PerCrateV>,
    units: Seq<raw::Analysis>,
    dir: Seq<char>,
)
    requires
        refs_closed(agg),
        forall|i: int, j: int|
            0 <= i < j < units.len() ==> (#[trigger] units[i]).prelude.crate_name@ != (
            #[trigger] units[j]).prelude.crate_name@,
        forall|i: int|
            0 <= i < units.len() ==> !agg.dom().contains(
                (#[trigger] units[i]).prelude.crate_name@,
            ),
    ensures
        spec_lower(reg, agg, units, dir).1 matches Some(aggf) ==> refs_closed(aggf),
    decreases units.len(),
{
    if units.len() > 0 {
        let u0 = units.first();
        let rc = spec_read_crate(reg, agg, u0, dir);
        lemma_read_crate_closed(reg, agg, u0, dir);
        match rc.1 {
            None => {},
            Some(agg2) => {
                let rest = units.drop_first();
                assert forall|i: int, j: int|
                    0 <= i < j < rest.len() implies (#[trigger] rest[i]).prelude.crate_name@ != (
                #[trigger] rest[j]).prelude.crate_name@ by {
                    assert(rest[i] == units[i + 1]);
                    assert(rest[j] == units[j + 1]);
                }
                assert forall|i: int| 0 <= i < rest.len() implies !agg2.dom().contains(
                    (#[trigger] rest[i]).prelude.crate_name@,
                ) by {
                    assert(rest[i] == units[i + 1]);
                    assert(units[i + 1].prelude.crate_name@ != u0.prelude.crate_name@);
                    assert(!agg.dom().contains(units[i + 1].prelude.crate_name@));
                }
                lemma_lower_closed(rc.0, agg2, rest, dir);
            },
        }
    }
}

/// In a fully lowered batch of units with pairwise distinct names, a
/// reference whose target id no processed unit defines leaves no entry in
/// any reference-span list: every recorded reference resolves to a
/// definition of some merged unit.
pub proof fn law_dangling_refs_dropped(units: Seq<raw::Analysis>, dir: Seq<char>)
    requires
        forall|i: int, j: int|
            0 <= i < j < units.len() ==> (#[trigger] units[i]).prelude.crate_name@ != (
            #[trigger] units[j]).prelude.crate_name@,
    ensures
        spec_lower(Seq::empty(), Map::empty(), units, dir).1 matches Some(aggf) ==> refs_closed(
            aggf,
        ),
{
    let agg0 = Map::<Seq<char>, PerCrateV>::empty();
    assert(refs_closed(agg0)) by {
        assert(forall|n: Seq<char>| !agg0.dom().contains(n));
    }
    lemma_lower_closed(Seq::empty(), agg0, units, dir);
}

} // verus!
