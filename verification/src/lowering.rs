//! The lowering pass: raw per-unit records in, one aggregate index out.
//!
//! Units are processed strictly in the caller-supplied order. For each unit
//! a [`CrateReader`] is built from its prelude, then imports, definitions
//! and references are lowered in that order, and the completed per-unit
//! analysis is merged into the aggregate before the next unit starts.
//! The whole pass is mirrored by spec functions (`spec_lower` and its
//! helpers), and every exec function returns exactly what they describe.

use vstd::prelude::*;
use vstd::string::StrSliceExecFns;
use vstd::string::StringExecFns;
use crate::raw;
use crate::raw::{NULL, Format, DefKind, prelude_wf, unit_wf, id_in_range, has_dep_num};
use crate::span::{Span, SpanV};
use crate::analysis::{Def, DefV, PerCrateAnalysis, PerCrateV, Analysis, per_crate_empty, agg_has_def};
use crate::tables::{CrateRegistry, spec_resolve};

verus! {

/// The one reported failure of a lowering pass: more distinct unit names
/// than the 8-bit global crate number field can hold.
#[derive(Clone, Copy, PartialEq, Eq, Structural, Debug)]
pub enum LowerError {
    CrateNumberOverflow,
}

/// A raw file path is already absolute.
pub open spec fn is_absolute(f: Seq<char>) -> bool {
    f.len() > 0 && f[0] == '/'
}

/// The view of an optional project root.
pub open spec fn dir_view(d: Option<&str>) -> Option<Seq<char>> {
    match d {
        Some(s) => Some(s@),
        None => None,
    }
}

/// What span lowering returns: the path unchanged when absolute, else the
/// project root, a separator and the relative path.
pub open spec fn spec_lower_span(raw_span: raw::SpanData, dir: Option<Seq<char>>) -> SpanV {
    SpanV {
        file_name: if is_absolute(raw_span.file_name@) {
            raw_span.file_name@
        } else {
            match dir {
                Some(d) => d + "/"@ + raw_span.file_name@,
                None => raw_span.file_name@,
            }
        },
        line_start: raw_span.line_start,
        column_start: raw_span.column_start,
        line_end: raw_span.line_end,
        column_end: raw_span.column_end,
    }
}

/// Lower a raw span to an absolute-path span. A relative path with no
/// project root signals a driver bug, not a data anomaly, and is excluded
/// by precondition.
pub fn lower_span(raw_span: &raw::SpanData, project_dir: Option<&str>) -> (r: Span)
    requires
        is_absolute(raw_span.file_name@) || project_dir is Some,
    ensures
        r@ == spec_lower_span(*raw_span, dir_view(project_dir)),
{
    let name = &raw_span.file_name;
    let abs = name.as_str().unicode_len() > 0 && name.as_str().get_char(0) == '/';
    let file_name: String = if abs {
        name.clone()
    } else {
        match project_dir {
            Some(d) => {
                let mut out = d.to_owned();
                out.append("/");
                out.append(name.as_str());
                out
            },
            None => {
                proof {
                    assert(false);
                }
                String::new()
            },
        }
    };
    Span {
        file_name,
        line_start: raw_span.line_start,
        column_start: raw_span.column_start,
        line_end: raw_span.line_end,
        column_end: raw_span.column_end,
    }
}

/// Position of the first blank-line separator (`"\n\n"`) at or after `i`.
pub open spec fn sep_index_from(s: Seq<char>, i: int) -> Option<int>
    decreases s.len() - i,
{
    if i + 1 >= s.len() {
        None
    } else if s[i] == '\n' && s[i + 1] == '\n' {
        Some(i)
    } else {
        sep_index_from(s, i + 1)
    }
}

/// Documentation truncated to its first paragraph: the text before the
/// first blank-line separator, or all of it when there is none.
pub open spec fn doc_summary(s: Seq<char>) -> Seq<char> {
    match sep_index_from(s, 0) {
        Some(i) => s.take(i),
        None => s,
    }
}

/// Truncate documentation to the text before the first blank line.
pub fn trim_docs(docs: &str) -> (r: String)
    ensures
        r@ == doc_summary(docs@),
{
    let len = docs.unicode_len();
    let mut i: usize = 0;
    while i + 1 < len
        invariant
            len == docs@.len(),
            i == 0 || i < len,
            sep_index_from(docs@, 0) == sep_index_from(docs@, i as int),
        decreases len - i,
    {
        if docs.get_char(i) == '\n' && docs.get_char(i + 1) == '\n' {
            let s = docs.substring_char(0, i);
            proof {
                assert(sep_index_from(docs@, i as int) == Some(i as int));
                assert(s@ =~= docs@.take(i as int));
            }
            return s.to_owned();
        }
        i = i + 1;
    }
    docs.to_owned()
}

/// The identifier the packer gives a compiler-local id under a translation
/// table: the sentinel stays the sentinel, otherwise the looked-up global
/// crate number fills the high 8 bits and the masked local index the low
/// 24.
pub open spec fn spec_pack(cm: Seq<u8>, id: raw::CompilerId) -> u32 {
    if id.krate == NULL || id.index == NULL {
        NULL
    } else {
        ((cm[id.krate as int] as u32) << 24) | (id.index & 0x00ff_ffff)
    }
}

/// The global crate number carried in a packed identifier's high 8 bits.
pub open spec fn spec_crate_part(id: u32) -> u8 {
    (id >> 24) as u8
}

/// The masked local definition index carried in a packed identifier's low
/// 24 bits.
pub open spec fn spec_local_part(id: u32) -> u32 {
    id & 0x00ff_ffff
}

/// The global crate number a packed identifier carries.
pub fn crate_part(id: u32) -> (r: u8)
    ensures
        r == spec_crate_part(id),
{
    (id >> 24) as u8
}

/// The local definition index a packed identifier carries.
pub fn local_part(id: u32) -> (r: u32)
    ensures
        r == spec_local_part(id),
{
    id & 0x00ff_ffff
}

/// Per-unit processor: owns the unit's translation table from local
/// dependency numbers to global crate numbers, the project root, and the
/// unit's own name.
pub struct CrateReader {
    pub crate_map: Vec<u8>,
    pub project_dir: String,
    pub crate_name: String,
}

/// The external dependency declared with local number `k`.
pub open spec fn dep_with_num(deps: Seq<raw::ExternalCrateData>, k: int) -> raw::ExternalCrateData {
    deps[choose|j: int| 0 <= j < deps.len() && (#[trigger] deps[j]).num as int == k]
}

/// The registry and translation table after resolving the dependencies
/// with local numbers `k..=deps.len()`, appended to `table`. The registry
/// component is the state reached even when a resolution overflows.
pub open spec fn spec_table_deps(
    reg: Seq<Seq<char>>,
    deps: Seq<raw::ExternalCrateData>,
    k: int,
    table: Seq<u8>,
) -> (Seq<Seq<char>>, Option<Seq<u8>>)
    decreases deps.len() + 1 - k,
{
    if k > deps.len() {
        (reg, Some(table))
    } else {
        match spec_resolve(reg, dep_with_num(deps, k).name@) {
            Some(rn) => spec_table_deps(rn.0, deps, k + 1, table.push(rn.1)),
            None => (reg, None),
        }
    }
}

/// The registry and translation table built from a unit's prelude: slot 0
/// resolves the unit's own name, slot `k` the dependency declared with
/// local number `k`.
pub open spec fn spec_build_table(reg: Seq<Seq<char>>, p: raw::CratePreludeData) -> (
    Seq<Seq<char>>,
    Option<Seq<u8>>,
) {
    match spec_resolve(reg, p.crate_name@) {
        Some(rn) => spec_table_deps(rn.0, p.external_crates@, 1, seq![rn.1]),
        None => (reg, None),
    }
}

impl CrateReader {
    /// Build a unit's reader from its prelude, resolving its own name and
    /// then each declared dependency in local-number order against the
    /// batch-wide registry.
    pub fn from_prelude(
        prelude: raw::CratePreludeData,
        master_crate_map: &mut CrateRegistry,
        project_dir: &str,
    ) -> (r: Result<CrateReader, LowerError>)
        requires
            prelude_wf(prelude),
            old(master_crate_map).wf(),
        ensures
            final(master_crate_map).wf(),
            final(master_crate_map)@ == spec_build_table(old(master_crate_map)@, prelude).0,
            match r {
                Ok(reader) => {
                    &&& spec_build_table(old(master_crate_map)@, prelude).1 == Some(
                        reader.crate_map@,
                    )
                    &&& reader.crate_map@.len() == prelude.external_crates@.len() + 1
                    &&& reader.crate_name@ == prelude.crate_name@
                    &&& reader.project_dir@ == project_dir@
                },
                Err(_) => spec_build_table(old(master_crate_map)@, prelude).1 is None,
            },
    {
        let crate_name = prelude.crate_name.clone();
        let mut crate_map: Vec<u8> = Vec::new();
        let n0 = match master_crate_map.resolve(&prelude.crate_name) {
            Some(n) => n,
            None => {
                return Err(LowerError::CrateNumberOverflow);
            },
        };
        crate_map.push(n0);
        proof {
            assert(crate_map@ =~= seq![n0]);
        }
        let n_deps = prelude.external_crates.len();
        let mut k: usize = 0;
        while k < n_deps
            invariant
                prelude_wf(prelude),
                k <= n_deps,
                n_deps == prelude.external_crates@.len(),
                master_crate_map.wf(),
                spec_build_table(old(master_crate_map)@, prelude) == spec_table_deps(
                    master_crate_map@,
                    prelude.external_crates@,
                    k as int + 1,
                    crate_map@,
                ),
                crate_map@.len() == k + 1,
            decreases n_deps - k,
        {
            let deps = &prelude.external_crates;
            let mut j: usize = 0;
            let mut found: usize = n_deps;
            while j < n_deps
                invariant
                    n_deps == deps@.len(),
                    j <= n_deps,
                    k < n_deps,
                    found == n_deps || (found < n_deps && deps@[found as int].num as int == k as int
                        + 1),
                    found == n_deps ==> forall|j2: int|
                        0 <= j2 < j ==> (#[trigger] deps@[j2]).num as int != k as int + 1,
                decreases n_deps - j,
            {
                if found == n_deps && deps[j].num as usize == k + 1 {
                    found = j;
                }
                j = j + 1;
            }
            proof {
                if found == n_deps {
                    assert(has_dep_num(deps@, k as int + 1));
                    assert(false);
                }
                let w = choose|j2: int|
                    0 <= j2 < deps@.len() && (#[trigger] deps@[j2]).num as int == k as int + 1;
                assert(deps@[w].num as int == k as int + 1);
                assert(w == found as int);
                assert(dep_with_num(deps@, k as int + 1) == deps@[found as int]);
            }
            match master_crate_map.resolve(&deps[found].name) {
                Some(n) => {
                    crate_map.push(n);
                },
                None => {
                    return Err(LowerError::CrateNumberOverflow);
                },
            }
            k = k + 1;
        }
        Ok(CrateReader { crate_map, project_dir: project_dir.to_owned(), crate_name })
    }

    /// Pack a compiler-local identifier into a 32-bit global identifier
    /// through this unit's translation table.
    pub fn id_from_compiler_id(&self, id: &raw::CompilerId) -> (r: u32)
        requires
            id_in_range(*id, self.crate_map@.len() as int),
        ensures
            r == spec_pack(self.crate_map@, *id),
    {
        if id.krate == NULL || id.index == NULL {
            return NULL;
        }
        // The high 8 bits carry the global crate number looked up from the
        // local crate number; the low 24 bits carry the local def index,
        // masked (indices at or above 2^24 truncate and may collide).
        let krate = self.crate_map[id.krate as usize] as u32;
        let crate_local = id.index & 0x00ff_ffff;
        (krate << 24) | crate_local
    }

    /// Lower all raw imports of the unit. Registration is unconditional:
    /// each import claims its span and its id in the current analysis.
    pub fn read_imports(&self, imports: Vec<raw::Import>, analysis: &mut PerCrateAnalysis)
        requires
            forall|i: int|
                0 <= i < imports@.len() ==> id_in_range(
                    (#[trigger] imports@[i]).id,
                    self.crate_map@.len() as int,
                ),
        ensures
            final(analysis)@ == lower_imports_spec(
                self.crate_map@,
                self.project_dir@,
                old(analysis)@,
                imports@,
            ),
    {
        let mut idx: usize = 0;
        proof {
            assert(imports@.skip(0) =~= imports@);
        }
        while idx < imports.len()
            invariant
                idx <= imports@.len(),
                forall|i: int|
                    0 <= i < imports@.len() ==> id_in_range(
                        (#[trigger] imports@[i]).id,
                        self.crate_map@.len() as int,
                    ),
                lower_imports_spec(self.crate_map@, self.project_dir@, old(analysis)@, imports@)
                    == lower_imports_spec(
                    self.crate_map@,
                    self.project_dir@,
                    analysis@,
                    imports@.skip(idx as int),
                ),
            decreases imports@.len() - idx,
        {
            let imp = &imports[idx];
            let span = lower_span(&imp.span, Some(self.project_dir.as_str()));
            let id = self.id_from_compiler_id(&imp.id);
            let ghost pre = analysis@;
            analysis.def_id_for_span.insert(span.clone(), id);
            let def = Def {
                kind: DefKind::Import,
                span,
                name: imp.name.clone(),
                value: imp.value.clone(),
                qualname: String::new(),
                parent: None,
                docs: String::new(),
            };
            analysis.defs.insert(id, def);
            proof {
                assert(analysis@ =~= step_import(
                    self.crate_map@,
                    self.project_dir@,
                    pre,
                    imports@[idx as int],
                ));
                assert(imports@.skip(idx as int).first() == imports@[idx as int]);
                assert(imports@.skip(idx as int).drop_first() =~= imports@.skip(idx as int + 1));
            }
            idx = idx + 1;
        }
        proof {
            assert(imports@.skip(imports@.len() as int) =~= Seq::<raw::Import>::empty());
        }
    }

    /// Lower all raw definitions of the unit. The sentinel and ids already
    /// claimed (by an import or an earlier definition) are skipped, so
    /// first registration wins; an interface-only unit keeps its
    /// definitions out of the span and lookup tables and clears the value
    /// text of structure definitions.
    pub fn read_defs(&self, defs: Vec<raw::Def>, analysis: &mut PerCrateAnalysis, api_crate: bool)
        requires
            forall|i: int|
                0 <= i < defs@.len() ==> id_in_range(
                    (#[trigger] defs@[i]).id,
                    self.crate_map@.len() as int,
                ) && (defs@[i].parent matches Some(p) ==> id_in_range(
                    p,
                    self.crate_map@.len() as int,
                )),
        ensures
            final(analysis)@ == lower_defs_spec(
                self.crate_map@,
                self.crate_name@,
                self.project_dir@,
                api_crate,
                old(analysis)@,
                defs@,
            ),
    {
        let mut idx: usize = 0;
        proof {
            assert(defs@.skip(0) =~= defs@);
        }
        while idx < defs.len()
            invariant
                idx <= defs@.len(),
                forall|i: int|
                    0 <= i < defs@.len() ==> id_in_range(
                        (#[trigger] defs@[i]).id,
                        self.crate_map@.len() as int,
                    ) && (defs@[i].parent matches Some(p) ==> id_in_range(
                        p,
                        self.crate_map@.len() as int,
                    )),
                lower_defs_spec(
                    self.crate_map@,
                    self.crate_name@,
                    self.project_dir@,
                    api_crate,
                    old(analysis)@,
                    defs@,
                ) == lower_defs_spec(
                    self.crate_map@,
                    self.crate_name@,
                    self.project_dir@,
                    api_crate,
                    analysis@,
                    defs@.skip(idx as int),
                ),
            decreases defs@.len() - idx,
        {
            let d = &defs[idx];
            let span = lower_span(&d.span, Some(self.project_dir.as_str()));
            let id = self.id_from_compiler_id(&d.id);
            let ghost pre = analysis@;
            if id != NULL && !analysis.defs.contains(id) {
                if !api_crate {
                    let file_name = span.file_name.clone();
                    analysis.defs_per_file.push_at(file_name, id);
                    analysis.def_id_for_span.insert(span.clone(), id);
                    analysis.def_names.push_at(d.name.clone(), id);
                }
                let value = if api_crate && d.kind == DefKind::Struct {
                    String::new()
                } else {
                    d.value.clone()
                };
                let mut qualname = self.crate_name.clone();
                qualname.append(d.qualname.as_str());
                let parent = match d.parent {
                    Some(p) => Some(self.id_from_compiler_id(&p)),
                    None => None,
                };
                let docs = trim_docs(d.docs.as_str());
                let def = Def { kind: d.kind, span, name: d.name.clone(), value, qualname, parent, docs };
                analysis.defs.insert(id, def);
                proof {
                    assert(analysis@ =~= step_def(
                        self.crate_map@,
                        self.crate_name@,
                        self.project_dir@,
                        api_crate,
                        pre,
                        defs@[idx as int],
                    ));
                }
            } else {
                proof {
                    assert(analysis@ == step_def(
                        self.crate_map@,
                        self.crate_name@,
                        self.project_dir@,
                        api_crate,
                        pre,
                        defs@[idx as int],
                    ));
                }
            }
            proof {
                assert(defs@.skip(idx as int).first() == defs@[idx as int]);
                assert(defs@.skip(idx as int).drop_first() =~= defs@.skip(idx as int + 1));
            }
            idx = idx + 1;
        }
        proof {
            assert(defs@.skip(defs@.len() as int) =~= Seq::<raw::Def>::empty());
        }
    }

    /// Lower all raw references of the unit. A reference is recorded only
    /// when its id is not the sentinel, its exact span is not already
    /// claimed, and its target is known in the current unit or in an
    /// already-merged one; everything else is dropped silently.
    pub fn read_refs(
        &self,
        refs: Vec<raw::Ref>,
        analysis: &mut PerCrateAnalysis,
        project_analysis: &Analysis,
    )
        requires
            forall|i: int|
                0 <= i < refs@.len() ==> id_in_range(
                    (#[trigger] refs@[i]).ref_id,
                    self.crate_map@.len() as int,
                ),
        ensures
            final(analysis)@ == lower_refs_spec(
                self.crate_map@,
                self.project_dir@,
                project_analysis@,
                old(analysis)@,
                refs@,
            ),
    {
        let mut idx: usize = 0;
        proof {
            assert(refs@.skip(0) =~= refs@);
        }
        while idx < refs.len()
            invariant
                idx <= refs@.len(),
                forall|i: int|
                    0 <= i < refs@.len() ==> id_in_range(
                        (#[trigger] refs@[i]).ref_id,
                        self.crate_map@.len() as int,
                    ),
                lower_refs_spec(
                    self.crate_map@,
                    self.project_dir@,
                    project_analysis@,
                    old(analysis)@,
                    refs@,
                ) == lower_refs_spec(
                    self.crate_map@,
                    self.project_dir@,
                    project_analysis@,
                    analysis@,
                    refs@.skip(idx as int),
                ),
            decreases refs@.len() - idx,
        {
            let r = &refs[idx];
            let def_id = self.id_from_compiler_id(&r.ref_id);
            let span = lower_span(&r.span, Some(self.project_dir.as_str()));
            let ghost pre = analysis@;
            if def_id != NULL && !analysis.def_id_for_span.contains(&span) && (
            project_analysis.has_def(def_id) || analysis.defs.contains(def_id)) {
                analysis.def_id_for_span.insert(span.clone(), def_id);
                analysis.ref_spans.push_at(def_id, span);
                proof {
                    assert(analysis@ =~= step_ref(
                        self.crate_map@,
                        self.project_dir@,
                        project_analysis@,
                        pre,
                        refs@[idx as int],
                    ));
                }
            } else {
                proof {
                    assert(analysis@ == step_ref(
                        self.crate_map@,
                        self.project_dir@,
                        project_analysis@,
                        pre,
                        refs@[idx as int],
                    ));
                }
            }
            proof {
                assert(refs@.skip(idx as int).first() == refs@[idx as int]);
                assert(refs@.skip(idx as int).drop_first() =~= refs@.skip(idx as int + 1));
            }
            idx = idx + 1;
        }
        proof {
            assert(refs@.skip(refs@.len() as int) =~= Seq::<raw::Ref>::empty());
        }
    }

    /// Process one whole unit: build its reader from its prelude, lower
    /// imports, definitions and references in that order, then merge the
    /// completed analysis into the aggregate under the unit's name.
    pub fn read_crate(
        project_analysis: &mut Analysis,
        master_crate_map: &mut CrateRegistry,
        krate: raw::Analysis,
        project_dir: &str,
    ) -> (r: Result<(), LowerError>)
        requires
            unit_wf(krate),
            old(master_crate_map).wf(),
        ensures
            final(master_crate_map).wf(),
            final(master_crate_map)@ == spec_read_crate(
                old(master_crate_map)@,
                old(project_analysis)@,
                krate,
                project_dir@,
            ).0,
            match r {
                Ok(_) => spec_read_crate(
                    old(master_crate_map)@,
                    old(project_analysis)@,
                    krate,
                    project_dir@,
                ).1 == Some(final(project_analysis)@),
                Err(_) => {
                    &&& spec_read_crate(
                        old(master_crate_map)@,
                        old(project_analysis)@,
                        krate,
                        project_dir@,
                    ).1 is None
                    &&& final(project_analysis)@ == old(project_analysis)@
                },
            },
    {
        let raw::Analysis { kind, prelude, imports, defs, refs } = krate;
        let api_crate = kind == Format::InterfaceOnly;
        let reader = match CrateReader::from_prelude(prelude, master_crate_map, project_dir) {
            Ok(rd) => rd,
            Err(e) => {
                return Err(e);
            },
        };
        let mut per_crate = PerCrateAnalysis::new();
        reader.read_imports(imports, &mut per_crate);
        reader.read_defs(defs, &mut per_crate, api_crate);
        reader.read_refs(refs, &mut per_crate, project_analysis);
        project_analysis.insert_per_crate(reader.crate_name, per_crate);
        Ok(())
    }
}

/// What lowering one import does to a unit's analysis.
pub open spec fn step_import(cm: Seq<u8>, dir: Seq<char>, a: PerCrateV, i: raw::Import) -> PerCrateV {
    let span = spec_lower_span(i.span, Some(dir));
    let id = spec_pack(cm, i.id);
    PerCrateV {
        def_id_for_span: a.def_id_for_span.insert(span, id),
        defs: a.defs.insert(
            id,
            DefV {
                kind: DefKind::Import,
                span: span,
                name: i.name@,
                value: i.value@,
                qualname: Seq::empty(),
                parent: None,
                docs: Seq::empty(),
            },
        ),
        defs_per_file: a.defs_per_file,
        def_names: a.def_names,
        ref_spans: a.ref_spans,
    }
}

/// The analysis after lowering a sequence of imports in order.
pub open spec fn lower_imports_spec(
    cm: Seq<u8>,
    dir: Seq<char>,
    a: PerCrateV,
    imports: Seq<raw::Import>,
) -> PerCrateV
    decreases imports.len(),
{
    if imports.len() == 0 {
        a
    } else {
        lower_imports_spec(cm, dir, step_import(cm, dir, a, imports.first()), imports.drop_first())
    }
}

/// The packed owning-parent identifier, when one is declared.
pub open spec fn packed_parent(cm: Seq<u8>, p: Option<raw::CompilerId>) -> Option<u32> {
    match p {
        Some(pid) => Some(spec_pack(cm, pid)),
        None => None,
    }
}

/// The stored definition a raw definition record lowers to: qualified by
/// the unit name, documentation truncated to its first paragraph, parent
/// packed, and the value text cleared for a structure definition of an
/// interface-only unit.
pub open spec fn lowered_def(
    cm: Seq<u8>,
    crate_name: Seq<char>,
    dir: Seq<char>,
    api_crate: bool,
    d: raw::Def,
) -> DefV {
    DefV {
        kind: d.kind,
        span: spec_lower_span(d.span, Some(dir)),
        name: d.name@,
        value: if api_crate && d.kind == DefKind::Struct {
            Seq::empty()
        } else {
            d.value@
        },
        qualname: crate_name + d.qualname@,
        parent: packed_parent(cm, d.parent),
        docs: doc_summary(d.docs@),
    }
}

/// What lowering one definition record does to a unit's analysis.
pub open spec fn step_def(
    cm: Seq<u8>,
    crate_name: Seq<char>,
    dir: Seq<char>,
    api_crate: bool,
    a: PerCrateV,
    d: raw::Def,
) -> PerCrateV {
    let span = spec_lower_span(d.span, Some(dir));
    let id = spec_pack(cm, d.id);
    if id == NULL || a.defs.contains_key(id) {
        a
    } else if api_crate {
        PerCrateV {
            def_id_for_span: a.def_id_for_span,
            defs: a.defs.insert(id, lowered_def(cm, crate_name, dir, api_crate, d)),
            defs_per_file: a.defs_per_file,
            def_names: a.def_names,
            ref_spans: a.ref_spans,
        }
    } else {
        PerCrateV {
            def_id_for_span: a.def_id_for_span.insert(span, id),
            defs: a.defs.insert(id, lowered_def(cm, crate_name, dir, api_crate, d)),
            defs_per_file: crate::tables::pushed_id(a.defs_per_file, span.file_name, id),
            def_names: crate::tables::pushed_id(a.def_names, d.name@, id),
            ref_spans: a.ref_spans,
        }
    }
}

/// The analysis after lowering a sequence of definition records in order.
pub open spec fn lower_defs_spec(
    cm: Seq<u8>,
    crate_name: Seq<char>,
    dir: Seq<char>,
    api_crate: bool,
    a: PerCrateV,
    defs: Seq<raw::Def>,
) -> PerCrateV
    decreases defs.len(),
{
    if defs.len() == 0 {
        a
    } else {
        lower_defs_spec(
            cm,
            crate_name,
            dir,
            api_crate,
            step_def(cm, crate_name, dir, api_crate, a, defs.first()),
            defs.drop_first(),
        )
    }
}

/// What lowering one reference record does to a unit's analysis, given
/// read-only access to the aggregate of already-merged units.
pub open spec fn step_ref(
    cm: Seq<u8>,
    dir: Seq<char>,
    agg: Map<Seq<char>, PerCrateV>,
    a: PerCrateV,
    r: raw::Ref,
) -> PerCrateV {
    let id = spec_pack(cm, r.ref_id);
    let span = spec_lower_span(r.span, Some(dir));
    if id == NULL || a.def_id_for_span.contains_key(span) || !(agg_has_def(agg, id)
        || a.defs.contains_key(id)) {
        a
    } else {
        PerCrateV {
            def_id_for_span: a.def_id_for_span.insert(span, id),
            defs: a.defs,
            defs_per_file: a.defs_per_file,
            def_names: a.def_names,
            ref_spans: crate::tables::pushed_span(a.ref_spans, id, span),
        }
    }
}

/// The analysis after lowering a sequence of reference records in order.
pub open spec fn lower_refs_spec(
    cm: Seq<u8>,
    dir: Seq<char>,
    agg: Map<Seq<char>, PerCrateV>,
    a: PerCrateV,
    refs: Seq<raw::Ref>,
) -> PerCrateV
    decreases refs.len(),
{
    if refs.len() == 0 {
        a
    } else {
        lower_refs_spec(cm, dir, agg, step_ref(cm, dir, agg, a, refs.first()), refs.drop_first())
    }
}

/// What processing one whole unit does: the registry after building the
/// unit's translation table, and, unless that overflowed, the aggregate
/// with the unit's completed analysis merged under its name.
pub open spec fn spec_read_crate(
    reg: Seq<Seq<char>>,
    agg: Map<Seq<char>, PerCrateV>,
    krate: raw::Analysis,
    dir: Seq<char>,
) -> (Seq<Seq<char>>, Option<Map<Seq<char>, PerCrateV>>) {
    let bt = spec_build_table(reg, krate.prelude);
    match bt.1 {
        None => (bt.0, None),
        Some(cm) => {
            let a1 = lower_imports_spec(cm, dir, per_crate_empty(), krate.imports@);
            let a2 = lower_defs_spec(
                cm,
                krate.prelude.crate_name@,
                dir,
                krate.kind == Format::InterfaceOnly,
                a1,
                krate.defs@,
            );
            let a3 = lower_refs_spec(cm, dir, agg, a2, krate.refs@);
            (bt.0, Some(agg.insert(krate.prelude.crate_name@, a3)))
        },
    }
}

/// The registry and aggregate after lowering a sequence of units in
/// order, starting from `reg` and `agg`; the aggregate is absent when a
/// unit's table construction overflowed the crate number field.
pub open spec fn spec_lower(
    reg: Seq<Seq<char>>,
    agg: Map<Seq<char>, PerCrateV>,
    units: Seq<raw::Analysis>,
    dir: Seq<char>,
) -> (Seq<Seq<char>>, Option<Map<Seq<char>, PerCrateV>>)
    decreases units.len(),
{
    if units.len() == 0 {
        (reg, Some(agg))
    } else {
        let rc = spec_read_crate(reg, agg, units.first(), dir);
        match rc.1 {
            None => (rc.0, None),
            Some(agg2) => spec_lower(rc.0, agg2, units.drop_first(), dir),
        }
    }
}

/// Lower a whole ordered batch of raw unit records against a fresh
/// batch-scoped registry. The one reported failure is a 257th distinct
/// unit name; every other anomaly is dropped silently inside the units.
pub fn lower(raw_analysis: Vec<raw::Analysis>, project_dir: &str) -> (r: Result<
    Analysis,
    LowerError,
>)
    requires
        forall|i: int| 0 <= i < raw_analysis@.len() ==> unit_wf(#[trigger] raw_analysis@[i]),
    ensures
        match r {
            Ok(a) => spec_lower(Seq::empty(), Map::empty(), raw_analysis@, project_dir@).1 == Some(
                a@,
            ),
            Err(_) => spec_lower(Seq::empty(), Map::empty(), raw_analysis@, project_dir@).1 is None,
        },
{
    let ghost units0 = raw_analysis@;
    let mut result = Analysis::new();
    let mut master_crate_map = CrateRegistry::new();
    let mut units = raw_analysis;
    while units.len() > 0
        invariant
            units0 == raw_analysis@,
            master_crate_map.wf(),
            forall|i: int| 0 <= i < units@.len() ==> unit_wf(#[trigger] units@[i]),
            spec_lower(Seq::empty(), Map::empty(), units0, project_dir@) == spec_lower(
                master_crate_map@,
                result@,
                units@,
                project_dir@,
            ),
        decreases units@.len(),
    {
        let ghost units_pre = units@;
        let ghost reg_pre = master_crate_map@;
        let ghost agg_pre = result@;
        let krate = units.remove(0);
        proof {
            assert(units_pre.drop_first() =~= units@);
            assert(krate == units_pre.first());
        }
        match CrateReader::read_crate(&mut result, &mut master_crate_map, krate, project_dir) {
            Ok(_) => {},
            Err(e) => {
                proof {
                    assert(spec_lower(reg_pre, agg_pre, units_pre, project_dir@).1 is None);
                }
                return Err(e);
            },
        }
    }
    Ok(result)
}

} // verus!
