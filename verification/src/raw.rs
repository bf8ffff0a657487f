//! Raw per-compilation-unit analysis records, as handed in by the driver.
//!
//! These are the wire-level inputs to the lowering pass: each compilation
//! unit arrives as one [`Analysis`] record holding its prelude, imports,
//! definitions and references, all carrying compiler-local identifiers and
//! file-relative spans.

use vstd::prelude::*;

verus! {

/// Sentinel identifier component: "absent / unresolved".
pub const NULL: u32 = 0xffff_ffff;

/// Distinguishes a normal unit from an interface-only unit (one whose full
/// bodies are not needed downstream, only its public surface).
#[derive(Clone, Copy, PartialEq, Eq, Structural, Debug)]
pub enum Format {
    Normal,
    InterfaceOnly,
}

/// Kind tag of a definition.
#[derive(Clone, Copy, PartialEq, Eq, Structural, Debug)]
pub enum DefKind {
    Enum,
    Struct,
    Trait,
    Function,
    Method,
    Mod,
    Type,
    Local,
    Static,
    Const,
    Field,
    Import,
}

/// A compiler-local identifier: a (local-unit-number, local-def-index) pair,
/// meaningful only inside one unit's own translation table.
#[derive(Clone, Copy, PartialEq, Eq, Structural, Debug)]
pub struct CompilerId {
    pub krate: u32,
    pub index: u32,
}

/// A raw source span: a possibly file-relative path and four positions.
pub struct SpanData {
    pub file_name: String,
    pub line_start: u32,
    pub column_start: u32,
    pub line_end: u32,
    pub column_end: u32,
}

/// One declared external dependency of a unit, with its local number.
pub struct ExternalCrateData {
    pub name: String,
    pub num: u32,
}

/// A unit's prelude: its own name and its declared external dependencies.
pub struct CratePreludeData {
    pub crate_name: String,
    pub external_crates: Vec<ExternalCrateData>,
}

/// A raw import record.
pub struct Import {
    pub id: CompilerId,
    pub span: SpanData,
    pub name: String,
    pub value: String,
}

/// A raw definition record.
pub struct Def {
    pub id: CompilerId,
    pub kind: DefKind,
    pub span: SpanData,
    pub name: String,
    pub qualname: String,
    pub value: String,
    pub parent: Option<CompilerId>,
    pub docs: String,
}

/// A raw reference record.
pub struct Ref {
    pub ref_id: CompilerId,
    pub span: SpanData,
}

/// The whole raw record of one compilation unit.
pub struct Analysis {
    pub kind: Format,
    pub prelude: CratePreludeData,
    pub imports: Vec<Import>,
    pub defs: Vec<Def>,
    pub refs: Vec<Ref>,
}

/// Some declared dependency carries exactly the local number `k`.
pub open spec fn has_dep_num(deps: Seq<ExternalCrateData>, k: int) -> bool {
    exists|i: int| 0 <= i < deps.len() && (#[trigger] deps[i]).num as int == k
}

/// The load-bearing invariant on a prelude: the declared external
/// dependencies carry exactly the local numbers `1..=N`, each once.
/// Identifier packing is unsound without it, so a prelude that breaks it
/// is a fatal contract violation by the producer of the records; it is a
/// precondition of reader construction.
pub open spec fn prelude_wf(p: CratePreludeData) -> bool {
    let deps = p.external_crates@;
    &&& forall|i: int|
        0 <= i < deps.len() ==> 1 <= (#[trigger] deps[i]).num as int
            && (deps[i]).num as int <= deps.len()
    &&& forall|i: int, j: int|
        0 <= i < deps.len() && 0 <= j < deps.len() && i != j ==> (#[trigger] deps[i]).num != (
        #[trigger] deps[j]).num
    &&& forall|k: int| 1 <= k <= deps.len() ==> #[trigger] has_dep_num(deps, k)
}

/// A compiler-local identifier either is the sentinel in its unit part or
/// indexes into a translation table of length `table_len`.
pub open spec fn id_in_range(id: CompilerId, table_len: int) -> bool {
    id.krate == NULL || (id.krate as int) < table_len
}

/// Every identifier in the unit's records can be looked up in the
/// translation table its prelude gives rise to, and the prelude itself is
/// well formed. These are the caller obligations under which the whole
/// unit lowers without aborting.
pub open spec fn unit_wf(u: Analysis) -> bool {
    let tl = u.prelude.external_crates@.len() + 1;
    &&& prelude_wf(u.prelude)
    &&& forall|i: int|
        0 <= i < u.imports@.len() ==> id_in_range((#[trigger] u.imports@[i]).id, tl as int)
    &&& forall|i: int|
        0 <= i < u.defs@.len() ==> id_in_range((#[trigger] u.defs@[i]).id, tl as int) && (
        u.defs@[i].parent matches Some(p) ==> id_in_range(p, tl as int))
    &&& forall|i: int|
        0 <= i < u.refs@.len() ==> id_in_range((#[trigger] u.refs@[i]).ref_id, tl as int)
}

} // verus!
