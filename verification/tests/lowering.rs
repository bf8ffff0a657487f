use analysis_index::lowering::{crate_part, local_part, lower, lower_span, CrateReader, LowerError};
use analysis_index::raw::{
    Analysis, CompilerId, CratePreludeData, Def, DefKind, ExternalCrateData, Format, Import, Ref,
    SpanData, NULL,
};
use analysis_index::span::Span;
use analysis_index::tables::CrateRegistry;

fn sp(file: &str, line: u32) -> SpanData {
    SpanData {
        file_name: file.to_string(),
        line_start: line,
        column_start: 1,
        line_end: line,
        column_end: 10,
    }
}

fn abs_span(file: &str, line: u32) -> Span {
    Span {
        file_name: file.to_string(),
        line_start: line,
        column_start: 1,
        line_end: line,
        column_end: 10,
    }
}

fn prelude(name: &str, deps: &[(&str, u32)]) -> CratePreludeData {
    CratePreludeData {
        crate_name: name.to_string(),
        external_crates: deps
            .iter()
            .map(|(n, num)| ExternalCrateData { name: n.to_string(), num: *num })
            .collect(),
    }
}

fn def(krate: u32, index: u32, kind: DefKind, span: SpanData, name: &str, value: &str, docs: &str) -> Def {
    Def {
        id: CompilerId { krate, index },
        kind,
        span,
        name: name.to_string(),
        qualname: format!("::{}", name),
        value: value.to_string(),
        parent: None,
        docs: docs.to_string(),
    }
}

fn unit(kind: Format, name: &str, deps: &[(&str, u32)]) -> Analysis {
    Analysis {
        kind,
        prelude: prelude(name, deps),
        imports: vec![],
        defs: vec![],
        refs: vec![],
    }
}

#[test]
fn lower_span_keeps_absolute_paths() {
    let s = lower_span(&sp("/abs/f.src", 3), None);
    assert_eq!(s.file_name, "/abs/f.src");
    assert_eq!(s.line_start, 3);
    assert_eq!(s.column_start, 1);
    assert_eq!(s.line_end, 3);
    assert_eq!(s.column_end, 10);
}

#[test]
fn lower_span_joins_relative_paths() {
    let s = lower_span(&sp("f.src", 2), Some("/root/proj"));
    assert_eq!(s.file_name, "/root/proj/f.src");
}

#[test]
fn registry_numbers_are_sequential_and_stable() {
    let mut reg = CrateRegistry::new();
    assert_eq!(reg.resolve(&"a".to_string()), Some(0));
    assert_eq!(reg.resolve(&"b".to_string()), Some(1));
    assert_eq!(reg.resolve(&"a".to_string()), Some(0));
    assert_eq!(reg.resolve(&"b".to_string()), Some(1));
    assert_eq!(reg.resolve(&"c".to_string()), Some(2));
}

#[test]
fn translation_table_slot_zero_is_own_number() {
    let mut reg = CrateRegistry::new();
    let reader = CrateReader::from_prelude(prelude("a", &[]), &mut reg, "/p").unwrap();
    assert_eq!(reader.crate_map, vec![0]);
    let reader_b = CrateReader::from_prelude(prelude("b", &[("a", 1)]), &mut reg, "/p").unwrap();
    assert_eq!(reader_b.crate_map[0], 1);
}

#[test]
fn translation_table_follows_declared_local_numbers() {
    let mut reg = CrateRegistry::new();
    // Declared out of local-number order: positions still follow the numbers.
    let reader =
        CrateReader::from_prelude(prelude("a", &[("y", 2), ("x", 1)]), &mut reg, "/p").unwrap();
    assert_eq!(reader.crate_map.len(), 3);
    assert_eq!(reader.crate_map[0], 0);
    assert_eq!(reader.crate_map[1], reg.resolve(&"x".to_string()).unwrap());
    assert_eq!(reader.crate_map[2], reg.resolve(&"y".to_string()).unwrap());
}

#[test]
fn pack_keeps_the_sentinel() {
    let reader = CrateReader {
        crate_map: vec![0, 7],
        project_dir: "/p".to_string(),
        crate_name: "a".to_string(),
    };
    assert_eq!(reader.id_from_compiler_id(&CompilerId { krate: NULL, index: 0 }), NULL);
    assert_eq!(reader.id_from_compiler_id(&CompilerId { krate: 0, index: NULL }), NULL);
}

#[test]
fn pack_combines_crate_number_and_masked_index() {
    let reader = CrateReader {
        crate_map: vec![0, 7],
        project_dir: "/p".to_string(),
        crate_name: "a".to_string(),
    };
    let packed = reader.id_from_compiler_id(&CompilerId { krate: 1, index: 0x01ab_cdef });
    assert_eq!(packed, (7u32 << 24) | 0x00ab_cdef);
    assert_eq!(crate_part(packed), 7);
    assert_eq!(local_part(packed), 0x00ab_cdef);
}

#[test]
fn duplicate_definition_records_are_lowered_once() {
    let mut u = unit(Format::Normal, "a", &[]);
    u.defs.push(def(0, 5, DefKind::Function, sp("f.src", 1), "f", "fn f()", ""));
    u.defs.push(def(0, 5, DefKind::Function, sp("f.src", 1), "f", "fn f()", ""));
    let result = lower(vec![u], "/p").unwrap();
    let per = result.get(&"a".to_string()).unwrap();
    let id = 5u32;
    assert!(per.defs.get(id).is_some());
    // Exactly one registration: the per-file index saw the id once.
    let ids = per.defs_per_file.get(&"/p/f.src".to_string()).unwrap();
    assert_eq!(ids, &vec![id]);
    let named = per.def_names.get(&"f".to_string()).unwrap();
    assert_eq!(named, &vec![id]);
}

#[test]
fn dangling_references_leave_no_trace() {
    let mut u = unit(Format::Normal, "a", &[]);
    u.refs.push(Ref { ref_id: CompilerId { krate: 0, index: 9 }, span: sp("f.src", 4) });
    let result = lower(vec![u], "/p").unwrap();
    let per = result.get(&"a".to_string()).unwrap();
    assert!(per.ref_spans.get(9).is_none());
    assert!(per.def_id_for_span.get(&abs_span("/p/f.src", 4)).is_none());
}

#[test]
fn reference_on_a_claimed_span_is_dropped() {
    let mut u = unit(Format::Normal, "a", &[]);
    u.defs.push(def(0, 5, DefKind::Function, sp("f.src", 1), "f", "fn f()", ""));
    // Same exact span as the definition: the span keeps its first owner.
    u.refs.push(Ref { ref_id: CompilerId { krate: 0, index: 5 }, span: sp("f.src", 1) });
    let result = lower(vec![u], "/p").unwrap();
    let per = result.get(&"a".to_string()).unwrap();
    assert_eq!(per.def_id_for_span.get(&abs_span("/p/f.src", 1)), Some(5));
    assert!(per.ref_spans.get(5).is_none());
}

#[test]
fn cross_unit_reference_resolves_against_merged_units() {
    let mut a = unit(Format::Normal, "a", &[]);
    a.defs.push(def(0, 5, DefKind::Function, sp("f.src", 1), "f", "fn f()", ""));
    let mut b = unit(Format::Normal, "b", &[("a", 1)]);
    // Local crate number 1 translates to a's global number 0: packed id 5.
    b.refs.push(Ref { ref_id: CompilerId { krate: 1, index: 5 }, span: sp("g.src", 7) });
    let result = lower(vec![a, b], "/p").unwrap();
    let per_a = result.get(&"a".to_string()).unwrap();
    assert!(per_a.defs.get(5).is_some());
    assert!(result.has_def(5));
    // The recording unit holds the reference-span list for a's id 5.
    let per_b = result.get(&"b".to_string()).unwrap();
    let spans = per_b.ref_spans.get(5).unwrap();
    assert_eq!(spans.len(), 1);
    assert_eq!(spans[0].file_name, "/p/g.src");
    assert_eq!(spans[0].line_start, 7);
    assert_eq!(per_b.def_id_for_span.get(&abs_span("/p/g.src", 7)), Some(5));
}

#[test]
fn forward_references_are_not_visible() {
    // b is processed first and references a's id, but a is not merged yet.
    let mut b = unit(Format::Normal, "b", &[("a", 1)]);
    b.refs.push(Ref { ref_id: CompilerId { krate: 1, index: 5 }, span: sp("g.src", 7) });
    let mut a = unit(Format::Normal, "a", &[]);
    a.defs.push(def(0, 5, DefKind::Function, sp("f.src", 1), "f", "fn f()", ""));
    let result = lower(vec![b, a], "/p").unwrap();
    let per_b = result.get(&"b".to_string()).unwrap();
    assert!(per_b.ref_spans.get((1u32 << 24) | 5).is_none());
    assert!(per_b.ref_spans.get(5).is_none());
}

#[test]
fn documentation_is_truncated_at_the_first_blank_line() {
    let mut u = unit(Format::Normal, "a", &[]);
    u.defs.push(def(
        0,
        1,
        DefKind::Function,
        sp("f.src", 1),
        "f",
        "fn f()",
        "Summary line.\n\nMore details.",
    ));
    u.defs.push(def(0, 2, DefKind::Function, sp("f.src", 2), "g", "fn g()", "Single paragraph."));
    let result = lower(vec![u], "/p").unwrap();
    let per = result.get(&"a".to_string()).unwrap();
    assert_eq!(per.defs.get(1).unwrap().docs, "Summary line.");
    assert_eq!(per.defs.get(2).unwrap().docs, "Single paragraph.");
}

#[test]
fn interface_only_unit_clears_structure_values() {
    let mut u = unit(Format::InterfaceOnly, "a", &[]);
    u.defs.push(def(0, 1, DefKind::Struct, sp("f.src", 1), "S", "struct S { x: u8 }", ""));
    u.defs.push(def(0, 2, DefKind::Function, sp("f.src", 5), "f", "fn f()", ""));
    let result = lower(vec![u], "/p").unwrap();
    let per = result.get(&"a".to_string()).unwrap();
    assert_eq!(per.defs.get(1).unwrap().value, "");
    // Other kinds keep their value text even in an interface-only unit.
    assert_eq!(per.defs.get(2).unwrap().value, "fn f()");
    // Interface-only definitions stay out of the lookup tables.
    assert!(per.defs_per_file.get(&"/p/f.src".to_string()).is_none());
    assert!(per.def_names.get(&"S".to_string()).is_none());
    assert!(per.def_id_for_span.get(&abs_span("/p/f.src", 1)).is_none());
}

#[test]
fn normal_unit_keeps_structure_values() {
    let mut u = unit(Format::Normal, "a", &[]);
    u.defs.push(def(0, 1, DefKind::Struct, sp("f.src", 1), "S", "struct S { x: u8 }", ""));
    let result = lower(vec![u], "/p").unwrap();
    let per = result.get(&"a".to_string()).unwrap();
    assert_eq!(per.defs.get(1).unwrap().value, "struct S { x: u8 }");
    assert_eq!(per.def_names.get(&"S".to_string()), Some(&vec![1u32]));
}

#[test]
fn qualified_name_is_unit_name_plus_raw_qualname() {
    let mut u = unit(Format::Normal, "mycrate", &[]);
    u.defs.push(def(0, 1, DefKind::Function, sp("f.src", 1), "f", "fn f()", ""));
    let result = lower(vec![u], "/p").unwrap();
    let per = result.get(&"mycrate".to_string()).unwrap();
    assert_eq!(per.defs.get(1).unwrap().qualname, "mycrate::f");
}

#[test]
fn imports_claim_ids_before_definitions() {
    let mut u = unit(Format::Normal, "a", &[]);
    u.imports.push(Import {
        id: CompilerId { krate: 0, index: 3 },
        span: sp("f.src", 1),
        name: "x".to_string(),
        value: "use x".to_string(),
    });
    u.defs.push(def(0, 3, DefKind::Function, sp("f.src", 9), "x", "fn x()", ""));
    let result = lower(vec![u], "/p").unwrap();
    let per = result.get(&"a".to_string()).unwrap();
    let stored = per.defs.get(3).unwrap();
    assert_eq!(stored.kind, DefKind::Import);
    assert_eq!(stored.span.line_start, 1);
    // The later definition with the same id was skipped entirely.
    assert!(per.def_names.get(&"x".to_string()).is_none());
}

#[test]
fn sentinel_definition_ids_are_skipped() {
    let mut u = unit(Format::Normal, "a", &[]);
    u.defs.push(def(NULL, 1, DefKind::Function, sp("f.src", 1), "f", "fn f()", ""));
    let result = lower(vec![u], "/p").unwrap();
    let per = result.get(&"a".to_string()).unwrap();
    assert!(per.def_names.get(&"f".to_string()).is_none());
    assert!(per.def_id_for_span.get(&abs_span("/p/f.src", 1)).is_none());
}

#[test]
fn an_empty_batch_lowers_to_an_empty_index() {
    let result = lower(vec![], "/p").unwrap();
    assert!(result.get(&"a".to_string()).is_none());
    assert!(!result.has_def(0));
}

#[test]
fn a_repeated_unit_name_replaces_the_earlier_analysis() {
    let mut first = unit(Format::Normal, "a", &[]);
    first.defs.push(def(0, 5, DefKind::Function, sp("f.src", 1), "f", "fn f()", ""));
    let second = unit(Format::Normal, "a", &[]);
    let result = lower(vec![first, second], "/p").unwrap();
    let per = result.get(&"a".to_string()).unwrap();
    assert!(per.defs.get(5).is_none());
    assert!(!result.has_def(5));
}

#[test]
fn a_257th_distinct_unit_name_is_reported_as_overflow() {
    let mut units = Vec::new();
    for i in 0..257 {
        units.push(unit(Format::Normal, &format!("c{}", i), &[]));
    }
    match lower(units, "/p") {
        Err(e) => assert_eq!(e, LowerError::CrateNumberOverflow),
        Ok(_) => panic!("overflow was not reported"),
    }

    let mut ok_units = Vec::new();
    for i in 0..256 {
        ok_units.push(unit(Format::Normal, &format!("c{}", i), &[]));
    }
    assert!(lower(ok_units, "/p").is_ok());
}
