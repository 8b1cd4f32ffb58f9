use sourcemap_bridge::{
    dispose, lookup_original_position, parse_source_map, register_decoded, resolve_token,
    BridgeError, Registry,
};

const TRIVIAL: &str =
    r#"{"version":3,"sources":["a.js"],"names":[],"mappings":"AAAA","file":"out.js"}"#;

const NO_SOURCE: &str = r#"{"version":3,"sources":[],"names":[],"mappings":"A","file":"out.js"}"#;

fn ingest(reg: &mut Registry, bytes: &[u8]) -> Result<u32, BridgeError> {
    assert!(reg.can_issue());
    parse_source_map(reg, bytes)
}

#[test]
fn ingest_and_query_trivial_map() {
    let mut reg = Registry::new();
    let h = ingest(&mut reg, TRIVIAL.as_bytes()).unwrap();
    let r = lookup_original_position(&reg, h, 0, 0).ok().unwrap();
    assert_eq!(r.source, "a.js");
    assert_eq!(r.line, 0);
    assert_eq!(r.column, 0);
}

#[test]
fn query_out_of_range() {
    let mut reg = Registry::new();
    let h = ingest(&mut reg, TRIVIAL.as_bytes()).unwrap();
    let e = lookup_original_position(&reg, h, 5, 0).err().unwrap();
    assert!(matches!(e, BridgeError::LookupFailed));
    assert_eq!(
        e.message(),
        "Failed to lookup original position for given line and column"
    );
}

#[test]
fn query_unknown_handle() {
    let reg = Registry::new();
    let e = lookup_original_position(&reg, 999999, 0, 0).err().unwrap();
    assert!(matches!(e, BridgeError::SourceMapNotFound));
    assert_eq!(e.message(), "Source map was not found, did you dispose it?");
}

#[test]
fn parse_failure_message() {
    let mut reg = Registry::new();
    let e = ingest(&mut reg, b"not a source map").err().unwrap();
    assert!(matches!(e, BridgeError::ParseFailed(_)));
    let msg = e.message();
    assert!(msg.starts_with("Failed to parse source map - Reason: "));
    assert!(msg.len() > "Failed to parse source map - Reason: ".len());
    assert_eq!(reg.len(), 0);
}

#[test]
fn empty_input_is_a_parse_error() {
    let mut reg = Registry::new();
    let e = ingest(&mut reg, b"").err().unwrap();
    assert!(matches!(e, BridgeError::ParseFailed(_)));
}

#[test]
fn release_accounting() {
    let mut reg = Registry::new();
    let h1 = ingest(&mut reg, TRIVIAL.as_bytes()).unwrap();
    let h2 = ingest(&mut reg, TRIVIAL.as_bytes()).unwrap();
    let h3 = ingest(&mut reg, TRIVIAL.as_bytes()).unwrap();
    assert_eq!(dispose(&mut reg, h2), 2);
    assert_eq!(dispose(&mut reg, h2), 2);
    assert_eq!(dispose(&mut reg, h1), 1);
    assert_eq!(dispose(&mut reg, h3), 0);
}

#[test]
fn monotonic_handles_across_failure() {
    let mut reg = Registry::new();
    let h1 = ingest(&mut reg, TRIVIAL.as_bytes()).unwrap();
    assert!(ingest(&mut reg, b"not a source map").is_err());
    let h2 = ingest(&mut reg, TRIVIAL.as_bytes()).unwrap();
    assert!(h2 > h1);
    assert!(h2 == h1 + 1 || h2 == h1 + 2);
}

#[test]
fn handles_start_at_one_and_are_distinct() {
    let mut reg = Registry::new();
    let mut seen = Vec::new();
    for _ in 0..5 {
        let h = ingest(&mut reg, TRIVIAL.as_bytes()).unwrap();
        assert!(!seen.contains(&h));
        if let Some(last) = seen.last() {
            assert!(h > *last);
        }
        seen.push(h);
    }
    assert_eq!(seen[0], 1);
}

#[test]
fn handles_not_reused_after_release() {
    let mut reg = Registry::new();
    let h1 = ingest(&mut reg, TRIVIAL.as_bytes()).unwrap();
    assert_eq!(dispose(&mut reg, h1), 0);
    let h2 = ingest(&mut reg, TRIVIAL.as_bytes()).unwrap();
    assert!(h2 > h1);
}

#[test]
fn release_of_unknown_handle_keeps_count() {
    let mut reg = Registry::new();
    ingest(&mut reg, TRIVIAL.as_bytes()).unwrap();
    ingest(&mut reg, TRIVIAL.as_bytes()).unwrap();
    assert_eq!(dispose(&mut reg, 77), 2);
    assert_eq!(dispose(&mut reg, 0), 2);
    assert_eq!(reg.len(), 2);
}

#[test]
fn count_accounting_after_ingests_and_releases() {
    let mut reg = Registry::new();
    let hs: Vec<u32> = (0..4)
        .map(|_| ingest(&mut reg, TRIVIAL.as_bytes()).unwrap())
        .collect();
    assert_eq!(dispose(&mut reg, hs[0]), 3);
    assert_eq!(dispose(&mut reg, hs[3]), 2);
    // n = 4, k = 2: an unknown handle reports 2, a remaining one 1.
    assert_eq!(dispose(&mut reg, 1000), 2);
    assert_eq!(dispose(&mut reg, hs[1]), 1);
}

#[test]
fn query_is_repeatable() {
    let mut reg = Registry::new();
    let h = ingest(&mut reg, TRIVIAL.as_bytes()).unwrap();
    let a = lookup_original_position(&reg, h, 0, 3).ok().unwrap();
    let b = lookup_original_position(&reg, h, 0, 3).ok().unwrap();
    assert_eq!(a.source, b.source);
    assert_eq!(a.line, b.line);
    assert_eq!(a.column, b.column);
    assert_eq!(a.source, "a.js");
}

#[test]
fn query_after_release_is_unknown_handle() {
    let mut reg = Registry::new();
    let h = ingest(&mut reg, TRIVIAL.as_bytes()).unwrap();
    dispose(&mut reg, h);
    let e = lookup_original_position(&reg, h, 0, 0).err().unwrap();
    assert!(matches!(e, BridgeError::SourceMapNotFound));
}

#[test]
fn token_without_source_gives_empty_string() {
    let mut reg = Registry::new();
    let h = ingest(&mut reg, NO_SOURCE.as_bytes()).unwrap();
    let r = lookup_original_position(&reg, h, 0, 0).ok().unwrap();
    assert_eq!(r.source, "");
}

#[test]
fn query_on_a_later_line_of_a_two_line_map() {
    let mut reg = Registry::new();
    // Line 1 of the generated file maps to a.js line 3, column 0.
    let map = r#"{"version":3,"sources":["a.js"],"names":[],"mappings":"AAAA;AAGA"}"#;
    let h = ingest(&mut reg, map.as_bytes()).unwrap();
    let r = lookup_original_position(&reg, h, 1, 10).ok().unwrap();
    assert_eq!(r.line, 3);
    assert_eq!(r.column, 0);
    assert!(lookup_original_position(&reg, h, 2, 0).is_err());
}

#[test]
fn query_reads_original_line_and_column() {
    let mut reg = Registry::new();
    // Second segment: generated column 4 maps to a.js line 2, column 5.
    let map = r#"{"version":3,"sources":["a.js"],"names":[],"mappings":"AAAA,IAEK"}"#;
    let h = ingest(&mut reg, map.as_bytes()).unwrap();
    let r = lookup_original_position(&reg, h, 0, 6).ok().unwrap();
    assert_eq!(r.source, "a.js");
    assert_eq!(r.line, 2);
    assert_eq!(r.column, 5);
}

#[test]
fn resolve_token_fills_fields() {
    let r = resolve_token(3, Some((3, 7, 9, Some(String::from("b.js"))))).ok().unwrap();
    assert_eq!(r.source, "b.js");
    assert_eq!(r.line, 7);
    assert_eq!(r.column, 9);
    let r = resolve_token(0, Some((0, 1, 2, None))).ok().unwrap();
    assert_eq!(r.source, "");
    assert_eq!(r.line, 1);
    assert_eq!(r.column, 2);
    assert!(matches!(resolve_token(0, None), Err(BridgeError::LookupFailed)));
}

#[test]
fn resolve_token_on_another_line_covers_nothing() {
    let found = Some((0, 4, 4, Some(String::from("a.js"))));
    assert!(matches!(resolve_token(5, found), Err(BridgeError::LookupFailed)));
}

#[test]
fn register_decoded_reports_reason() {
    let mut reg = Registry::new();
    let e = register_decoded(&mut reg, Err(String::from("bad json"))).err().unwrap();
    assert_eq!(e.message(), "Failed to parse source map - Reason: bad json");
    assert_eq!(reg.len(), 0);
    let map = sourcemap::SourceMap::from_reader(TRIVIAL.as_bytes()).unwrap();
    assert_eq!(register_decoded(&mut reg, Ok(map)).ok(), Some(1));
    assert_eq!(reg.len(), 1);
}

#[test]
fn registry_operations() {
    let mut reg = Registry::new();
    assert!(reg.can_issue());
    let h = reg.allocate();
    assert_eq!(h, 1);
    assert!(reg.get(h).is_none());
    let map = sourcemap::SourceMap::from_reader(TRIVIAL.as_bytes()).unwrap();
    reg.insert(h, map);
    assert!(reg.get(h).is_some());
    assert_eq!(reg.len(), 1);
    assert_eq!(reg.remove(h), 0);
    assert_eq!(reg.remove(h), 0);
    assert_eq!(reg.allocate(), 2);
}

const RANGE: &str = r#"{"version":3,"sources":["a.js"],"names":[],"mappings":"UAAA","rangeMappings":"B"}"#;

#[test]
fn range_token_on_an_earlier_line_covers_nothing() {
    let mut reg = Registry::new();
    let h = ingest(&mut reg, RANGE.as_bytes()).unwrap();
    let e = lookup_original_position(&reg, h, 1, 5).err().unwrap();
    assert!(matches!(e, BridgeError::LookupFailed));
}

#[test]
fn range_token_on_the_same_line_offsets_the_column() {
    let mut reg = Registry::new();
    let h = ingest(&mut reg, RANGE.as_bytes()).unwrap();
    let r = lookup_original_position(&reg, h, 0, 12).ok().unwrap();
    assert_eq!(r.source, "a.js");
    assert_eq!(r.line, 0);
    assert_eq!(r.column, 2);
    assert!(lookup_original_position(&reg, h, 0, 9).is_err());
}
