use mantra::coverage::{
    get_covered_traces, iso8601_str_to_offsetdatetime, sort_covered_lines, try_iso8601_str_to_offsetdatetime, traces_to_cover, CoveredFile, CoveredFileTrace, CoveredLine, TraceSpan,
};

fn span(start: usize, end: usize, req_id: &str, line: usize) -> TraceSpan {
    TraceSpan { start, end, req_id: req_id.to_string(), line }
}

#[test]
fn disjoint_traces() {
    let spans = vec![span(10, 15, "first", 8), span(20, 25, "second", 18)];

    // range for first trace is 10..15, so 15 is exclusive
    let mut lines = vec![
        CoveredLine { line: 15, hits: 0 },
        CoveredLine { line: 24, hits: 0 },
        CoveredLine { line: 30, hits: 0 },
    ];

    let covered_traces: Vec<CoveredFileTrace> = get_covered_traces(spans, &mut lines);

    assert_eq!(covered_traces.len(), 1, "Not just the second trace matched.");
    assert_eq!(
        covered_traces.first().unwrap().req_ids.first().unwrap(),
        "second",
        "The second trace was not matched."
    );
}

#[test]
fn two_overlapping_traces() {
    let spans = vec![span(10, 25, "outer", 8), span(20, 24, "inner", 18)];

    let mut lines = vec![CoveredLine { line: 20, hits: 0 }];

    let covered_traces: Vec<CoveredFileTrace> = get_covered_traces(spans, &mut lines);

    assert_eq!(covered_traces.len(), 2, "Both traces matched.");
    assert_ne!(
        covered_traces.first().unwrap().req_ids.first().unwrap(),
        covered_traces.last().unwrap().req_ids.first().unwrap(),
        "The same trace was matched twice."
    );
}

#[test]
fn same_trace_line_collects_each_requirement_once() {
    let spans = vec![span(1, 10, "a", 1), span(1, 10, "b", 1), span(5, 6, "a", 1)];
    let mut lines = vec![CoveredLine { line: 5, hits: 2 }, CoveredLine { line: 2, hits: 1 }];

    let covered_traces = get_covered_traces(spans, &mut lines);

    assert_eq!(covered_traces.len(), 1);
    assert_eq!(covered_traces[0].line, 1);
    let mut ids = covered_traces[0].req_ids.clone();
    ids.sort();
    assert_eq!(ids, vec!["a".to_string(), "b".to_string()]);
    assert_eq!(lines, vec![CoveredLine { line: 2, hits: 1 }, CoveredLine { line: 5, hits: 2 }]);
}

#[test]
fn no_spans_no_traces() {
    let mut lines = vec![CoveredLine { line: 3, hits: 1 }];
    assert!(get_covered_traces(Vec::new(), &mut lines).is_empty());
}

#[test]
fn covered_lines_sort_by_line_then_hits() {
    let mut lines = vec![
        CoveredLine { line: 7, hits: 3 },
        CoveredLine { line: 2, hits: 9 },
        CoveredLine { line: 7, hits: 1 },
    ];
    sort_covered_lines(&mut lines);
    assert_eq!(
        lines,
        vec![
            CoveredLine { line: 2, hits: 9 },
            CoveredLine { line: 7, hits: 1 },
            CoveredLine { line: 7, hits: 3 },
        ]
    );
}

#[test]
fn listed_then_computed_traces_are_covered() {
    let file = CoveredFile {
        filepath: "src/lib.rs".to_string(),
        covered_lines: vec![CoveredLine { line: 12, hits: 1 }],
        covered_traces: vec![CoveredFileTrace { req_ids: vec!["listed-a".to_string(), "listed-b".to_string()], line: 3 }],
    };
    let (computed, keys) = traces_to_cover(file, vec![span(10, 20, "spanned", 9)]);
    assert_eq!(computed.len(), 1);
    assert_eq!(computed[0].line, 9);
    let triples: Vec<(String, String, usize)> = keys.into_iter().map(|k| (k.req_id, k.filepath, k.line)).collect();
    assert_eq!(
        triples,
        vec![
            ("listed-a".to_string(), "src/lib.rs".to_string(), 3),
            ("listed-b".to_string(), "src/lib.rs".to_string(), 3),
            ("spanned".to_string(), "src/lib.rs".to_string(), 9),
        ]
    );
}

#[test]
fn iso8601_dates_to_instants() {
    let t = iso8601_str_to_offsetdatetime("2024-05-01T12:00:00.5Z");
    assert_eq!((t.secs, t.nanos), (1714564800, 500_000_000));
    let shifted = iso8601_str_to_offsetdatetime("2024-05-01T14:00:00.5+02:00");
    assert_eq!(shifted, t);
    assert_eq!(try_iso8601_str_to_offsetdatetime("not a date"), None);
    assert_eq!(try_iso8601_str_to_offsetdatetime("1970-01-01T00:00:00Z").map(|u| (u.secs, u.nanos)), Some((0, 0)));
}
