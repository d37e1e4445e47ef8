use arklog::log_geometry::filter_match_ranges_in;
use arklog::query::{classify_record, place_record, plan_filter, plan_find, CompiledQuery, QueryPlan};

#[test]
fn filters_are_rebuilt_only_when_they_change() {
    assert_eq!(plan_filter("", None, true), QueryPlan::Unchanged);
    assert_eq!(plan_filter("error", Some("error"), true), QueryPlan::Unchanged);
    assert_eq!(plan_filter("error", Some("error"), false), QueryPlan::Compile);
    assert_eq!(plan_filter("warn", Some("error"), true), QueryPlan::Compile);
    assert_eq!(plan_filter("", Some("error"), true), QueryPlan::Clear);
    assert_eq!(
        plan_filter(&"x".repeat(4_097), None, true),
        QueryPlan::TooLong("Regular expression exceeds 4096 bytes".to_string())
    );
}

#[test]
fn find_queries_have_the_same_budget() {
    assert_eq!(plan_find("needle", "needle"), QueryPlan::Unchanged);
    assert_eq!(plan_find("", "needle"), QueryPlan::Clear);
    assert_eq!(plan_find("needle", ""), QueryPlan::Compile);
    assert_eq!(
        plan_find(&"y".repeat(4_097), ""),
        QueryPlan::TooLong("Find query exceeds 4096 bytes".to_string())
    );
}

#[test]
fn records_are_visible_when_the_filter_allows_and_found_when_visible() {
    assert_eq!(classify_record(true, None, None), (true, false));
    assert_eq!(classify_record(true, Some(false), Some(true)), (false, false));
    assert_eq!(classify_record(true, Some(true), Some(true)), (true, true));
    assert_eq!(classify_record(false, None, Some(true)), (false, false));
}

#[test]
fn filters_match_without_case_and_report_bad_patterns() {
    let filter = CompiledQuery::filter("e.ror").expect("valid pattern");
    assert_eq!(filter.source(), "e.ror");
    assert!(filter.is_match("E ERROR boot"));
    assert!(!filter.is_match("I info"));
    assert_eq!(filter.match_spans("error, eRRor"), vec![(0, 5), (7, 12)]);

    let broken = CompiledQuery::filter("(unclosed").err().expect("syntax error");
    assert!(broken.contains("unclosed"));

    let oversized = CompiledQuery::build("\\w{500}", 100, 100).err().expect("too big");
    assert!(oversized.contains("exceeds size limit"));
}

#[test]
fn find_queries_are_escaped_and_match_literally() {
    let find = CompiledQuery::find("a.b(").expect("escaped pattern");
    assert_eq!(find.source(), "a\\.b\\(");
    assert!(find.is_match("xx A.B( yy"));
    assert!(!find.is_match("axb("));
}

#[test]
fn records_are_placed_by_the_filter_and_the_find_query() {
    let filter = CompiledQuery::filter("^E").expect("filter");
    let find = CompiledQuery::find("disk").expect("find");
    assert_eq!(place_record(true, Some(&filter), Some(&find), "E Disk full"), (true, true));
    assert_eq!(place_record(true, Some(&filter), Some(&find), "E memory"), (true, false));
    assert_eq!(place_record(true, Some(&filter), Some(&find), "I disk ok"), (false, false));
    assert_eq!(place_record(false, None, Some(&find), "disk"), (false, false));
    assert_eq!(place_record(true, None, None, "anything"), (true, false));
}

#[test]
fn filter_ranges_are_limited_to_the_visible_bytes() {
    let filter = CompiledQuery::filter("ab").expect("filter");
    let line = "ab-ab-ab-ab";
    assert_eq!(filter_match_ranges_in(line, Some(&filter), 3, 7), vec![(3, 5), (6, 8)]);
    assert_eq!(filter_match_ranges_in(line, None, 0, 11), Vec::<(usize, usize)>::new());
}
