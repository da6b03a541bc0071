use cherry_pit::enum_check::{
    count_violations, is_violation, scan_source, AttrSummary, EnumFinding, EnumSummary, PathSummary,
    SegmentSummary,
};

fn first_enum(src: &str) -> EnumFinding {
    let findings = scan_source(src).expect("test fixture must parse");
    findings.into_iter().next().expect("test fixture must contain an enum")
}

fn collect_from(src: &str) -> usize {
    scan_source(src).expect("test fixture must parse").len()
}

#[test]
fn skips_cfg_test_module_bodies() {
    let src = "#[cfg(test)] mod tests { #[derive(thiserror::Error)] pub enum TestOnlyError { A } }";
    assert_eq!(collect_from(src), 0);
}

#[test]
fn collects_non_test_module_bodies() {
    let src = "mod inner { #[derive(thiserror::Error)] pub enum InnerError { A } }";
    assert_eq!(collect_from(src), 1);
}

#[test]
fn positive_flags_non_exhaustive_error_enum() {
    let e = first_enum("#[non_exhaustive] #[derive(Debug, thiserror::Error)] pub enum FooError { A }");
    assert!(e.violation);
}

#[test]
fn positive_flags_reversed_attr_order() {
    let e = first_enum("#[derive(thiserror::Error)] #[non_exhaustive] pub enum BarError { A }");
    assert!(e.violation);
}

#[test]
fn negative_compliant_closed_error_enum() {
    let e = first_enum("#[derive(Debug, thiserror::Error)] pub enum FooError { A }");
    assert!(!e.violation);
}

#[test]
fn negative_repr_dto() {
    let e = first_enum("#[repr(u8)] #[derive(Debug)] pub enum CollectionFailureReason { A = 0 }");
    assert!(!e.violation);
}

#[test]
fn negative_serde_dto() {
    let e = first_enum("#[derive(Serialize, Deserialize)] pub enum SchedulerEvent { A }");
    assert!(!e.violation);
}

#[test]
fn negative_serde_repr_dto() {
    let e = first_enum("#[repr(u8)] #[derive(Serialize, Deserialize)] pub enum ExclusionReason { A = 0 }");
    assert!(!e.violation);
}

#[test]
fn negative_non_pub_error_enum() {
    let e = first_enum("#[derive(thiserror::Error)] #[non_exhaustive] enum PrivErr { A }");
    assert!(!e.violation);
}

#[test]
fn error_must_match_the_last_segment_exactly() {
    assert!(!first_enum("#[derive(MyError)] #[non_exhaustive] pub enum E { A }").violation);
    assert!(!first_enum("#[derive(error)] #[non_exhaustive] pub enum E { A }").violation);
    assert!(!first_enum("#[derive(Error::Kind)] #[non_exhaustive] pub enum E { A }").violation);
    assert!(first_enum("#[derive(::thiserror::Error)] #[non_exhaustive] pub enum E { A }").violation);
    assert!(first_enum("#[derive(Error)] #[non_exhaustive] pub enum E { A }").violation);
}

#[test]
fn restricted_visibility_is_not_public() {
    assert!(!first_enum("#[derive(Error)] #[non_exhaustive] pub(crate) enum E { A }").violation);
}

#[test]
fn non_exhaustive_must_be_a_plain_path() {
    assert!(!first_enum("#[derive(Error)] #[other::non_exhaustive] pub enum E { A }").violation);
}

#[test]
fn cfg_without_test_does_not_hide_a_module() {
    let src = "#[cfg(feature = \"x\")] mod a { pub enum A { X } } #[cfg(unix)] mod b { pub enum B { X } }";
    assert_eq!(collect_from(src), 2);
    let hidden = "#[cfg(test)] mod a { pub enum A { X } } #[cfg(other, test)] mod b { pub enum B { X } }";
    assert_eq!(collect_from(hidden), 0);
}

#[test]
fn findings_keep_source_order_and_lines() {
    let src = "pub enum A { X }\n\nmod m {\n    #[derive(thiserror::Error)]\n    #[non_exhaustive]\n    pub enum InnerError { X }\n    mod out_of_line;\n}\nstruct S;\nenum Z { X }\n";
    let findings = scan_source(src).expect("fixture must parse");
    let names: Vec<&str> = findings.iter().map(|f| f.name.as_str()).collect();
    assert_eq!(names, vec!["A", "InnerError", "Z"]);
    let lines: Vec<Option<usize>> = findings.iter().map(|f| f.line).collect();
    assert_eq!(lines, vec![Some(1), Some(6), Some(10)]);
    assert_eq!(count_violations(&findings), 1);
}

#[test]
fn unparsable_source_is_refused() {
    assert!(scan_source("pub enum {").is_none());
    assert_eq!(scan_source("").map(|f| f.len()), Some(0));
}

#[test]
fn violation_count_of_none_is_zero() {
    assert_eq!(count_violations(&Vec::new()), 0);
}

fn path(segments: &[&str]) -> PathSummary {
    PathSummary {
        leading_colon: false,
        segments: segments
            .iter()
            .map(|s| SegmentSummary { ident: s.to_string(), has_arguments: false })
            .collect(),
    }
}

fn attr(name: &str, args: Option<Vec<PathSummary>>) -> AttrSummary {
    AttrSummary { path: path(&[name]), nested: vec![], args }
}

#[test]
fn is_violation_reads_hand_built_summaries() {
    let mut e = EnumSummary {
        name: "E".to_string(),
        is_public: true,
        line: 3,
        attrs: vec![
            attr("derive", Some(vec![path(&["Debug"]), path(&["thiserror", "Error"])])),
            attr("non_exhaustive", None),
        ],
    };
    assert!(is_violation(&e));
    e.attrs[1].path.segments[0].has_arguments = true;
    assert!(!is_violation(&e));
    e.attrs[1].path.segments[0].has_arguments = false;
    e.attrs[0].args = None;
    assert!(!is_violation(&e));
}
