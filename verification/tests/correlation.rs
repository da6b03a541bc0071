use cherry_pit::correlation::{
    correlation_from, extract_correlation, parse_traceparent, trim_whitespace, Correlation,
};

const TP: &str = "00-0af7651916cd43dd8448eb211c80319c-00f067aa0ba902b7-01";

#[test]
fn absent_headers_yield_none() {
    assert_eq!(extract_correlation(None, None), Correlation::Absent);
}

#[test]
fn valid_traceparent_populates_both_ids() {
    let ctx = extract_correlation(Some(TP), None);
    assert_eq!(
        ctx,
        Correlation::Traced {
            correlation: 0x0af7_6519_16cd_43dd_8448_eb21_1c80_319c,
            causation: 0x00f0_67aa_0ba9_02b7,
        }
    );
}

#[test]
fn x_correlation_id_uuid_yields_correlated() {
    let id = uuid::Uuid::now_v7();
    let ctx = extract_correlation(None, Some(&id.to_string()));
    assert_eq!(ctx, Correlation::Correlated(id.as_u128()));
}

#[test]
fn x_correlation_id_is_trimmed() {
    let id = uuid::Uuid::now_v7();
    let padded = format!("  {id}\t");
    assert_eq!(extract_correlation(None, Some(&padded)), Correlation::Correlated(id.as_u128()));
}

#[test]
fn malformed_traceparent_falls_through_to_fallback() {
    let id = uuid::Uuid::now_v7();
    let ctx = extract_correlation(Some("not-a-traceparent"), Some(&id.to_string()));
    assert_eq!(ctx, Correlation::Correlated(id.as_u128()));
}

#[test]
fn malformed_traceparent_and_no_fallback_yields_none() {
    assert_eq!(extract_correlation(Some("00-XXXX-YYYY-01"), None), Correlation::Absent);
}

#[test]
fn unsupported_traceparent_version_is_treated_as_absent() {
    let tp = "01-0af7651916cd43dd8448eb211c80319c-00f067aa0ba902b7-01";
    assert_eq!(extract_correlation(Some(tp), None), Correlation::Absent);
}

#[test]
fn all_zero_trace_id_is_treated_as_absent() {
    let tp = "00-00000000000000000000000000000000-00f067aa0ba902b7-01";
    assert_eq!(extract_correlation(Some(tp), None), Correlation::Absent);
}

#[test]
fn all_zero_parent_span_is_treated_as_absent() {
    let tp = "00-0af7651916cd43dd8448eb211c80319c-0000000000000000-01";
    assert_eq!(extract_correlation(Some(tp), None), Correlation::Absent);
}

#[test]
fn malformed_x_correlation_id_falls_through_to_none() {
    assert_eq!(extract_correlation(None, Some("not-a-uuid")), Correlation::Absent);
}

#[test]
fn traceparent_takes_precedence_over_x_correlation_id() {
    let id = uuid::Uuid::now_v7().to_string();
    let ctx = extract_correlation(Some(TP), Some(&id));
    assert!(matches!(ctx, Correlation::Traced { .. }));
}

#[test]
fn wrong_length_traceparent_rejected() {
    assert_eq!(extract_correlation(Some("00-abc-def-01"), None), Correlation::Absent);
}

#[test]
fn traceparent_parse_accepts_upper_case_and_plus_sign() {
    assert_eq!(
        parse_traceparent("00-0AF7651916CD43DD8448EB211C80319C-00F067AA0BA902B7-01"),
        Some((0x0af7_6519_16cd_43dd_8448_eb21_1c80_319c, 0x00f0_67aa_0ba9_02b7))
    );
    // A base-16 parse takes a leading `+`, as the integer parsers do.
    assert_eq!(
        parse_traceparent("00-+af7651916cd43dd8448eb211c80319c-00f067aa0ba902b7-01"),
        Some((0x0af7_6519_16cd_43dd_8448_eb21_1c80_319c, 0x00f0_67aa_0ba9_02b7))
    );
    assert_eq!(
        parse_traceparent("00-0af7651916cd43dd8448eb211c80319c-00f067aa0ba902b7-+1"),
        Some((0x0af7_6519_16cd_43dd_8448_eb21_1c80_319c, 0x00f0_67aa_0ba9_02b7))
    );
}

#[test]
fn traceparent_parse_rejects_bad_fields() {
    assert_eq!(parse_traceparent("00-0af7651916cd43dd8448eb211c80319g-00f067aa0ba902b7-01"), None);
    assert_eq!(parse_traceparent("00-0af7651916cd43dd8448eb211c80319c-00f067aa0ba902b7-0g"), None);
    assert_eq!(parse_traceparent("00-0af7651916cd43dd8448eb211c80319c-00f067aa0ba902b7-0-"), None);
    assert_eq!(parse_traceparent("00-0af7651916cd43dd8448eb211c80319c+00f067aa0ba902b7-01"), None);
    assert_eq!(parse_traceparent(""), None);
}

#[test]
fn trimming_removes_unicode_whitespace_only_at_the_ends() {
    assert_eq!(trim_whitespace("\u{3000} a b \u{2003}\n"), "a b");
    assert_eq!(trim_whitespace("   "), "");
    assert_eq!(trim_whitespace("x"), "x");
}

#[test]
fn choice_prefers_the_trace_context() {
    assert_eq!(
        correlation_from(Some((5, 6)), Some(7)),
        Correlation::Traced { correlation: 5, causation: 6 }
    );
    assert_eq!(correlation_from(None, Some(7)), Correlation::Correlated(7));
    assert_eq!(correlation_from(None, None), Correlation::Absent);
}

#[test]
fn trimming_agrees_with_str_trim_on_every_char() {
    for code in 0u32..0x1_0000 {
        if let Some(c) = char::from_u32(code) {
            let s = format!("{c}a{c}b{c}");
            assert_eq!(trim_whitespace(&s), s.trim(), "U+{code:04X}");
        }
    }
}

#[test]
fn x_correlation_id_accepts_every_uuid_form() {
    let value: u128 = 0x550e_8400_e29b_41d4_a716_4466_5544_0000;
    for text in [
        "550e8400-e29b-41d4-a716-446655440000",
        "550E8400-E29B-41D4-A716-446655440000",
        "550e8400e29b41d4a716446655440000",
        "{550e8400-e29b-41d4-a716-446655440000}",
        "urn:uuid:550e8400-e29b-41d4-a716-446655440000",
        "URN:UUID:550e8400-e29b-41d4-a716-446655440000",
    ] {
        assert_eq!(extract_correlation(None, Some(text)), Correlation::Correlated(value), "{text}");
    }
}

#[test]
fn x_correlation_id_rejects_near_misses() {
    for text in [
        "550e8400-e29b-41d4-a716-44665544000",
        "550e8400-e29b-41d4-a716-4466554400000",
        "550e8400_e29b-41d4-a716-446655440000",
        "550e8400-e29b-41d4-a716-44665544000g",
        "[550e8400-e29b-41d4-a716-446655440000]",
        "urn:uuix:550e8400-e29b-41d4-a716-446655440000",
        "{550e8400e29b41d4a716446655440000}",
        "550e8400-e29b-41d4-a716-44665544000é",
    ] {
        assert_eq!(extract_correlation(None, Some(text)), Correlation::Absent, "{text}");
    }
}
