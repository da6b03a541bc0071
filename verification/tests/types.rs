#[test]
fn type_level_bounds_compile() {}
