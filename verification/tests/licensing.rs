use pinit_core::licensing::{
    civil_from_days, current_year_string, expand_spdx_template, expand_var_directive,
    render_spdx_license, replace_angle_placeholders, split_semicolons, template_supports_year,
    unquote, LicenseError,
};
use pinit_core::namemap::NameMap;

fn args(pairs: &[(&str, &str)]) -> NameMap<String> {
    let mut m = NameMap::new();
    for (k, v) in pairs {
        m.insert(k.to_string(), v.to_string());
    }
    m
}

#[test]
fn directive_var_uses_original_when_missing() {
    let tpl = "X <<var;name=\"missing\";original=\"DEFAULT\">> Y";
    let out = expand_spdx_template("X", tpl, &NameMap::new()).unwrap();
    assert_eq!(out, "X DEFAULT Y");
}

#[test]
fn directive_var_errors_when_missing_without_original() {
    let tpl = "X <<var;name=\"missing\">> Y";
    let err = expand_spdx_template("X", tpl, &NameMap::new()).unwrap_err();
    assert!(
        matches!(err, LicenseError::MissingTemplateVar { ref name, .. } if name == "missing")
    );
}

#[test]
fn unterminated_directive_errors() {
    let tpl = "X <<var;name=\"x\"";
    let err = expand_spdx_template("X", tpl, &NameMap::new()).unwrap_err();
    assert!(matches!(err, LicenseError::UnterminatedDirective { .. }));
}

#[test]
fn split_semicolons_respects_quotes() {
    let parts = split_semicolons(r#"var;name="a;b";original='c;d';x=y"#);
    assert_eq!(parts, vec!["var", r#"name="a;b""#, "original='c;d'", "x=y"]);
}

#[test]
fn replace_angle_placeholders_substitutes_known_keys() {
    let a = args(&[("year", "2025")]);
    let out = replace_angle_placeholders("Copyright <year> <unknown>", &a);
    assert_eq!(out, "Copyright 2025 <unknown>");
}

#[test]
fn replace_angle_placeholders_keeps_an_open_bracket() {
    let a = args(&[("year", "2025")]);
    assert_eq!(replace_angle_placeholders("a < b <year> c < d", &a), "a <b <year> c < d");
    assert_eq!(replace_angle_placeholders("x <  year  > y", &a), "x 2025 y");
    assert_eq!(replace_angle_placeholders("no brackets", &a), "no brackets");
}

#[test]
fn directives_other_than_var_are_stripped() {
    let a = args(&[("who", "Clay")]);
    let tpl = "<<beginOptional>>A<<endOptional>> <<>>B<<unknown;x=1>> <<VAR;name=who>>";
    assert_eq!(expand_spdx_template("X", tpl, &a).unwrap(), "A B Clay");
}

#[test]
fn var_directive_takes_argument_before_original() {
    let a = args(&[("n", "given")]);
    assert_eq!(
        expand_var_directive("X", "var;name=n;original=o", &a).unwrap(),
        "given"
    );
    assert_eq!(
        expand_var_directive("X", "var;original='o o'", &a).unwrap(),
        "o o"
    );
    assert_eq!(expand_var_directive("X", "var", &a).unwrap(), "");
    assert_eq!(expand_var_directive("X", "", &a).unwrap(), "");
}

#[test]
fn split_semicolons_keeps_empty_parts_but_not_a_blank_tail() {
    assert_eq!(split_semicolons("a;;b; "), vec!["a", "", "b"]);
    assert_eq!(split_semicolons(""), Vec::<String>::new());
    assert_eq!(split_semicolons(" x "), vec!["x"]);
}

#[test]
fn unquote_strips_matching_quotes_only() {
    assert_eq!(unquote("\"a\""), "a");
    assert_eq!(unquote("'a'"), "a");
    assert_eq!(unquote("\"a'"), "\"a'");
    assert_eq!(unquote("\""), "\"");
    assert_eq!(unquote("a"), "a");
    assert_eq!(unquote("\"\""), "");
}

#[test]
fn template_year_support_is_detected() {
    assert!(template_supports_year("Copyright <year> Someone"));
    assert!(template_supports_year("<<var;NAME=\"Year\">>"));
    assert!(template_supports_year("<<var;name='year'>>"));
    assert!(template_supports_year("<<var;name=year>>"));
    assert!(!template_supports_year("Copyright <YEAR>"));
    assert!(!template_supports_year("nothing"));
}

#[test]
fn civil_dates_of_known_days() {
    assert_eq!(civil_from_days(0), (1970, 1, 1));
    assert_eq!(civil_from_days(59), (1970, 3, 1));
    assert_eq!(civil_from_days(11016), (2000, 2, 29));
    assert_eq!(civil_from_days(19358), (2023, 1, 1));
    assert_eq!(civil_from_days(20088), (2024, 12, 31));
    assert_eq!(current_year_string(1_735_689_600), "2025");
    assert_eq!(current_year_string(1_735_689_599), "2024");
}

#[test]
fn renders_mit_with_year_and_fullname() {
    let a = args(&[("year", "2025"), ("copyright holders", "Clay")]);
    let rendered = render_spdx_license("MIT", &a, 0).unwrap();
    assert_eq!(rendered.spdx, "MIT");
    assert!(rendered.text.contains("2025"));
    assert!(rendered.text.contains("Clay"));
    assert!(!rendered.text.contains("<<var;"));
    assert!(!rendered.text.contains("<<beginOptional>>"));
}

#[test]
fn renders_mit_with_auto_year_when_missing() {
    let a = args(&[("copyright holders", "Clay")]);
    let rendered = render_spdx_license("MIT", &a, 1_735_689_600).unwrap();
    assert!(rendered.text.contains("2025"));
    assert!(rendered.text.contains("Clay"));
}

#[test]
fn unknown_spdx_id_errors() {
    let err = render_spdx_license("Definitely-Not-A-License", &NameMap::new(), 0).unwrap_err();
    assert!(matches!(err, LicenseError::UnknownSpdxId { .. }));
    assert_eq!(err.message(), "unknown SPDX license id: Definitely-Not-A-License");
}
