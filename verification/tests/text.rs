use ex_monty::{normalize_namedtuple_type_name, pascal_case, snake_case};

#[test]
fn snake_case_splits_words_at_capitals() {
    assert_eq!(snake_case("ValueError"), "value_error");
    assert_eq!(snake_case("ZeroDivisionError"), "zero_division_error");
    assert_eq!(snake_case("StatResult"), "stat_result");
}

#[test]
fn snake_case_puts_no_separator_in_front() {
    assert_eq!(snake_case("Exception"), "exception");
    assert_eq!(snake_case("X"), "x");
}

#[test]
fn snake_case_separates_every_capital() {
    assert_eq!(snake_case("OSError"), "o_s_error");
    assert_eq!(snake_case("IsADirectoryError"), "is_a_directory_error");
}

#[test]
fn snake_case_keeps_what_has_no_capital() {
    assert_eq!(snake_case(""), "");
    assert_eq!(snake_case("int"), "int");
    assert_eq!(snake_case("already_snake"), "already_snake");
    assert_eq!(snake_case("list[int]"), "list[int]");
}

#[test]
fn snake_case_lowercases_ascii_only() {
    // 'É' is uppercase, so it is set off as a word, but it is not ASCII and
    // stays as it is.
    assert_eq!(snake_case("aÉb"), "a_Éb");
    assert_eq!(snake_case("Éa"), "Éa");
}

#[test]
fn pascal_case_capitalizes_each_word() {
    assert_eq!(pascal_case("value_error"), "ValueError");
    assert_eq!(pascal_case("stat_result"), "StatResult");
    assert_eq!(pascal_case("runtime_error"), "RuntimeError");
}

#[test]
fn pascal_case_drops_every_separator() {
    assert_eq!(pascal_case(""), "");
    assert_eq!(pascal_case("_"), "");
    assert_eq!(pascal_case("__a__b_"), "AB");
    assert_eq!(pascal_case("a"), "A");
}

#[test]
fn pascal_case_keeps_the_rest_of_a_word() {
    assert_eq!(pascal_case("hTTP_server"), "HTTPServer");
    assert_eq!(pascal_case("ValueError"), "ValueError");
    assert_eq!(pascal_case("o_s_error"), "OSError");
}

#[test]
fn pascal_case_uses_the_full_uppercase_mapping() {
    // The uppercase of 'ß' is two characters.
    assert_eq!(pascal_case("ßa_b"), "SSaB");
    assert_eq!(pascal_case("1st_place"), "1stPlace");
}

#[test]
fn pascal_case_undoes_snake_case_on_engine_names() {
    for name in ["ValueError", "OSError", "KeyError", "ZeroDivisionError", "IsADirectoryError"] {
        assert_eq!(pascal_case(&snake_case(name)), name);
    }
}

#[test]
fn normalize_keeps_a_name_with_a_capital() {
    assert_eq!(normalize_namedtuple_type_name("StatResult"), "StatResult");
    assert_eq!(normalize_namedtuple_type_name("os.StatResult"), "os.StatResult");
    assert_eq!(normalize_namedtuple_type_name("my_Type"), "my_Type");
}

#[test]
fn normalize_capitalizes_a_name_without_capitals() {
    assert_eq!(normalize_namedtuple_type_name("stat_result"), "StatResult");
    assert_eq!(normalize_namedtuple_type_name("point"), "Point");
    assert_eq!(normalize_namedtuple_type_name(""), "");
}

#[test]
fn snake_case_step_by_step() {
    let mut out = String::from("ab");
    ex_monty::text::snake_case_step(&mut out, 'C', true, false);
    assert_eq!(out, "ab_c");
    ex_monty::text::snake_case_step(&mut out, 'd', false, false);
    assert_eq!(out, "ab_cd");
    let mut first = String::new();
    ex_monty::text::snake_case_step(&mut first, 'X', true, true);
    assert_eq!(first, "x");
    // What counts as uppercase is the caller's word; only ASCII is lowered.
    ex_monty::text::snake_case_step(&mut first, 'É', true, false);
    assert_eq!(first, "x_É");
    ex_monty::text::snake_case_step(&mut first, 'q', true, false);
    assert_eq!(first, "x_É_q");
}

#[test]
fn pascal_case_step_by_step() {
    let mut out = String::new();
    let next = ex_monty::text::pascal_case_step(&mut out, 'a', true, &vec!['A']);
    assert_eq!((out.as_str(), next), ("A", false));
    let next = ex_monty::text::pascal_case_step(&mut out, 'b', false, &vec!['B']);
    assert_eq!((out.as_str(), next), ("Ab", false));
    let next = ex_monty::text::pascal_case_step(&mut out, '_', false, &vec![]);
    assert_eq!((out.as_str(), next), ("Ab", true));
    let next = ex_monty::text::pascal_case_step(&mut out, '_', true, &vec!['?']);
    assert_eq!((out.as_str(), next), ("Ab", true));
    let next = ex_monty::text::pascal_case_step(&mut out, 'ß', true, &vec!['S', 'S']);
    assert_eq!((out.as_str(), next), ("AbSS", false));
}

#[test]
fn normalize_given_whether_the_name_holds_a_capital() {
    assert_eq!(ex_monty::text::normalize_type_name_given("stat_result", false), "StatResult");
    assert_eq!(ex_monty::text::normalize_type_name_given("stat_result", true), "stat_result");
    assert_eq!(ex_monty::text::normalize_type_name_given("StatResult", true), "StatResult");
}

#[test]
fn contains_uppercase_finds_a_capital_anywhere() {
    assert!(ex_monty::text::contains_uppercase("abC"));
    assert!(ex_monty::text::contains_uppercase("É"));
    assert!(!ex_monty::text::contains_uppercase("abc_1"));
    assert!(!ex_monty::text::contains_uppercase(""));
}
