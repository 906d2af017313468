use chatsounds_core::text::{
    is_continuation_message, is_global_cs_message, is_global_csent_message, remove_color,
    remove_color_left,
};

#[test]
fn test_is_global_cs_message() {
    assert_eq!(is_global_cs_message("&fcs is good"), Some("is good".to_string()));
    assert_eq!(is_global_cs_message("cs is good"), Some("is good".to_string()));
    assert_eq!(is_global_cs_message("cs "), Some("".to_string()));
    assert_eq!(is_global_cs_message("&fcs "), Some("".to_string()));
    assert_eq!(is_global_cs_message("cs"), None);
    assert_eq!(is_global_cs_message(""), None);
    assert_eq!(is_global_cs_message("&f"), None);
    assert_eq!(is_global_cs_message("&fcs"), None);

    assert_eq!(is_global_cs_message("&fcss is BAD"), None);
}

#[test]
fn test_is_global_csent_message() {
    for good in ["&fcsent 9 is good", "csent 9 is good"] {
        assert_eq!(
            is_global_csent_message(good),
            Some(("is good".to_string(), 9)),
            "{good:?}"
        );
    }

    for bad in [
        "csent -1 is bad",
        "csent 256 is bad",
        "csent",
        "&fcsent",
        "",
        "&f",
        "&fcsents 1 2 3 is BAD",
        "csents 1 2 3 is BAD",
    ] {
        assert_eq!(is_global_csent_message(bad), None, "{bad:?}");
    }
}

#[test]
fn csent_accepts_plus_sign_and_trims_phrase() {
    assert_eq!(
        is_global_csent_message("csent +255   hi there  "),
        Some(("hi there".to_string(), 255))
    );
    assert_eq!(is_global_csent_message("csent 9    "), None);
    assert_eq!(is_global_csent_message("csent 9"), None);
}

#[test]
fn remove_color_left_strips_leading_codes_only() {
    assert_eq!(remove_color_left("&f&7abc&e"), "abc&e");
    assert_eq!(remove_color_left("&"), "&");
    assert_eq!(remove_color_left("abc"), "abc");
}

#[test]
fn color_code_needs_ascii_second_character() {
    assert_eq!(remove_color_left("&éx"), "&éx");
    assert_eq!(remove_color_left("&f&éx"), "&éx");
    assert_eq!(is_global_cs_message("&écs hi"), None);
    assert_eq!(is_continuation_message("> &éx"), Some("&éx".to_string()));
}

#[test]
fn remove_color_strips_every_code() {
    assert_eq!(remove_color("&fhel&alo&"), "hello&");
    assert_eq!(remove_color(""), "");
}

#[test]
fn continuation_lines() {
    assert_eq!(is_continuation_message("> &fmore text"), Some("more text".to_string()));
    assert_eq!(is_continuation_message(">more"), None);
    assert_eq!(is_continuation_message("hello"), None);
}
