use sap_odata::credentials::{authorization_value, basic_authorization_value, join_credentials};

#[test]
fn authorization_for_admin_and_secret() {
    assert_eq!(join_credentials("admin", "secret"), "admin:secret");
    assert_eq!(
        basic_authorization_value("admin", "secret"),
        Some("Basic YWRtaW46c2VjcmV0".to_string())
    );
}

#[test]
fn authorization_pads_to_four_characters() {
    assert_eq!(basic_authorization_value("a", "b"), Some("Basic YTpi".to_string()));
    assert_eq!(basic_authorization_value("a", ""), Some("Basic YTo=".to_string()));
    assert_eq!(basic_authorization_value("", ""), Some("Basic Og==".to_string()));
    assert_eq!(
        basic_authorization_value("your_username", "your_password"),
        Some("Basic eW91cl91c2VybmFtZTp5b3VyX3Bhc3N3b3Jk".to_string())
    );
}

#[test]
fn authorization_uses_plus_and_slash() {
    assert_eq!(basic_authorization_value("~~~", "~~~"), Some("Basic fn5+On5+fg==".to_string()));
    assert_eq!(basic_authorization_value("???", "???"), Some("Basic Pz8/Oj8/Pw==".to_string()));
}

#[test]
fn join_credentials_inserts_one_colon() {
    assert_eq!(join_credentials("", ""), ":");
    assert_eq!(join_credentials("a:b", ":c"), "a:b::c");
    assert_eq!(join_credentials("user", ""), "user:");
}

#[test]
fn authorization_value_puts_basic_first() {
    assert_eq!(authorization_value("YWRtaW46c2VjcmV0"), "Basic YWRtaW46c2VjcmV0");
    assert_eq!(authorization_value(""), "Basic ");
}

#[test]
fn authorization_refuses_line_breaks() {
    assert_eq!(basic_authorization_value("admin\r\nX-Injected: 1", "secret"), None);
    assert_eq!(basic_authorization_value("admin", "sec\nret"), None);
    assert_eq!(basic_authorization_value("admin", "sec\rret"), None);
}

#[test]
fn authorization_refuses_text_outside_ascii() {
    assert_eq!(basic_authorization_value("j\u{fc}rgen", "secret"), None);
    assert_eq!(basic_authorization_value("admin", "\u{1f511}"), None);
}

#[test]
fn authorization_accepts_tab_and_space() {
    assert_eq!(basic_authorization_value("a\tb", "c d"), Some("Basic YQliOmMgZA==".to_string()));
}
