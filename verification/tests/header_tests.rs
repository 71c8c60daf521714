use sap_odata::header::{copy_headers, header_safe, Header};

#[test]
fn header_safe_accepts_printable_ascii_and_tab() {
    assert!(header_safe(""));
    assert!(header_safe("application/json"));
    assert!(header_safe(" !\"#$%&'()*+,-./0123456789:;<=>?@"));
    assert!(header_safe("ABCDEFGHIJKLMNOPQRSTUVWXYZ[\\]^_`abcdefghijklmnopqrstuvwxyz{|}~"));
    assert!(header_safe("a\tb"));
}

#[test]
fn header_safe_refuses_controls_and_non_ascii() {
    assert!(!header_safe("a\nb"));
    assert!(!header_safe("a\rb"));
    assert!(!header_safe("\0"));
    assert!(!header_safe("\u{1f}"));
    assert!(!header_safe("end\u{7f}"));
    assert!(!header_safe("caf\u{e9}"));
    assert!(!header_safe("\u{80}"));
}

#[test]
fn copy_headers_keeps_names_values_and_order() {
    let headers = vec![
        Header { name: "Accept".to_string(), value: "application/json".to_string() },
        Header { name: "X-Empty".to_string(), value: String::new() },
        Header { name: "Accept".to_string(), value: "text/plain".to_string() },
    ];
    assert_eq!(copy_headers(&headers), headers);
    assert_eq!(copy_headers(&Vec::new()), Vec::<Header>::new());
}
