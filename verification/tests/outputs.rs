use nix_bindings::outputs::Outputs;

fn names(outputs: Outputs<u8>) -> Vec<String> {
    outputs.into_entries().into_iter().map(|(name, _)| name).collect()
}

#[test]
fn last_report_counts() {
    let mut outputs = Outputs::new();
    outputs.report(b"out", 1u8);
    outputs.report(b"dev", 2);
    outputs.report(b"out", 3);
    assert_eq!(outputs.get("out"), Some(&3));
    assert_eq!(outputs.get("dev"), Some(&2));
    assert_eq!(outputs.get("doc"), None);
    assert_eq!(
        outputs.into_entries(),
        vec![("dev".to_string(), 2), ("out".to_string(), 3)]
    );
}

#[test]
fn order_does_not_depend_on_reports() {
    let mut forward = Outputs::new();
    let mut backward = Outputs::new();
    let list = ["out", "", "dev", "o", "outa", "Z", "\u{e9}", "\u{ffff}", "\u{10000}"];
    for name in list {
        forward.insert(name.to_string(), 0u8);
    }
    for name in list.iter().rev() {
        backward.insert(name.to_string(), 0u8);
    }
    let mut sorted: Vec<String> = list.iter().map(|name| name.to_string()).collect();
    sorted.sort();
    assert_eq!(names(forward), sorted);
    assert_eq!(names(backward), sorted);
}

#[test]
fn names_that_are_not_utf8_are_replaced() {
    let mut outputs = Outputs::new();
    outputs.report(b"o\xffut", 1u8);
    assert_eq!(outputs.get("o\u{fffd}ut"), Some(&1));
    let mut outputs = Outputs::new();
    outputs.report("\u{e9}t\u{e9}".as_bytes(), 2u8);
    assert_eq!(outputs.get("\u{e9}t\u{e9}"), Some(&2));
}

#[test]
fn no_outputs() {
    let outputs: Outputs<u8> = Outputs::new();
    assert_eq!(outputs.get(""), None);
    assert!(names(outputs).is_empty());
}
