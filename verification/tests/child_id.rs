use py_hotstart::child_id::ChildId;

#[test]
fn test_child_id_display_parse() {
    let id = 2;
    let pid = 81581;
    let child_id = ChildId::new(id, pid);
    assert_eq!(child_id.id, id);
    assert_eq!(child_id.pid, pid);
    let displayed = child_id.to_text();
    assert_eq!(displayed, b"(2,81581)".to_vec());
    let child_id2 = ChildId::parse(&displayed).unwrap();
    assert_eq!(child_id2, child_id);
}

#[test]
fn test_child_id_from_str_missing_parentheses() {
    let inputs: [&[u8]; 4] = [b"123,456", b"(123,456", b"123,456)", b""];

    for input in inputs {
        assert!(
            ChildId::parse(input).is_err(),
            "Should fail for input: {}",
            String::from_utf8_lossy(input)
        );
    }
}

#[test]
fn test_child_id_from_str_missing_comma() {
    let inputs: [&[u8]; 4] = [b"(123 456)", b"(123)", b"(,456)", b"(123,)"];

    for input in inputs {
        assert!(
            ChildId::parse(input).is_err(),
            "Should fail for input: {}",
            String::from_utf8_lossy(input)
        );
    }
}

#[test]
fn test_child_id_from_str_invalid_numbers() {
    let inputs: [&[u8]; 3] = [b"(abc,456)", b"(123,xyz)", b"(abc,xyz)"];

    for input in inputs {
        assert!(
            ChildId::parse(input).is_err(),
            "Should fail for input: {}",
            String::from_utf8_lossy(input)
        );
    }
}

#[test]
fn child_id_parsing_boundary() {
    let parsed = ChildId::parse(b"(2,81581)").unwrap();
    assert_eq!(parsed.id, 2);
    assert_eq!(parsed.pid, 81581);

    let bad: [&[u8]; 6] = [b"(,5)", b"(2 5)", b"(2,)", b"2,5", b"", b"(a,b)"];
    for input in bad {
        assert!(
            ChildId::parse(input).is_err(),
            "Should fail for input: {}",
            String::from_utf8_lossy(input)
        );
    }
}

#[test]
fn child_id_rejects_sign_and_overflow() {
    // Components must be bare digits within range.
    assert!(ChildId::parse(b"(+2,5)").is_err());
    assert!(ChildId::parse(b"(2,-5)").is_err());
    assert!(ChildId::parse(b"(4294967296,5)").is_err());
    assert!(ChildId::parse(b"(1,2147483648)").is_err());
    let max = ChildId::parse(b"(4294967295,2147483647)").unwrap();
    assert_eq!(max.id, u32::MAX);
    assert_eq!(max.pid, i32::MAX);
}

#[test]
fn child_id_text_is_canonical() {
    let id = ChildId::new(0, 1);
    assert_eq!(id.to_text(), b"(0,1)".to_vec());
    // Non-canonical but digit-only forms still parse.
    let padded = ChildId::parse(b"(007,0042)").unwrap();
    assert_eq!(padded.id, 7);
    assert_eq!(padded.pid, 42);
}
