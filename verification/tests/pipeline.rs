//! End-to-end and component tests for the descriptor-to-index pipeline.

use scip_protobuf::assemble::assemble;
use scip_protobuf::decode::{decode, DecodeResult, SegmentKind};
use scip_protobuf::model::{
    EnumDeclaration, EnumValueDeclaration, FieldDeclaration, FileDeclaration, MessageDeclaration,
    SourceLocation,
};
use scip_protobuf::{parse_plugin_parameter, IndexError};

fn field(name: &str, declared_type: Option<&str>) -> FieldDeclaration {
    FieldDeclaration {
        name: Some(name.to_string()),
        declared_type: declared_type.map(|t| t.to_string()),
    }
}

fn message(
    name: &str,
    fields: Vec<FieldDeclaration>,
    messages: Vec<MessageDeclaration>,
    enums: Vec<EnumDeclaration>,
) -> MessageDeclaration {
    MessageDeclaration {
        name: Some(name.to_string()),
        fields,
        messages,
        enums,
    }
}

fn enumeration(name: &str, values: &[&str]) -> EnumDeclaration {
    EnumDeclaration {
        name: Some(name.to_string()),
        values: values
            .iter()
            .map(|v| EnumValueDeclaration {
                name: Some(v.to_string()),
            })
            .collect(),
    }
}

fn loc(path: &[i32], span: &[i32]) -> SourceLocation {
    SourceLocation {
        path: path.to_vec(),
        span: span.to_vec(),
    }
}

fn file(
    name: &str,
    package: &str,
    messages: Vec<MessageDeclaration>,
    enums: Vec<EnumDeclaration>,
    locations: Vec<SourceLocation>,
) -> FileDeclaration {
    FileDeclaration {
        name: Some(name.to_string()),
        package: Some(package.to_string()),
        messages,
        enums,
        locations,
    }
}

fn demo_file() -> FileDeclaration {
    let user = message("User", vec![field("id", Some(".demo.Role"))], vec![], vec![]);
    let role = enumeration("Role", &["ADMIN"]);
    file(
        "user.proto",
        "demo",
        vec![user],
        vec![role],
        vec![
            loc(&[4, 0, 1], &[0, 8, 12]),
            loc(&[4, 0, 2, 0, 1], &[1, 9, 11]),
            loc(&[4, 0, 2, 0, 6], &[1, 2, 6]),
            loc(&[5, 0, 1], &[4, 5, 9]),
            loc(&[5, 0, 2, 0, 1], &[5, 2, 7]),
        ],
    )
}

#[test]
fn decode_message_name_path() {
    let f = demo_file();
    let r = decode(&f, &vec![4, 0, 1]).unwrap().unwrap();
    match r {
        DecodeResult::LocalSegments(segs) => {
            assert_eq!(segs.len(), 1);
            assert_eq!(segs[0].name, "User");
            assert_eq!(segs[0].kind, SegmentKind::Type);
        }
        DecodeResult::ExternalReference(_) => panic!("expected local segments"),
    }
}

#[test]
fn decode_enum_value_path() {
    let f = demo_file();
    let r = decode(&f, &vec![5, 0, 2, 0, 1]).unwrap().unwrap();
    match r {
        DecodeResult::LocalSegments(segs) => {
            assert_eq!(segs.len(), 2);
            assert_eq!(segs[0].name, "Role");
            assert_eq!(segs[0].kind, SegmentKind::Type);
            assert_eq!(segs[1].name, "ADMIN");
            assert_eq!(segs[1].kind, SegmentKind::Term);
        }
        DecodeResult::ExternalReference(_) => panic!("expected local segments"),
    }
}

#[test]
fn decode_is_idempotent() {
    let f = demo_file();
    for path in [
        vec![4, 0, 1],
        vec![4, 0, 2, 0, 6],
        vec![5, 0, 2, 0, 1],
        vec![6, 0],
        vec![],
    ] {
        let first = decode(&f, &path);
        let second = decode(&f, &path);
        assert_eq!(first, second);
    }
}

#[test]
fn decode_nested_field_segments() {
    let b = message("B", vec![field("f", Some(".p.Other"))], vec![], vec![]);
    let a = message("A", vec![], vec![b], vec![]);
    let f = file("n.proto", "p", vec![a], vec![], vec![]);
    let name_path = vec![4, 0, 3, 0, 2, 0, 1];
    match decode(&f, &name_path).unwrap().unwrap() {
        DecodeResult::LocalSegments(segs) => {
            let names: Vec<&str> = segs.iter().map(|s| s.name.as_str()).collect();
            assert_eq!(names, vec!["A", "B", "f"]);
            assert_eq!(segs[0].kind, SegmentKind::Type);
            assert_eq!(segs[1].kind, SegmentKind::Type);
            assert_eq!(segs[2].kind, SegmentKind::Term);
        }
        DecodeResult::ExternalReference(_) => panic!("expected local segments"),
    }
    let type_path = vec![4, 0, 3, 0, 2, 0, 6];
    match decode(&f, &type_path).unwrap().unwrap() {
        DecodeResult::ExternalReference(name) => assert_eq!(name, ".p.Other"),
        DecodeResult::LocalSegments(_) => panic!("expected an external reference"),
    }
}

#[test]
fn unknown_path_is_skipped() {
    let f = demo_file();
    assert_eq!(decode(&f, &vec![6, 0]).unwrap(), None);
    assert_eq!(decode(&f, &vec![8]).unwrap(), None);
    assert_eq!(decode(&f, &vec![4, 0, 7, 1]).unwrap(), None);
}

#[test]
fn unknown_path_does_not_abort_run() {
    let mut f = demo_file();
    f.locations = vec![loc(&[6, 0], &[9, 0, 5])];
    let out = assemble(&vec![f], "/proj", vec![]).unwrap();
    assert_eq!(out.documents.len(), 1);
    assert_eq!(out.documents[0].symbols.len(), 0);
    assert_eq!(out.documents[0].occurrences.len(), 0);
}

#[test]
fn out_of_range_index_is_fatal() {
    let f = demo_file();
    assert!(matches!(
        decode(&f, &vec![4, 7]),
        Err(IndexError::MalformedInput)
    ));
    assert!(matches!(
        decode(&f, &vec![4, -1, 1]),
        Err(IndexError::MalformedInput)
    ));
    assert!(matches!(
        decode(&f, &vec![5, 0, 2, 3, 1]),
        Err(IndexError::MalformedInput)
    ));
    let mut bad = demo_file();
    bad.locations = vec![loc(&[4, 7, 1], &[0, 0, 1])];
    assert!(matches!(
        assemble(&vec![bad], "/proj", vec![]),
        Err(IndexError::MalformedInput)
    ));
}

#[test]
fn missing_message_name_is_fatal() {
    let mut f = demo_file();
    f.messages[0].name = None;
    assert!(matches!(
        decode(&f, &vec![4, 0, 1]),
        Err(IndexError::MalformedInput)
    ));
    assert!(matches!(
        assemble(&vec![f], "/proj", vec![]),
        Err(IndexError::MalformedInput)
    ));
}

#[test]
fn missing_package_is_fatal() {
    let mut f = demo_file();
    f.package = None;
    assert!(matches!(
        assemble(&vec![f], "/proj", vec![]),
        Err(IndexError::MalformedInput)
    ));
}

#[test]
fn unresolved_reference_is_fatal() {
    let mut f = demo_file();
    f.messages[0].fields[0].declared_type = Some(".nowhere.Gone".to_string());
    assert!(matches!(
        assemble(&vec![f], "/proj", vec![]),
        Err(IndexError::UnresolvedReference)
    ));
}

#[test]
fn end_to_end_user_role() {
    let out = assemble(
        &vec![demo_file()],
        "/proj",
        vec!["scip-protobuf".to_string()],
    )
    .unwrap();
    assert_eq!(out.documents.len(), 1);
    let doc = &out.documents[0];
    assert_eq!(doc.relative_path, "user.proto");
    assert_eq!(doc.language, "ProtocolBuffers");
    let symbols: Vec<&str> = doc.symbols.iter().map(|s| s.symbol.as_str()).collect();
    assert_eq!(
        symbols,
        vec![
            ". . demo . User#",
            ". . demo . User#id.",
            ". . demo . Role#",
            ". . demo . Role#ADMIN.",
        ]
    );
    assert_eq!(doc.occurrences.len(), 5);
    let definitions = doc.occurrences.iter().filter(|o| o.is_definition).count();
    assert_eq!(definitions, 4);
    let reference = doc.occurrences.iter().find(|o| !o.is_definition).unwrap();
    assert_eq!(reference.symbol, ". . demo . Role#");
    assert_eq!(reference.range, vec![1, 2, 6]);
}

#[test]
fn index_metadata_fields() {
    let out = assemble(
        &vec![demo_file()],
        "/home/me/proj",
        vec!["tool".to_string(), "--in".to_string()],
    )
    .unwrap();
    assert_eq!(out.metadata.project_root, "file:///home/me/proj");
    assert_eq!(out.metadata.tool_name, "scip-protobuf");
    assert_eq!(out.metadata.tool_version, "0.0.1");
    assert_eq!(out.metadata.arguments, vec!["tool", "--in"]);
}

fn pkg_a_file() -> FileDeclaration {
    file(
        "a.proto",
        "pkg.a",
        vec![message("Foo", vec![], vec![], vec![])],
        vec![],
        vec![],
    )
}

fn pkg_b_file() -> FileDeclaration {
    file(
        "b.proto",
        "pkg.b",
        vec![message(
            "Bar",
            vec![field("foo", Some(".pkg.a.Foo"))],
            vec![],
            vec![],
        )],
        vec![],
        vec![loc(&[4, 0, 2, 0, 6], &[2, 4, 8])],
    )
}

#[test]
fn cross_file_resolution_either_order() {
    for files in [
        vec![pkg_a_file(), pkg_b_file()],
        vec![pkg_b_file(), pkg_a_file()],
    ] {
        let out = assemble(&files, "/proj", vec![]).unwrap();
        let doc = out
            .documents
            .iter()
            .find(|d| d.relative_path == "b.proto")
            .unwrap();
        assert_eq!(doc.occurrences.len(), 1);
        let occurrence = &doc.occurrences[0];
        assert!(!occurrence.is_definition);
        assert_eq!(occurrence.symbol, ". . pkg.a . Foo#");
        assert_eq!(doc.symbols.len(), 0);
    }
}

#[test]
fn empty_path_yields_empty_local_symbol() {
    let mut f = demo_file();
    f.locations = vec![loc(&[], &[0, 0, 1])];
    let out = assemble(&vec![f], "/proj", vec![]).unwrap();
    let doc = &out.documents[0];
    assert_eq!(doc.symbols.len(), 1);
    assert_eq!(doc.symbols[0].symbol, ". . demo .");
    assert_eq!(doc.occurrences.len(), 1);
    assert!(doc.occurrences[0].is_definition);
}

#[test]
fn same_package_across_files_merges() {
    let f1 = file(
        "a.proto",
        "demo",
        vec![message("A", vec![], vec![], vec![])],
        vec![],
        vec![],
    );
    let f2 = file(
        "b.proto",
        "demo",
        vec![message(
            "B",
            vec![field("a", Some(".demo.A"))],
            vec![],
            vec![],
        )],
        vec![],
        vec![loc(&[4, 0, 2, 0, 6], &[0, 1, 2])],
    );
    let out = assemble(&vec![f1, f2], "/proj", vec![]).unwrap();
    let doc = out
        .documents
        .iter()
        .find(|d| d.relative_path == "b.proto")
        .unwrap();
    assert_eq!(doc.occurrences[0].symbol, ". . demo . A#");
}

#[test]
fn nested_message_reference_resolves() {
    let inner = message("Inner", vec![], vec![], vec![]);
    let user = message("User", vec![], vec![inner], vec![]);
    let holder = message(
        "Holder",
        vec![field("x", Some(".demo.User.Inner"))],
        vec![],
        vec![],
    );
    let f = file(
        "n.proto",
        "demo",
        vec![user, holder],
        vec![],
        vec![loc(&[4, 1, 2, 0, 6], &[3, 0, 9])],
    );
    let out = assemble(&vec![f], "/proj", vec![]).unwrap();
    let doc = &out.documents[0];
    assert_eq!(doc.occurrences.len(), 1);
    assert_eq!(doc.occurrences[0].symbol, ". . demo . User#Inner#");
    assert!(!doc.occurrences[0].is_definition);
}

#[test]
fn plugin_parameter_two_tokens() {
    let (root, out) = parse_plugin_parameter("/root/proj out.scip").unwrap();
    assert_eq!(root, "/root/proj");
    assert_eq!(out, "out.scip");
}

#[test]
fn plugin_parameter_extra_whitespace() {
    let (root, out) = parse_plugin_parameter("  /a/b \t  c.scip \n").unwrap();
    assert_eq!(root, "/a/b");
    assert_eq!(out, "c.scip");
}

#[test]
fn plugin_parameter_wrong_token_count() {
    assert!(matches!(
        parse_plugin_parameter("only-one"),
        Err(IndexError::InvalidParameters)
    ));
    assert!(matches!(
        parse_plugin_parameter("a b c"),
        Err(IndexError::InvalidParameters)
    ));
    assert!(matches!(
        parse_plugin_parameter("   "),
        Err(IndexError::InvalidParameters)
    ));
    assert!(matches!(
        parse_plugin_parameter(""),
        Err(IndexError::InvalidParameters)
    ));
}
