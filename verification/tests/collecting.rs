use table_features::commit_info::{collect_commit_info_entries, FfiCommitInfoEntry};
use table_features::error::Error;
use table_features::features::{admit_table_feature, collect_table_features, TableFeature};
use table_features::text::{copy_borrowed_string, KernelStringSlice};

fn slice(text: &str) -> KernelStringSlice<'_> {
    KernelStringSlice { ptr: Some(text.as_bytes()), len: text.len() }
}

fn bytes(bytes: &[u8]) -> KernelStringSlice<'_> {
    KernelStringSlice { ptr: Some(bytes), len: bytes.len() }
}

fn names_of(features: Vec<TableFeature>) -> Vec<String> {
    features.into_iter().map(|feature| feature.name).collect()
}

fn generic(message: &str) -> Error {
    Error::Generic(message.to_string())
}

#[test]
fn null_string_of_length_zero_is_empty() {
    let null = KernelStringSlice { ptr: None, len: 0 };
    assert_eq!(copy_borrowed_string(&null, "feature name"), Ok(String::new()));
    assert_eq!(copy_borrowed_string(&bytes(&[]), "feature name"), Ok(String::new()));
}

#[test]
fn null_string_of_nonzero_length_is_refused() {
    let null = KernelStringSlice { ptr: None, len: 3 };
    assert_eq!(
        copy_borrowed_string(&null, "some field"),
        Err(generic("some field must not be null when its length is nonzero"))
    );
}

#[test]
fn text_is_copied_as_it_is() {
    for text in ["plain", "na\u{ef}ve \u{65e5}\u{672c} \u{1f600}", "\0", " "] {
        assert_eq!(copy_borrowed_string(&slice(text), "text"), Ok(text.to_string()));
    }
}

#[test]
fn only_the_declared_length_is_read() {
    let cut = KernelStringSlice { ptr: Some(b"appendOnly\xff"), len: 10 };
    assert_eq!(copy_borrowed_string(&cut, "text"), Ok("appendOnly".to_string()));
}

#[test]
fn invalid_utf8_is_located() {
    let cases: [(&[u8], usize, Option<usize>); 4] = [
        (b"ab\xffcd", 2, Some(1)),
        (b"ab\xe2\x82", 2, None),
        (b"\xe2\x82x", 0, Some(2)),
        (b"\xc0\x80", 0, Some(1)),
    ];
    for (input, valid_up_to, error_len) in cases {
        match copy_borrowed_string(&bytes(input), "text") {
            Err(Error::Utf8(failure)) => {
                assert_eq!(failure.valid_up_to, valid_up_to);
                assert_eq!(failure.error_len, error_len);
                assert_eq!(Err(failure.source), std::str::from_utf8(input));
            }
            other => panic!("expected a UTF-8 error, got {:?}", other),
        }
    }
}

#[test]
fn counted_names_become_features() {
    let names = [slice("appendOnly"), slice("deletionVectors"), bytes(b"\xff")];
    assert_eq!(
        names_of(collect_table_features(Some(&names), 2).unwrap()),
        ["appendOnly", "deletionVectors"]
    );
}

#[test]
fn a_feature_is_called_as_the_kernel_writes_it() {
    let names = [slice("timestampWithoutTimezone"), slice("timestampNtz"), slice("clustering")];
    assert_eq!(
        names_of(collect_table_features(Some(&names), 3).unwrap()),
        ["timestampNtz", "timestampNtz", "clustering"]
    );
}

#[test]
fn features_found_by_their_own_names_stay_the_same() {
    let names = [slice("timestampWithoutTimezone"), slice("v2Checkpoint")];
    let features = names_of(collect_table_features(Some(&names), 2).unwrap());
    let again: Vec<KernelStringSlice<'_>> = features.iter().map(|name| slice(name)).collect();
    assert_eq!(names_of(collect_table_features(Some(&again), 2).unwrap()), features);
}

#[test]
fn feature_names_match_exactly() {
    for name in ["AppendOnly", "appendonly", " appendOnly", "", "append_only"] {
        let names = [slice(name)];
        assert_eq!(
            collect_table_features(Some(&names), 1),
            Err(Error::Unsupported(format!(
                "Table feature '{name}' has an unknown feature type and is unsupported for addition"
            )))
        );
    }
}

#[test]
fn lists_of_count_zero_are_empty() {
    let names = [bytes(b"\xff")];
    let entries = [FfiCommitInfoEntry { key: bytes(b"\xff"), value: slice("") }];
    assert_eq!(collect_table_features(None, 0), Ok(vec![]));
    assert_eq!(collect_table_features(Some(&names), 0), Ok(vec![]));
    assert_eq!(collect_commit_info_entries(None, 0), Ok(vec![]));
    assert_eq!(collect_commit_info_entries(Some(&entries), 0), Ok(vec![]));
}

#[test]
fn null_lists_of_nonzero_count_are_refused() {
    assert_eq!(
        collect_table_features(None, 2),
        Err(generic("feature_names must not be null when feature_count is nonzero"))
    );
    assert_eq!(
        collect_commit_info_entries(None, 2),
        Err(generic("custom_metadata must not be null when custom_metadata_count is nonzero"))
    );
}

#[test]
fn the_first_bad_name_decides() {
    let unknown_first = [slice("nope"), slice("nope"), bytes(b"\xff")];
    assert!(matches!(
        collect_table_features(Some(&unknown_first), 3),
        Err(Error::Unsupported(_))
    ));
    let duplicate_first = [slice("appendOnly"), slice("appendOnly"), slice("nope")];
    assert_eq!(
        collect_table_features(Some(&duplicate_first), 3),
        Err(generic("duplicate requested table feature name: appendOnly"))
    );
    let invalid_first = [bytes(b"\xff"), slice("nope")];
    assert!(matches!(collect_table_features(Some(&invalid_first), 2), Err(Error::Utf8(_))));
}

#[test]
fn one_name_is_decided_by_request_and_kernel() {
    let known = Some("timestampNtz".to_string());
    assert_eq!(
        admit_table_feature("alias", true, known.clone()),
        Ok(TableFeature { name: "timestampNtz".to_string() })
    );
    assert_eq!(
        admit_table_feature("alias", false, known),
        Err(generic("duplicate requested table feature name: alias"))
    );
    assert_eq!(
        admit_table_feature("alias", true, None),
        Err(Error::Unsupported(
            "Table feature 'alias' has an unknown feature type and is unsupported for addition"
                .to_string()
        ))
    );
}

#[test]
fn entries_are_copied_in_order() {
    let null = KernelStringSlice { ptr: None, len: 0 };
    let entries = [
        FfiCommitInfoEntry { key: slice("b"), value: slice("same") },
        FfiCommitInfoEntry { key: slice("a"), value: slice("same") },
        FfiCommitInfoEntry { key: null, value: null },
        FfiCommitInfoEntry { key: slice("A"), value: slice("") },
    ];
    let expected: Vec<(String, String)> = [("b", "same"), ("a", "same"), ("", ""), ("A", "")]
        .iter()
        .map(|(key, value)| (key.to_string(), value.to_string()))
        .collect();
    assert_eq!(collect_commit_info_entries(Some(&entries), 4), Ok(expected));
}

#[test]
fn a_repeated_key_is_refused_before_its_value_is_read() {
    let entries = [
        FfiCommitInfoEntry { key: slice("key"), value: slice("1") },
        FfiCommitInfoEntry { key: slice("key"), value: bytes(b"\xff") },
    ];
    assert_eq!(
        collect_commit_info_entries(Some(&entries), 2),
        Err(generic("duplicate custom metadata key: key"))
    );
}

#[test]
fn a_bad_value_is_refused() {
    let null = KernelStringSlice { ptr: None, len: 1 };
    let entries = [FfiCommitInfoEntry { key: slice("key"), value: null }];
    assert_eq!(
        collect_commit_info_entries(Some(&entries), 1),
        Err(generic("custom metadata value must not be null when its length is nonzero"))
    );
    let entries = [FfiCommitInfoEntry { key: slice("key"), value: bytes(b"\xff") }];
    assert!(matches!(collect_commit_info_entries(Some(&entries), 1), Err(Error::Utf8(_))));
}

#[test]
fn only_counted_entries_are_copied() {
    let entries = [
        FfiCommitInfoEntry { key: slice("key"), value: slice("1") },
        FfiCommitInfoEntry { key: slice("key"), value: slice("2") },
    ];
    assert_eq!(
        collect_commit_info_entries(Some(&entries), 1),
        Ok(vec![("key".to_string(), "1".to_string())])
    );
}

#[test]
fn the_first_bad_entry_decides() {
    let entries = [
        FfiCommitInfoEntry { key: slice("key"), value: slice("1") },
        FfiCommitInfoEntry { key: slice("other"), value: bytes(b"\xff") },
        FfiCommitInfoEntry { key: slice("key"), value: slice("2") },
    ];
    assert!(matches!(collect_commit_info_entries(Some(&entries), 3), Err(Error::Utf8(_))));
}
