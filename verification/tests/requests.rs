use table_features::alteration::{
    add_table_features, add_table_features_impl, create_commit_info, resume, Action, Failure, Stage,
    Step,
};
use table_features::commit_info::FfiCommitInfoEntry;
use table_features::error::Error;
use table_features::features::TableFeature;
use table_features::text::{copy_borrowed_string, KernelStringSlice};

use delta_kernel::schema::{DataType, StructField, StructType};

fn slice(text: &str) -> KernelStringSlice<'_> {
    KernelStringSlice { ptr: Some(text.as_bytes()), len: text.len() }
}

fn feature_name_slices<'a>(feature_names: &[&'a str]) -> Vec<KernelStringSlice<'a>> {
    feature_names.iter().map(|feature_name| slice(feature_name)).collect()
}

fn entry<'a>(key: &'a str, value: &'a str) -> FfiCommitInfoEntry<'a> {
    FfiCommitInfoEntry { key: slice(key), value: slice(value) }
}

fn start(
    feature_names: Option<&[KernelStringSlice<'_>]>,
    feature_count: usize,
    custom_metadata: Option<&[FfiCommitInfoEntry<'_>]>,
    custom_metadata_count: usize,
) -> Step<String> {
    add_table_features(feature_names, feature_count, true, custom_metadata, custom_metadata_count)
}

/// Performs the request, where every action gets the next reply and succeeds after the last one.
fn run(
    first: Step<String>,
    replies: Vec<Result<(), String>>,
) -> (Vec<Action>, Result<(), Failure<String>>) {
    let mut replies = replies.into_iter();
    let mut actions = Vec::new();
    let mut step = first;
    loop {
        match step {
            Step::Perform { stage, action } => {
                actions.push(action);
                step = resume(stage, replies.next().unwrap_or(Ok(())));
            }
            Step::Return(result) => return (actions, result),
        }
    }
}

fn rejection(outcome: &(Vec<Action>, Result<(), Failure<String>>)) -> &Error {
    assert!(!outcome.0.contains(&Action::Commit), "failed request must not commit");
    match &outcome.1 {
        Err(Failure::Rejected(error)) => error,
        other => panic!("expected a rejection, got {:?}", other),
    }
}

fn assert_generic(outcome: &(Vec<Action>, Result<(), Failure<String>>), expected: &str) {
    match rejection(outcome) {
        Error::Generic(message) => assert!(message.contains(expected), "{}", message),
        other => panic!("expected a generic error, got {:?}", other),
    }
}

fn assert_utf8(outcome: &(Vec<Action>, Result<(), Failure<String>>)) {
    match rejection(outcome) {
        Error::Utf8(failure) => {
            assert!(failure.source.to_string().contains("invalid utf-8 sequence"));
            assert_eq!(failure.valid_up_to, 0);
            assert_eq!(failure.error_len, Some(1));
        }
        other => panic!("expected a UTF-8 error, got {:?}", other),
    }
}

fn build(features: &[&str], allow_protocol_versions_increase: bool) -> Action {
    Action::Build {
        features: features.iter().map(|name| TableFeature { name: name.to_string() }).collect(),
        allow_protocol_versions_increase,
    }
}

fn commit_info(entries: &[(&str, &str)]) -> Action {
    Action::CreateCommitInfo {
        schema: StructType::try_new(
            entries.iter().map(|(key, _)| StructField::not_null(*key, DataType::STRING)),
        )
        .unwrap(),
        values: entries.iter().map(|(_, value)| value.to_string()).collect(),
    }
}

#[test]
fn test_add_table_features_rejects_invalid_feature_inputs() {
    let feature_names = feature_name_slices(&["appendOnly"]);
    let unknown_name = "futureFeature-EXACT";
    let unknown_feature = feature_name_slices(&[unknown_name]);

    let unknown_result = run(start(Some(&unknown_feature), 1, None, 0), vec![]);
    match rejection(&unknown_result) {
        Error::Unsupported(message) => assert!(message.contains(unknown_name)),
        other => panic!("expected an unsupported error, got {:?}", other),
    }

    let empty_features = run(start(None, 0, None, 0), vec![]);
    match rejection(&empty_features) {
        Error::InvalidProtocol(message) => {
            assert!(message.contains("At least one table feature must be requested"))
        }
        other => panic!("expected an invalid protocol error, got {:?}", other),
    }

    let null_features = run(start(None, 1, None, 0), vec![]);
    assert_generic(&null_features, "feature_names must not be null");

    let invalid_utf8 = [0xffu8];
    let invalid_utf8_feature =
        [KernelStringSlice { ptr: Some(&invalid_utf8), len: invalid_utf8.len() }];
    let invalid_utf8_result = run(start(Some(&invalid_utf8_feature), 1, None, 0), vec![]);
    assert_utf8(&invalid_utf8_result);

    let null_string_feature = [KernelStringSlice { ptr: None, len: 1 }];
    let null_string_result = run(start(Some(&null_string_feature), 1, None, 0), vec![]);
    assert_generic(&null_string_result, "feature name must not be null");

    let duplicate_features = feature_name_slices(&["appendOnly", "appendOnly"]);
    let duplicate_result = run(start(Some(&duplicate_features), 2, None, 0), vec![]);
    assert_generic(&duplicate_result, "duplicate requested table feature name: appendOnly");

    let null_metadata = run(start(Some(&feature_names), 1, None, 1), vec![]);
    assert_generic(&null_metadata, "custom_metadata must not be null");
}

#[test]
fn test_add_table_features_rejects_invalid_metadata_without_commit() {
    let feature_names = feature_name_slices(&["appendOnly"]);
    let duplicate_metadata = [entry("duplicate", "first"), entry("duplicate", "second")];
    let duplicate_result =
        run(start(Some(&feature_names), 1, Some(&duplicate_metadata), 2), vec![]);
    assert_generic(&duplicate_result, "duplicate custom metadata key: duplicate");

    let invalid_utf8 = [0xffu8];
    let invalid_metadata = [FfiCommitInfoEntry {
        key: KernelStringSlice { ptr: Some(&invalid_utf8), len: invalid_utf8.len() },
        value: slice("value"),
    }];
    let invalid_utf8_result =
        run(start(Some(&feature_names), 1, Some(&invalid_metadata), 1), vec![]);
    assert_utf8(&invalid_utf8_result);

    let null_string_metadata = [FfiCommitInfoEntry {
        key: KernelStringSlice { ptr: None, len: 1 },
        value: slice("value"),
    }];
    let null_string_result =
        run(start(Some(&feature_names), 1, Some(&null_string_metadata), 1), vec![]);
    assert_generic(&null_string_result, "custom metadata key must not be null");
}

#[test]
fn custom_metadata_is_described_in_order_before_the_commit() {
    let feature_names = feature_name_slices(&["appendOnly"]);
    let custom_metadata = [
        entry("customKey", "customValue"),
        entry("operation", "STALE OPERATION"),
        entry("kernelVersion", "v0.0.0"),
    ];
    let (actions, result) = run(start(Some(&feature_names), 1, Some(&custom_metadata), 3), vec![]);
    assert_eq!(result, Ok(()));
    assert_eq!(
        actions,
        vec![
            build(&["appendOnly"], true),
            commit_info(&[
                ("customKey", "customValue"),
                ("operation", "STALE OPERATION"),
                ("kernelVersion", "v0.0.0"),
            ]),
            Action::Commit,
        ]
    );
    match &actions[1] {
        Action::CreateCommitInfo { schema, values } => {
            let fields: Vec<(String, String, bool)> = schema
                .fields()
                .map(|f| (f.name.clone(), f.data_type.to_string(), f.nullable))
                .collect();
            assert_eq!(fields[0], ("customKey".to_string(), "string".to_string(), false));
            assert_eq!(fields[1].0, "operation");
            assert_eq!(fields[2].0, "kernelVersion");
            assert_eq!(fields.len(), 3);
            assert!(schema.fields().all(|f| f.metadata.is_empty()));
            assert_eq!(values, &["customValue", "STALE OPERATION", "v0.0.0"]);
        }
        other => panic!("expected a commit info row, got {:?}", other),
    }
}

#[test]
fn without_metadata_nothing_stands_between_build_and_commit() {
    let feature_names = feature_name_slices(&["deletionVectors"]);
    let step = add_table_features::<String>(Some(&feature_names), 1, false, None, 0);
    let (actions, result) = run(step, vec![]);
    assert_eq!(result, Ok(()));
    assert_eq!(actions, vec![build(&["deletionVectors"], false), Action::Commit]);
}

#[test]
fn several_features_keep_their_order() {
    let feature_names = feature_name_slices(&["deletionVectors", "appendOnly", "columnMapping"]);
    let (actions, _) = run(start(Some(&feature_names), 3, None, 0), vec![]);
    assert_eq!(actions[0], build(&["deletionVectors", "appendOnly", "columnMapping"], true));
}

#[test]
fn feature_errors_come_before_metadata_errors() {
    let feature_names = feature_name_slices(&["nope"]);
    let outcome = run(start(Some(&feature_names), 1, None, 1), vec![]);
    assert!(outcome.0.is_empty());
    match rejection(&outcome) {
        Error::Unsupported(message) => assert_eq!(
            message,
            "Table feature 'nope' has an unknown feature type and is unsupported for addition"
        ),
        other => panic!("expected an unsupported error, got {:?}", other),
    }
}

#[test]
fn a_failed_build_comes_before_metadata_errors() {
    let feature_names = feature_name_slices(&["deletionVectors"]);
    let refusal = "set allow_protocol_versions_increase to true".to_string();
    let (actions, result) =
        run(start(Some(&feature_names), 1, None, 1), vec![Err(refusal.clone())]);
    assert_eq!(actions, vec![build(&["deletionVectors"], true)]);
    assert_eq!(result, Err(Failure::Kernel(refusal)));
}

#[test]
fn metadata_errors_come_after_the_build() {
    let feature_names = feature_name_slices(&["deletionVectors"]);
    let (actions, result) = run(start(Some(&feature_names), 1, None, 1), vec![Ok(())]);
    assert_eq!(actions, vec![build(&["deletionVectors"], true)]);
    assert_eq!(
        result,
        Err(Failure::Rejected(Error::Generic(
            "custom_metadata must not be null when custom_metadata_count is nonzero".to_string()
        )))
    );
}

#[test]
fn a_failed_commit_info_row_ends_the_request() {
    let feature_names = feature_name_slices(&["appendOnly"]);
    let metadata = [entry("k", "v")];
    let (actions, result) = run(
        start(Some(&feature_names), 1, Some(&metadata), 1),
        vec![Ok(()), Err("row".to_string())],
    );
    assert_eq!(actions, vec![build(&["appendOnly"], true), commit_info(&[("k", "v")])]);
    assert_eq!(result, Err(Failure::Kernel("row".to_string())));
}

#[test]
fn a_failed_commit_ends_the_request() {
    let feature_names = feature_name_slices(&["appendOnly"]);
    let (actions, result) =
        run(start(Some(&feature_names), 1, None, 0), vec![Ok(()), Err("conflict".to_string())]);
    assert_eq!(actions, vec![build(&["appendOnly"], true), Action::Commit]);
    assert_eq!(result, Err(Failure::Kernel("conflict".to_string())));
}

#[test]
fn keys_that_differ_only_in_case_make_no_schema() {
    let feature_names = feature_name_slices(&["appendOnly"]);
    let metadata = [entry("note", "1"), entry("Key", "2"), entry("kEY", "3"), entry("NOTE", "4")];
    let outcome = run(start(Some(&feature_names), 1, Some(&metadata), 4), vec![]);
    assert_eq!(outcome.0, vec![build(&["appendOnly"], true)]);
    assert_eq!(
        rejection(&outcome),
        &Error::Schema("Duplicate field name (case-insensitive): 'kEY'".to_string())
    );

    let metadata = [entry("\u{c0}b", "1"), entry("\u{e0}B", "2")];
    let outcome = run(start(Some(&feature_names), 1, Some(&metadata), 2), vec![]);
    assert_eq!(
        rejection(&outcome),
        &Error::Schema("Duplicate field name (case-insensitive): '\u{e0}B'".to_string())
    );
}

#[test]
fn keys_that_differ_in_more_than_case_make_a_schema() {
    let feature_names = feature_name_slices(&["appendOnly"]);
    let metadata = [entry("Key[", "1"), entry("key{", "2"), entry("", "3")];
    let (actions, result) = run(start(Some(&feature_names), 1, Some(&metadata), 3), vec![]);
    assert_eq!(result, Ok(()));
    assert_eq!(actions[1], commit_info(&[("Key[", "1"), ("key{", "2"), ("", "3")]));
}

#[test]
fn checked_parts_start_a_request() {
    let features = vec![TableFeature { name: "appendOnly".to_string() }];
    let step = add_table_features_impl::<String>(Ok(features), false, Ok(vec![]));
    assert_eq!(
        step,
        Step::Perform {
            stage: Stage::Building { custom_metadata: Ok(vec![]) },
            action: build(&["appendOnly"], false),
        }
    );
    let step = add_table_features_impl::<String>(
        Err(Error::Generic("first".to_string())),
        true,
        Err(Error::Generic("second".to_string())),
    );
    assert_eq!(
        step,
        Step::Return(Err(Failure::Rejected(Error::Generic("first".to_string()))))
    );
}

#[test]
fn the_answer_about_the_schema_decides_on_the_row() {
    let schema = StructType::try_new([StructField::not_null("k", DataType::STRING)]).unwrap();
    let step = create_commit_info::<String>(Ok(schema), vec!["v".to_string()]);
    assert_eq!(
        step,
        Step::Perform {
            stage: Stage::CreatingCommitInfo,
            action: commit_info(&[("k", "v")]),
        }
    );
    let step = create_commit_info::<String>(Err("no".to_string()), vec!["v".to_string()]);
    assert_eq!(step, Step::Return(Err(Failure::Rejected(Error::Schema("no".to_string())))));
}

#[test]
fn the_reported_error_is_the_one_of_the_part_that_is_refused() {
    let bad_name: &[u8] = b"\xff";
    let bad_key: &[u8] = b"\xe2\x82";
    let names = [KernelStringSlice { ptr: Some(bad_name), len: 1 }];
    let entries =
        [FfiCommitInfoEntry { key: KernelStringSlice { ptr: Some(bad_key), len: 2 }, value: slice("v") }];
    let outcome = run(start(Some(&names), 1, Some(&entries), 1), vec![]);
    match rejection(&outcome) {
        Error::Utf8(failure) => assert_eq!(Err(failure.source), std::str::from_utf8(bad_name)),
        other => panic!("expected a UTF-8 error, got {:?}", other),
    }
    let names = feature_name_slices(&["appendOnly"]);
    let outcome = run(start(Some(&names), 1, Some(&entries), 1), vec![]);
    match rejection(&outcome) {
        Error::Utf8(failure) => assert_eq!(Err(failure.source), std::str::from_utf8(bad_key)),
        other => panic!("expected a UTF-8 error, got {:?}", other),
    }
}

#[test]
fn the_same_bytes_fail_alike_under_any_field_name() {
    let bytes: &[u8] = b"a\xf0\x9f";
    let borrowed = KernelStringSlice { ptr: Some(bytes), len: bytes.len() };
    assert_eq!(copy_borrowed_string(&borrowed, "one"), copy_borrowed_string(&borrowed, "two"));
}
