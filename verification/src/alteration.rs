//! The course of a request: what has to be done next, given what came of the step before.
use delta_kernel::schema::StructType;
use vstd::prelude::*;

use crate::commit_info::{
    borrowed_entries_view, collect_commit_info_entries, entries_readable, entries_view, entry_views,
    requested_entries, FfiCommitInfoEntry,
};
use crate::error::{Error, ErrorView};
use crate::features::{
    collect_table_features, feature_views, features_view, requested_features, TableFeature,
};
use crate::kernel::{
    field_keys, field_names, field_views, first_repeat, kernel_feature, key_repeats,
    repeated_field_message, schema_fields, schema_from_fields, unicode_lowercase, FieldType,
    RowField,
};
use crate::text::{slices_readable, slices_view, KernelStringSlice};

verus! {

/// What has to be done with the table.
#[derive(Debug, PartialEq)]
pub enum Action {
    /// Build the ALTER transaction that adds `features`, in this order.
    Build { features: Vec<TableFeature>, allow_protocol_versions_increase: bool },
    /// Create the row of custom commit info that has these fields and values, and attach it to the
    /// transaction.
    CreateCommitInfo { schema: StructType, values: Vec<String> },
    /// Commit the transaction.
    Commit,
}

/// Which action was asked for last, with what is needed to go on from it.
#[derive(Debug, PartialEq)]
pub enum Stage {
    Building { custom_metadata: Result<Vec<(String, String)>, Error> },
    CreatingCommitInfo,
    Committing,
}

/// Why a request ends without a commit.
#[derive(Debug, PartialEq)]
pub enum Failure<E> {
    /// The request itself is refused.
    Rejected(Error),
    /// An action failed with this error.
    Kernel(E),
}

/// How a request goes on.
#[derive(Debug, PartialEq)]
pub enum Step<E> {
    /// Perform `action`, then call [`resume`] with `stage` and what came of it.
    Perform { stage: Stage, action: Action },
    /// The request is over.
    Return(Result<(), Failure<E>>),
}

/// The mathematical content of an [`Action`].
pub enum ActionView {
    Build { features: Seq<Seq<char>>, allow_protocol_versions_increase: bool },
    CreateCommitInfo { fields: Seq<(Seq<char>, Seq<char>, bool, Set<Seq<char>>)>, values: Seq<Seq<char>> },
    Commit,
}

/// The mathematical content of a [`Stage`].
pub enum StageView {
    Building { custom_metadata: Result<Seq<(Seq<char>, Seq<char>)>, ErrorView> },
    CreatingCommitInfo,
    Committing,
}

/// The mathematical content of a [`Failure`].
pub enum FailureView<E> {
    Rejected(ErrorView),
    Kernel(E),
}

/// The mathematical content of a [`Step`].
pub enum StepView<E> {
    Perform { stage: StageView, action: ActionView },
    Return(Result<(), FailureView<E>>),
}

impl View for Action {
    type V = ActionView;

    open spec fn view(&self) -> ActionView {
        match *self {
            Action::Build { features, allow_protocol_versions_increase } => ActionView::Build {
                features: feature_views(features@),
                allow_protocol_versions_increase,
            },
            Action::CreateCommitInfo { schema, values } => ActionView::CreateCommitInfo {
                fields: schema_fields(schema),
                values: values.deep_view(),
            },
            Action::Commit => ActionView::Commit,
        }
    }
}

impl View for Stage {
    type V = StageView;

    open spec fn view(&self) -> StageView {
        match *self {
            Stage::Building { custom_metadata } => StageView::Building {
                custom_metadata: entries_view(custom_metadata),
            },
            Stage::CreatingCommitInfo => StageView::CreatingCommitInfo,
            Stage::Committing => StageView::Committing,
        }
    }
}

impl<E> View for Failure<E> {
    type V = FailureView<E>;

    open spec fn view(&self) -> FailureView<E> {
        match *self {
            Failure::Rejected(error) => FailureView::Rejected(error@),
            Failure::Kernel(error) => FailureView::Kernel(error),
        }
    }
}

impl<E> View for Step<E> {
    type V = StepView<E>;

    open spec fn view(&self) -> StepView<E> {
        match *self {
            Step::Perform { stage, action } => StepView::Perform { stage: stage@, action: action@ },
            Step::Return(Ok(_)) => StepView::Return(Ok(())),
            Step::Return(Err(failure)) => StepView::Return(Err(failure@)),
        }
    }
}

/// The refusal of a request that asks for nothing.
pub open spec fn no_features_error() -> ErrorView {
    ErrorView::InvalidProtocol("At least one table feature must be requested"@)
}

/// How a request starts: with the features, if there are any.
pub open spec fn started<E>(
    features: Result<Seq<Seq<char>>, ErrorView>,
    allow_protocol_versions_increase: bool,
    custom_metadata: Result<Seq<(Seq<char>, Seq<char>)>, ErrorView>,
) -> StepView<E> {
    match features {
        Err(error) => StepView::Return(Err(FailureView::Rejected(error))),
        Ok(features) => if features.len() == 0 {
            StepView::Return(Err(FailureView::Rejected(no_features_error())))
        } else {
            StepView::Perform {
                stage: StageView::Building { custom_metadata },
                action: ActionView::Build { features, allow_protocol_versions_increase },
            }
        },
    }
}

/// The keys of entries.
pub open spec fn entry_keys(entries: Seq<(Seq<char>, Seq<char>)>) -> Seq<Seq<char>> {
    entries.map_values(|entry: (Seq<char>, Seq<char>)| entry.0)
}

/// The values of entries.
pub open spec fn entry_values(entries: Seq<(Seq<char>, Seq<char>)>) -> Seq<Seq<char>> {
    entries.map_values(|entry: (Seq<char>, Seq<char>)| entry.1)
}

/// The fields of a row of strings, none of which may be null or has metadata.
pub open spec fn required_string_fields(names: Seq<Seq<char>>) -> Seq<
    (Seq<char>, Seq<char>, bool, Set<Seq<char>>),
> {
    names.map_values(|name: Seq<char>| (name, "string"@, false, Set::empty()))
}

/// The lower case forms of names.
pub open spec fn lowered(names: Seq<Seq<char>>) -> Seq<Seq<char>> {
    names.map_values(|name: Seq<char>| unicode_lowercase(name))
}

/// The first of `names` that a schema takes for an earlier one, where `lowered` holds their lower
/// case forms.
pub open spec fn rejected_name(names: Seq<Seq<char>>, lowered: Seq<Seq<char>>) -> Option<
    Seq<char>,
> {
    let keys = field_keys(names, lowered);
    if exists|i: int| first_repeat(keys, i) {
        Some(names[choose|i: int| first_repeat(keys, i)])
    } else {
        None
    }
}

/// How a request goes on with custom entries, once the transaction is built.
pub open spec fn described<E>(
    entries: Seq<(Seq<char>, Seq<char>)>,
    lowered: Seq<Seq<char>>,
) -> StepView<E> {
    if entries.len() == 0 {
        StepView::Perform { stage: StageView::Committing, action: ActionView::Commit }
    } else {
        match rejected_name(entry_keys(entries), lowered) {
            Some(name) => StepView::Return(
                Err(FailureView::Rejected(ErrorView::Schema(repeated_field_message(name)))),
            ),
            None => StepView::Perform {
                stage: StageView::CreatingCommitInfo,
                action: ActionView::CreateCommitInfo {
                    fields: required_string_fields(entry_keys(entries)),
                    values: entry_values(entries),
                },
            },
        }
    }
}

/// How a request goes on after an action.
pub open spec fn resumed<E>(stage: StageView, reply: Result<(), E>) -> StepView<E> {
    match reply {
        Err(error) => StepView::Return(Err(FailureView::Kernel(error))),
        Ok(_) => match stage {
            StageView::Building { custom_metadata: Err(error) } => StepView::Return(
                Err(FailureView::Rejected(error)),
            ),
            StageView::Building { custom_metadata: Ok(entries) } => described(
                entries,
                lowered(entry_keys(entries)),
            ),
            StageView::CreatingCommitInfo => StepView::Perform {
                stage: StageView::Committing,
                action: ActionView::Commit,
            },
            StageView::Committing => StepView::Return(Ok(())),
        },
    }
}

/// Starts a request from its checked parts. Custom metadata that was refused is not reported
/// before the transaction is built.
pub fn add_table_features_impl<E>(
    features: Result<Vec<TableFeature>, Error>,
    allow_protocol_versions_increase: bool,
    custom_metadata: Result<Vec<(String, String)>, Error>,
) -> (step: Step<E>)
    ensures
        step@ == started::<E>(
            features_view(features),
            allow_protocol_versions_increase,
            entries_view(custom_metadata),
        ),
        features matches Err(error) ==> step == Step::<E>::Return(Err(Failure::Rejected(error))),
        features matches Ok(features) ==> (features@.len() > 0 ==> step == (Step::<E>::Perform {
            stage: Stage::Building { custom_metadata },
            action: Action::Build { features, allow_protocol_versions_increase },
        })),
{
    match features {
        Err(error) => Step::Return(Err(Failure::Rejected(error))),
        Ok(features) => {
            if features.len() == 0 {
                return Step::Return(
                    Err(
                        Failure::Rejected(
                            Error::InvalidProtocol(
                                "At least one table feature must be requested".to_owned(),
                            ),
                        ),
                    ),
                );
            }
            Step::Perform {
                stage: Stage::Building { custom_metadata },
                action: Action::Build { features, allow_protocol_versions_increase },
            }
        },
    }
}

/// Starts a request to add table features, from the borrowed feature names and the borrowed
/// custom commit info, all of which are copied.
///
/// A null list is accepted only where its count is zero. Each name must be known to the kernel and
/// be asked for once, and no two entries may have the same key.
pub fn add_table_features<E>(
    feature_names: Option<&[KernelStringSlice<'_>]>,
    feature_count: usize,
    allow_protocol_versions_increase: bool,
    custom_metadata: Option<&[FfiCommitInfoEntry<'_>]>,
    custom_metadata_count: usize,
) -> (step: Step<E>)
    requires
        slices_readable(feature_names, feature_count as nat),
        entries_readable(custom_metadata, custom_metadata_count as nat),
    ensures
        step@ == started::<E>(
            requested_features(slices_view(feature_names), feature_count as nat),
            allow_protocol_versions_increase,
            requested_entries(
                borrowed_entries_view(custom_metadata),
                custom_metadata_count as nat,
            ),
        ),
        step matches Step::Perform { action: Action::Build { features, .. }, .. } ==> forall|
            i: int,
        |
            0 <= i < features@.len() ==> kernel_feature(#[trigger] features@[i]@) == Some(
                features@[i]@,
            ),
{
    let features = collect_table_features(feature_names, feature_count);
    let custom_metadata = collect_commit_info_entries(custom_metadata, custom_metadata_count);
    let ghost known = features->Ok_0@;
    let step = add_table_features_impl(features, allow_protocol_versions_increase, custom_metadata);
    proof {
        if step@ is Perform {
            let built = step->action->features@;
            assert(feature_views(built) == feature_views(known));
            assert forall|i: int| 0 <= i < built.len() implies kernel_feature(
                #[trigger] built[i]@,
            ) == Some(built[i]@) by {
                assert(feature_views(built)[i] == built[i]@);
                assert(feature_views(known)[i] == known[i]@);
            }
        }
    }
    step
}

/// Turns entries into the fields of a row, each a string that may not be null, and the row's values.
fn split_entries(entries: &Vec<(String, String)>) -> (res: (Vec<RowField>, Vec<String>))
    ensures
        field_views(res.0@) == required_string_fields(entry_keys(entry_views(entries@))),
        field_names(res.0@) == entry_keys(entry_views(entries@)),
        res.1.deep_view() == entry_values(entry_views(entries@)),
        res.0@.len() == entries@.len(),
        res.1@.len() == entries@.len(),
        forall|i: int|
            0 <= i < entries@.len() ==> (#[trigger] res.0@[i]).name@ == entries@[i].0@
                && res.0@[i].field_type == FieldType::String && !res.0@[i].nullable,
        forall|i: int| 0 <= i < entries@.len() ==> (#[trigger] res.1@[i])@ == entries@[i].1@,
{
    let mut fields: Vec<RowField> = Vec::new();
    let mut values: Vec<String> = Vec::new();
    let mut i: usize = 0;
    while i < entries.len()
        invariant
            i <= entries@.len(),
            fields@.len() == i,
            values@.len() == i,
            forall|j: int|
                0 <= j < i ==> #[trigger] fields@[j]@ == (
                    entries@[j].0@,
                    "string"@,
                    false,
                    Set::<Seq<char>>::empty(),
                ),
            forall|j: int|
                0 <= j < i ==> (#[trigger] fields@[j]).name@ == entries@[j].0@
                    && fields@[j].field_type == FieldType::String && !fields@[j].nullable,
            forall|j: int| 0 <= j < i ==> #[trigger] values@[j]@ == entries@[j].1@,
        decreases entries@.len() - i,
    {
        let entry = &entries[i];
        fields.push(
            RowField { name: entry.0.clone(), field_type: FieldType::String, nullable: false },
        );
        values.push(entry.1.clone());
        i += 1;
    }
    proof {
        let keys = entry_keys(entry_views(entries@));
        assert(field_views(fields@) =~= required_string_fields(keys));
        assert forall|j: int| 0 <= j < keys.len() implies field_names(fields@)[j] == keys[j] by {
            assert(fields@[j]@.0 == keys[j]);
        }
        assert(field_names(fields@) =~= keys);
        assert(values.deep_view() =~= entry_values(entry_views(entries@)));
    }
    (fields, values)
}

/// Goes on with the kernel's answer about the schema of the custom commit info: the schema, or the
/// message with which it is refused.
pub fn create_commit_info<E>(schema: Result<StructType, String>, values: Vec<String>) -> (step:
    Step<E>)
    ensures
        step@ == match schema {
            Ok(schema) => StepView::<E>::Perform {
                stage: StageView::CreatingCommitInfo,
                action: ActionView::CreateCommitInfo {
                    fields: schema_fields(schema),
                    values: values.deep_view(),
                },
            },
            Err(message) => StepView::Return(
                Err(FailureView::Rejected(ErrorView::Schema(message@))),
            ),
        },
        step == match schema {
            Ok(schema) => Step::<E>::Perform {
                stage: Stage::CreatingCommitInfo,
                action: Action::CreateCommitInfo { schema, values },
            },
            Err(message) => Step::Return(Err(Failure::Rejected(Error::Schema(message)))),
        },
{
    match schema {
        Ok(schema) => Step::Perform {
            stage: Stage::CreatingCommitInfo,
            action: Action::CreateCommitInfo { schema, values },
        },
        Err(message) => Step::Return(Err(Failure::Rejected(Error::Schema(message)))),
    }
}

/// A key repeats first at one position only.
pub proof fn lemma_first_repeat_unique(keys: Seq<Seq<char>>, i: int)
    requires
        first_repeat(keys, i),
    ensures
        (choose|k: int| first_repeat(keys, k)) == i,
{
    let k = choose|k: int| first_repeat(keys, k);
    assert(first_repeat(keys, k));
    assert(key_repeats(keys, k) && key_repeats(keys, i));
}

/// Goes on with custom entries, once the transaction is built.
fn describe_commit_info<E>(entries: &Vec<(String, String)>) -> (step: Step<E>)
    ensures
        step@ == described::<E>(
            entry_views(entries@),
            lowered(entry_keys(entry_views(entries@))),
        ),
{
    if entries.len() == 0 {
        return Step::Perform { stage: Stage::Committing, action: Action::Commit };
    }
    let (fields, values) = split_entries(entries);
    let schema = schema_from_fields(fields);
    proof {
        let names = entry_keys(entry_views(entries@));
        let field_keys = field_keys(names, lowered(names));
        assert(lowered(names) =~= names.map_values(|name: Seq<char>| unicode_lowercase(name)));
        if schema is Ok {
            assert forall|i: int| !first_repeat(field_keys, i) by {
                if 0 <= i < field_keys.len() {
                    assert(!key_repeats(field_keys, i));
                }
            }
        } else {
            let i = choose|i: int| #[trigger]
                first_repeat(field_keys, i) && schema->Err_0@ == repeated_field_message(names[i]);
            lemma_first_repeat_unique(field_keys, i);
        }
    }
    create_commit_info(schema, values)
}

/// Goes on after the action that `stage` was waiting for. `reply` is what came of it.
pub fn resume<E>(stage: Stage, reply: Result<(), E>) -> (step: Step<E>)
    ensures
        step@ == resumed(stage@, reply),
        reply matches Err(error) ==> step == Step::<E>::Return(Err(Failure::Kernel(error))),
        reply is Ok ==> (stage matches Stage::Building { custom_metadata: Err(error) } ==> step
            == Step::<E>::Return(Err(Failure::Rejected(error)))),
{
    match reply {
        Err(error) => Step::Return(Err(Failure::Kernel(error))),
        Ok(_) => match stage {
            Stage::Building { custom_metadata } => match custom_metadata {
                Err(error) => Step::Return(Err(Failure::Rejected(error))),
                Ok(entries) => describe_commit_info(&entries),
            },
            Stage::CreatingCommitInfo => Step::Perform {
                stage: Stage::Committing,
                action: Action::Commit,
            },
            Stage::Committing => Step::Return(Ok(())),
        },
    }
}

} // verus!
