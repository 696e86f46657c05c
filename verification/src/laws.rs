//! What holds of requests as a whole.
use vstd::prelude::*;
use vstd::utf8::*;

use crate::alteration::{
    described, entry_keys, entry_values, lowered, no_features_error, rejected_name,
    required_string_fields, resumed, started, ActionView, FailureView, StepView,
};
use crate::collect::{lemma_collected_first_error, lemma_collected_values};
use crate::commit_info::{
    borrowed_keys, duplicate_key_error, entry_outcome, entry_outcomes, null_entries_error,
    requested_entries, CommitInfoEntryView,
};
use crate::error::ErrorView;
use crate::features::{
    duplicate_feature_error, feature_outcome, feature_outcomes, null_features_error,
    requested_features, unknown_feature_error,
};
use crate::kernel::{
    field_keys, first_repeat, kernel_feature, key_repeats, repeated_field_message,
};
use crate::text::{copied_before, copied_string, StringSliceView};

verus! {

/// The actions that are performed from `step` on, where `replies` are what comes of them.
pub open spec fn performed<E>(step: StepView<E>, replies: Seq<Result<(), E>>) -> Seq<ActionView>
    decreases replies.len(),
{
    match step {
        StepView::Return(_) => Seq::empty(),
        StepView::Perform { stage, action } => if replies.len() == 0 {
            seq![action]
        } else {
            seq![action] + performed(resumed(stage, replies[0]), replies.drop_first())
        },
    }
}

/// How the request ends from `step` on, or `None` where there are too few replies to end it.
pub open spec fn outcome<E>(step: StepView<E>, replies: Seq<Result<(), E>>) -> Option<
    Result<(), FailureView<E>>,
>
    decreases replies.len(),
{
    match step {
        StepView::Return(result) => Some(result),
        StepView::Perform { stage, .. } => if replies.len() == 0 {
            None
        } else {
            outcome(resumed(stage, replies[0]), replies.drop_first())
        },
    }
}

/// Copying keeps every byte: the text of a string that is accepted encodes to the bytes that were
/// borrowed.
pub proof fn law_copy_keeps_bytes(bytes: Seq<u8>, field_name: Seq<char>)
    ensures
        copied_string(StringSliceView::Bytes(bytes), field_name) matches Ok(text) ==> encode_utf8(
            text,
        ) == bytes,
{
    if valid_utf8(bytes) {
        decode_utf8_encode_utf8(bytes);
    }
}

/// Any text can be handed over: its bytes are copied to the text again.
pub proof fn law_text_survives_copying(text: Seq<char>, field_name: Seq<char>)
    ensures
        copied_string(StringSliceView::Bytes(encode_utf8(text)), field_name) == Ok::<_, ErrorView>(
            text,
        ),
{
    encode_utf8_valid_utf8(text);
    encode_utf8_decode_utf8(text);
}

/// A null pointer with length zero is the empty string, and a null pointer with any other length is
/// no string.
pub proof fn law_null_is_only_the_empty_string(len: nat, field_name: Seq<char>)
    ensures
        copied_string(StringSliceView::Null { len }, field_name) is Ok <==> len == 0,
        copied_string(StringSliceView::Null { len: 0 }, field_name) == copied_string(
            StringSliceView::Bytes(Seq::empty()),
            field_name,
        ),
{
    assert(valid_utf8(Seq::<u8>::empty()));
    assert(decode_utf8(Seq::<u8>::empty()) =~= Seq::<char>::empty());
}

/// What a string is for shows only in the refusal of a null pointer with a length: otherwise the
/// same slice gives the same text, or is refused with the same error.
pub proof fn law_field_name_shows_only_for_null(
    slice: StringSliceView,
    field_name: Seq<char>,
    other_name: Seq<char>,
)
    requires
        slice matches StringSliceView::Null { len } ==> len == 0,
    ensures
        copied_string(slice, field_name) == copied_string(slice, other_name),
{
}

/// A null list is accepted only where its count is zero, and a list with count zero is the empty
/// one, wherever it points.
pub proof fn law_null_lists(
    names: Option<Seq<StringSliceView>>,
    entries: Option<Seq<CommitInfoEntryView>>,
    count: nat,
)
    ensures
        requested_features(None, count) is Ok <==> count == 0,
        count > 0 ==> requested_features(None, count) == Err::<Seq<Seq<char>>, _>(
            null_features_error(),
        ),
        requested_features(names, 0) == Ok::<_, ErrorView>(Seq::<Seq<char>>::empty()),
        requested_entries(None, count) is Ok <==> count == 0,
        count > 0 ==> requested_entries(None, count) == Err::<Seq<(Seq<char>, Seq<char>)>, _>(
            null_entries_error(),
        ),
        requested_entries(entries, 0) == Ok::<_, ErrorView>(Seq::<(Seq<char>, Seq<char>)>::empty()),
{
}

/// Accepted feature names are text, differ from each other, and are known to the kernel; there is
/// one feature for each of them, in their order.
pub proof fn law_accepted_features(names: Seq<StringSliceView>, count: nat)
    requires
        requested_features(Some(names), count) is Ok,
    ensures
        ({
            let features = requested_features(Some(names), count)->Ok_0;
            &&& features.len() == count
            &&& forall|i: int|
                0 <= i < count ==> {
                    &&& copied_string(#[trigger] names[i], "feature name"@) is Ok
                    &&& kernel_feature(copied_string(names[i], "feature name"@)->Ok_0) == Some(
                        features[i],
                    )
                }
            &&& forall|i: int, j: int|
                0 <= i < j < count ==> copied_string(#[trigger] names[i], "feature name"@)
                    != copied_string(#[trigger] names[j], "feature name"@)
        }),
{
    let outcomes = feature_outcomes(names, count);
    let features = requested_features(Some(names), count)->Ok_0;
    lemma_collected_values(outcomes);
    assert forall|i: int| 0 <= i < count implies {
        &&& copied_string(#[trigger] names[i], "feature name"@) is Ok
        &&& kernel_feature(copied_string(names[i], "feature name"@)->Ok_0) == Some(features[i])
    } by {
        assert(outcomes[i] == Ok::<Seq<char>, ErrorView>(features[i]));
        assert(outcomes[i] == feature_outcome(names, i));
    }
    assert forall|i: int, j: int| 0 <= i < j < count implies copied_string(
        #[trigger] names[i],
        "feature name"@,
    ) != copied_string(#[trigger] names[j], "feature name"@) by {
        assert(outcomes[j] == feature_outcome(names, j));
        assert(outcomes[j] is Ok);
        let name = copied_string(names[j], "feature name"@)->Ok_0;
        if copied_string(names[i], "feature name"@) == copied_string(names[j], "feature name"@) {
            assert(copied_before(names, "feature name"@, j, name));
        }
    }
}

/// A list is accepted where its names are text, differ from each other, and are known to the
/// kernel.
pub proof fn law_good_names_are_accepted(names: Seq<StringSliceView>, count: nat)
    requires
        forall|i: int|
            0 <= i < count ==> copied_string(#[trigger] names[i], "feature name"@) is Ok
                && kernel_feature(copied_string(names[i], "feature name"@)->Ok_0) is Some,
        forall|i: int, j: int|
            0 <= i < j < count ==> copied_string(#[trigger] names[i], "feature name"@)
                != copied_string(#[trigger] names[j], "feature name"@),
    ensures
        requested_features(Some(names), count) is Ok,
{
    let outcomes = feature_outcomes(names, count);
    lemma_collected_values(outcomes);
    assert forall|i: int| 0 <= i < outcomes.len() implies (#[trigger] outcomes[i]) is Ok by {
        let name = copied_string(names[i], "feature name"@)->Ok_0;
        assert(outcomes[i] == feature_outcome(names, i));
        if copied_before(names, "feature name"@, i, name) {
            let j = choose|j: int|
                0 <= j < i && copied_string(#[trigger] names[j], "feature name"@) == Ok::<
                    _,
                    ErrorView,
                >(name);
            assert(copied_string(names[j], "feature name"@) != copied_string(
                names[i],
                "feature name"@,
            ));
        }
    }
}

/// The first name of a list that cannot be accepted decides how the list is refused: a name that
/// is no text with the error of copying it, one that came before as a duplicate, one that the kernel
/// does not know as unsupported.
pub proof fn law_first_bad_name_is_reported(names: Seq<StringSliceView>, count: nat, i: int)
    requires
        0 <= i < count,
        feature_outcome(names, i) is Err,
        forall|j: int| 0 <= j < i ==> (#[trigger] feature_outcome(names, j)) is Ok,
    ensures
        requested_features(Some(names), count) == Err::<Seq<Seq<char>>, ErrorView>(
            match copied_string(names[i], "feature name"@) {
                Err(error) => error,
                Ok(name) => if copied_before(names, "feature name"@, i, name) {
                    duplicate_feature_error(name)
                } else {
                    unknown_feature_error(name)
                },
            },
        ),
{
    let outcomes = feature_outcomes(names, count);
    assert(outcomes[i] == feature_outcome(names, i));
    assert forall|j: int| 0 <= j < i implies (#[trigger] outcomes[j]) is Ok by {
        assert(outcomes[j] == feature_outcome(names, j));
    }
    lemma_collected_first_error(outcomes, i);
}

/// Names beyond the count play no part.
pub proof fn law_only_counted_names_matter(
    names: Seq<StringSliceView>,
    others: Seq<StringSliceView>,
    count: nat,
)
    requires
        count <= names.len(),
        count <= others.len(),
        names.take(count as int) == others.take(count as int),
    ensures
        requested_features(Some(names), count) == requested_features(Some(others), count),
{
    assert forall|i: int| 0 <= i < count implies names[i] == others[i] by {
        assert(names[i] == names.take(count as int)[i]);
        assert(others[i] == others.take(count as int)[i]);
    }
    assert forall|i: int| 0 <= i < count implies feature_outcome(names, i) == feature_outcome(
        others,
        i,
    ) by {
        lemma_copied_before_prefix(names, others, "feature name"@, i);
    }
    assert(feature_outcomes(names, count) =~= feature_outcomes(others, count));
}

/// What was copied before a position depends on the slices before it.
proof fn lemma_copied_before_prefix(
    slices: Seq<StringSliceView>,
    others: Seq<StringSliceView>,
    field_name: Seq<char>,
    end: int,
)
    requires
        forall|j: int| 0 <= j < end ==> slices[j] == others[j],
    ensures
        forall|text: Seq<char>|
            copied_before(slices, field_name, end, text) == copied_before(
                others,
                field_name,
                end,
                text,
            ),
{
    assert forall|text: Seq<char>|
        copied_before(slices, field_name, end, text) == copied_before(
            others,
            field_name,
            end,
            text,
        ) by {
        if copied_before(slices, field_name, end, text) {
            let j = choose|j: int|
                0 <= j < end && copied_string(#[trigger] slices[j], field_name) == Ok::<
                    _,
                    ErrorView,
                >(text);
            assert(copied_string(others[j], field_name) == Ok::<_, ErrorView>(text));
        }
        if copied_before(others, field_name, end, text) {
            let j = choose|j: int|
                0 <= j < end && copied_string(#[trigger] others[j], field_name) == Ok::<
                    _,
                    ErrorView,
                >(text);
            assert(copied_string(slices[j], field_name) == Ok::<_, ErrorView>(text));
        }
    }
}

/// Accepted entries are the copies of those that were borrowed, in their order, and no two of them
/// have the same key.
pub proof fn law_accepted_entries(entries: Seq<CommitInfoEntryView>, count: nat)
    requires
        count <= entries.len(),
        requested_entries(Some(entries), count) is Ok,
    ensures
        ({
            let copies = requested_entries(Some(entries), count)->Ok_0;
            &&& copies.len() == count
            &&& forall|i: int|
                0 <= i < count ==> {
                    &&& copied_string((#[trigger] entries[i]).key, "custom metadata key"@) == Ok::<
                        _,
                        ErrorView,
                    >(copies[i].0)
                    &&& copied_string(entries[i].value, "custom metadata value"@) == Ok::<
                        _,
                        ErrorView,
                    >(copies[i].1)
                }
            &&& forall|i: int, j: int|
                0 <= i < j < count ==> (#[trigger] copies[i]).0 != (#[trigger] copies[j]).0
        }),
{
    let outcomes = entry_outcomes(entries, count);
    let copies = requested_entries(Some(entries), count)->Ok_0;
    let keys = borrowed_keys(entries);
    lemma_collected_values(outcomes);
    assert forall|i: int| 0 <= i < count implies {
        &&& copied_string((#[trigger] entries[i]).key, "custom metadata key"@) == Ok::<
            _,
            ErrorView,
        >(copies[i].0)
        &&& copied_string(entries[i].value, "custom metadata value"@) == Ok::<_, ErrorView>(
            copies[i].1,
        )
    } by {
        assert(outcomes[i] == Ok::<(Seq<char>, Seq<char>), ErrorView>(copies[i]));
        assert(outcomes[i] == entry_outcome(entries, i));
    }
    assert forall|i: int, j: int| 0 <= i < j < count implies (#[trigger] copies[i]).0 != (
    #[trigger] copies[j]).0 by {
        assert(entries[i].key == keys[i] && entries[j].key == keys[j]);
        assert(outcomes[j] == entry_outcome(entries, j));
        assert(outcomes[j] is Ok);
        if copies[i].0 == copies[j].0 {
            assert(copied_string(keys[i], "custom metadata key"@) == Ok::<_, ErrorView>(
                copies[j].0,
            ));
            assert(copied_before(keys, "custom metadata key"@, j, copies[j].0));
        }
    }
}

/// Entries are accepted where keys and values are text and no two keys are the same.
pub proof fn law_good_entries_are_accepted(entries: Seq<CommitInfoEntryView>, count: nat)
    requires
        count <= entries.len(),
        forall|i: int|
            0 <= i < count ==> copied_string((#[trigger] entries[i]).key, "custom metadata key"@)
                is Ok && copied_string(entries[i].value, "custom metadata value"@) is Ok,
        forall|i: int, j: int|
            0 <= i < j < count ==> copied_string(
                (#[trigger] entries[i]).key,
                "custom metadata key"@,
            ) != copied_string((#[trigger] entries[j]).key, "custom metadata key"@),
    ensures
        requested_entries(Some(entries), count) is Ok,
{
    let outcomes = entry_outcomes(entries, count);
    let keys = borrowed_keys(entries);
    lemma_collected_values(outcomes);
    assert forall|i: int| 0 <= i < outcomes.len() implies (#[trigger] outcomes[i]) is Ok by {
        let key = copied_string(entries[i].key, "custom metadata key"@)->Ok_0;
        assert(outcomes[i] == entry_outcome(entries, i));
        if copied_before(keys, "custom metadata key"@, i, key) {
            let j = choose|j: int|
                0 <= j < i && copied_string(#[trigger] keys[j], "custom metadata key"@) == Ok::<
                    _,
                    ErrorView,
                >(key);
            assert(keys[j] == entries[j].key);
            assert(copied_string(entries[j].key, "custom metadata key"@) != copied_string(
                entries[i].key,
                "custom metadata key"@,
            ));
        }
    }
}

/// The first entry of a list that cannot be accepted decides how the list is refused: a key that is
/// no text with the error of copying it, one that came before as a duplicate, and only then a value
/// that is no text with the error of copying that.
pub proof fn law_first_bad_entry_is_reported(
    entries: Seq<CommitInfoEntryView>,
    count: nat,
    i: int,
)
    requires
        0 <= i < count,
        entry_outcome(entries, i) is Err,
        forall|j: int| 0 <= j < i ==> (#[trigger] entry_outcome(entries, j)) is Ok,
    ensures
        requested_entries(Some(entries), count) == Err::<Seq<(Seq<char>, Seq<char>)>, ErrorView>(
            match copied_string(entries[i].key, "custom metadata key"@) {
                Err(error) => error,
                Ok(key) => if copied_before(
                    borrowed_keys(entries),
                    "custom metadata key"@,
                    i,
                    key,
                ) {
                    duplicate_key_error(key)
                } else {
                    copied_string(entries[i].value, "custom metadata value"@)->Err_0
                },
            },
        ),
{
    let outcomes = entry_outcomes(entries, count);
    assert(outcomes[i] == entry_outcome(entries, i));
    assert forall|j: int| 0 <= j < i implies (#[trigger] outcomes[j]) is Ok by {
        assert(outcomes[j] == entry_outcome(entries, j));
    }
    lemma_collected_first_error(outcomes, i);
}

/// Entries beyond the count play no part.
pub proof fn law_only_counted_entries_matter(
    entries: Seq<CommitInfoEntryView>,
    others: Seq<CommitInfoEntryView>,
    count: nat,
)
    requires
        count <= entries.len(),
        count <= others.len(),
        entries.take(count as int) == others.take(count as int),
    ensures
        requested_entries(Some(entries), count) == requested_entries(Some(others), count),
{
    assert forall|i: int| 0 <= i < count implies entries[i] == others[i] by {
        assert(entries[i] == entries.take(count as int)[i]);
        assert(others[i] == others.take(count as int)[i]);
    }
    assert forall|i: int| 0 <= i < count implies entry_outcome(entries, i) == entry_outcome(
        others,
        i,
    ) by {
        let keys = borrowed_keys(entries);
        let other_keys = borrowed_keys(others);
        assert(forall|j: int| 0 <= j < i ==> keys[j] == entries[j].key);
        assert(forall|j: int| 0 <= j < i ==> other_keys[j] == others[j].key);
        lemma_copied_before_prefix(keys, other_keys, "custom metadata key"@, i);
    }
    assert(entry_outcomes(entries, count) =~= entry_outcomes(others, count));
}

/// A request whose feature names are refused, or that names no feature, is refused before anything
/// is done, whatever else it holds.
pub proof fn law_features_are_checked_first<E>(
    features: Result<Seq<Seq<char>>, ErrorView>,
    allow_protocol_versions_increase: bool,
    custom_metadata: Result<Seq<(Seq<char>, Seq<char>)>, ErrorView>,
    replies: Seq<Result<(), E>>,
)
    requires
        features matches Ok(features) ==> features.len() == 0,
    ensures
        ({
            let start = started::<E>(features, allow_protocol_versions_increase, custom_metadata);
            &&& performed(start, replies) == Seq::<ActionView>::empty()
            &&& outcome(start, replies) == Some(
                Err::<(), _>(
                    FailureView::<E>::Rejected(
                        match features {
                            Err(error) => error,
                            Ok(_) => no_features_error(),
                        },
                    ),
                ),
            )
        }),
{
}

/// Custom metadata that is refused is reported once the transaction is built and not before: the
/// transaction is built, nothing else is done, and a failure to build it comes first.
pub proof fn law_metadata_is_checked_after_the_build<E>(
    features: Seq<Seq<char>>,
    allow_protocol_versions_increase: bool,
    error: ErrorView,
    replies: Seq<Result<(), E>>,
)
    requires
        features.len() > 0,
        replies.len() > 0,
    ensures
        ({
            let start = started::<E>(Ok(features), allow_protocol_versions_increase, Err(error));
            &&& performed(start, replies) == seq![
                ActionView::Build { features, allow_protocol_versions_increase },
            ]
            &&& outcome(start, replies) == Some(
                Err::<(), _>(
                    match replies[0] {
                        Ok(_) => FailureView::Rejected(error),
                        Err(failure) => FailureView::Kernel(failure),
                    },
                ),
            )
        }),
{
    reveal_with_fuel(performed, 2);
    reveal_with_fuel(outcome, 2);
    assert(seq![ActionView::Build { features, allow_protocol_versions_increase }] + Seq::<
        ActionView,
    >::empty() =~= seq![ActionView::Build { features, allow_protocol_versions_increase }]);
}

/// An action that fails is the last one, and its error is what the request ends with.
pub proof fn law_failed_action_ends_the_request<E>(
    step: StepView<E>,
    replies: Seq<Result<(), E>>,
)
    requires
        step is Perform,
        replies.len() > 0,
        replies[0] is Err,
    ensures
        performed(step, replies) == seq![step->action],
        outcome(step, replies) == Some(
            Err::<(), _>(FailureView::<E>::Kernel(replies[0]->Err_0)),
        ),
{
    reveal_with_fuel(performed, 2);
    reveal_with_fuel(outcome, 2);
    assert(seq![step->action] + Seq::<ActionView>::empty() =~= seq![step->action]);
}

/// The request may be committed: it names features, its custom metadata was accepted, and its keys
/// make a schema.
pub open spec fn acceptable(
    features: Result<Seq<Seq<char>>, ErrorView>,
    custom_metadata: Result<Seq<(Seq<char>, Seq<char>)>, ErrorView>,
) -> bool {
    &&& features matches Ok(features) && features.len() > 0
    &&& custom_metadata matches Ok(entries) && (entries.len() > 0 ==> rejected_name(
        entry_keys(entries),
        lowered(entry_keys(entries)),
    ) is None)
}

/// The actions of an acceptable request, in order.
pub open spec fn full_course(
    features: Seq<Seq<char>>,
    allow_protocol_versions_increase: bool,
    entries: Seq<(Seq<char>, Seq<char>)>,
) -> Seq<ActionView> {
    let build = ActionView::Build { features, allow_protocol_versions_increase };
    if entries.len() == 0 {
        seq![build, ActionView::Commit]
    } else {
        let describe = ActionView::CreateCommitInfo {
            fields: required_string_fields(entry_keys(entries)),
            values: entry_values(entries),
        };
        seq![build, describe, ActionView::Commit]
    }
}

/// An acceptable request of which every action succeeds is built with its features in order, gets
/// its custom entries in order as its only commit info, if it has any, is committed once, and
/// succeeds.
pub proof fn law_acceptable_request_commits<E>(
    features: Seq<Seq<char>>,
    allow_protocol_versions_increase: bool,
    entries: Seq<(Seq<char>, Seq<char>)>,
    replies: Seq<Result<(), E>>,
)
    requires
        acceptable(Ok(features), Ok(entries)),
        replies.len() >= full_course(features, allow_protocol_versions_increase, entries).len(),
        forall|i: int| 0 <= i < replies.len() ==> (#[trigger] replies[i]) is Ok,
    ensures
        ({
            let start = started::<E>(Ok(features), allow_protocol_versions_increase, Ok(entries));
            &&& performed(start, replies) == full_course(
                features,
                allow_protocol_versions_increase,
                entries,
            )
            &&& outcome(start, replies) == Some(Ok::<(), FailureView<E>>(()))
        }),
{
    reveal_with_fuel(performed, 4);
    reveal_with_fuel(outcome, 4);
    let start = started::<E>(Ok(features), allow_protocol_versions_increase, Ok(entries));
    assert(replies[0] is Ok && replies[1] is Ok);
    assert(replies.drop_first()[0] == replies[1]);
    if entries.len() > 0 {
        assert(replies[2] is Ok);
        assert(replies.drop_first().drop_first()[0] == replies[2]);
    }
    assert(performed(start, replies) =~= full_course(
        features,
        allow_protocol_versions_increase,
        entries,
    ));
}

/// A request that succeeds was committed: its features and its custom metadata were accepted, and
/// the actions that were performed are its full course, which ends with the commit.
pub proof fn law_success_means_commitment<E>(
    features: Result<Seq<Seq<char>>, ErrorView>,
    allow_protocol_versions_increase: bool,
    custom_metadata: Result<Seq<(Seq<char>, Seq<char>)>, ErrorView>,
    replies: Seq<Result<(), E>>,
)
    requires
        outcome(
            started::<E>(features, allow_protocol_versions_increase, custom_metadata),
            replies,
        ) == Some(Ok::<(), FailureView<E>>(())),
    ensures
        acceptable(features, custom_metadata),
        performed(
            started::<E>(features, allow_protocol_versions_increase, custom_metadata),
            replies,
        ) == full_course(features->Ok_0, allow_protocol_versions_increase, custom_metadata->Ok_0),
        performed(
            started::<E>(features, allow_protocol_versions_increase, custom_metadata),
            replies,
        ).last() == ActionView::Commit,
{
    reveal_with_fuel(performed, 4);
    reveal_with_fuel(outcome, 4);
    assert(performed(
        started::<E>(features, allow_protocol_versions_increase, custom_metadata),
        replies,
    ) =~= full_course(features->Ok_0, allow_protocol_versions_increase, custom_metadata->Ok_0));
}

/// Whatever comes of the actions, they are the first ones of the full course: none is left out,
/// added or performed twice.
pub proof fn law_actions_follow_the_course<E>(
    features: Seq<Seq<char>>,
    allow_protocol_versions_increase: bool,
    entries: Seq<(Seq<char>, Seq<char>)>,
    replies: Seq<Result<(), E>>,
)
    requires
        features.len() > 0,
    ensures
        performed(
            started::<E>(Ok(features), allow_protocol_versions_increase, Ok(entries)),
            replies,
        ).is_prefix_of(full_course(features, allow_protocol_versions_increase, entries)),
{
    reveal_with_fuel(performed, 4);
}

/// A commit is asked for only where the request is acceptable and every action before it
/// succeeded.
pub proof fn law_commit_needs_an_acceptable_request<E>(
    features: Result<Seq<Seq<char>>, ErrorView>,
    allow_protocol_versions_increase: bool,
    custom_metadata: Result<Seq<(Seq<char>, Seq<char>)>, ErrorView>,
    replies: Seq<Result<(), E>>,
)
    ensures
        ({
            let actions = performed(
                started::<E>(features, allow_protocol_versions_increase, custom_metadata),
                replies,
            );
            actions.contains(ActionView::Commit) ==> {
                &&& acceptable(features, custom_metadata)
                &&& actions.last() == ActionView::Commit
                &&& forall|i: int|
                    0 <= i < actions.len() - 1 ==> i < replies.len() && (#[trigger] replies[i])
                        is Ok
            }
        }),
{
    reveal_with_fuel(performed, 4);
    let start = started::<E>(features, allow_protocol_versions_increase, custom_metadata);
    let actions = performed(start, replies);
    if actions.contains(ActionView::Commit) {
        let at = actions.index_of(ActionView::Commit);
        assert(0 <= at < actions.len() && actions[at] == ActionView::Commit);
        assert(replies.len() > 1 ==> replies.drop_first()[0] == replies[1]);
        assert(replies.len() > 2 ==> replies.drop_first().drop_first()[0] == replies[2]);
    }
}

/// A request that is refused is never committed.
pub proof fn law_refused_request_commits_nothing<E>(
    features: Result<Seq<Seq<char>>, ErrorView>,
    allow_protocol_versions_increase: bool,
    custom_metadata: Result<Seq<(Seq<char>, Seq<char>)>, ErrorView>,
    replies: Seq<Result<(), E>>,
)
    requires
        outcome(
            started::<E>(features, allow_protocol_versions_increase, custom_metadata),
            replies,
        ) matches Some(Err(FailureView::Rejected(_))),
    ensures
        !performed(
            started::<E>(features, allow_protocol_versions_increase, custom_metadata),
            replies,
        ).contains(ActionView::Commit),
{
    reveal_with_fuel(performed, 4);
    reveal_with_fuel(outcome, 4);
    let start = started::<E>(features, allow_protocol_versions_increase, custom_metadata);
    let actions = performed(start, replies);
    if actions.contains(ActionView::Commit) {
        let at = actions.index_of(ActionView::Commit);
        assert(0 <= at < actions.len() && actions[at] == ActionView::Commit);
    }
}

/// A request that is acceptable is not refused, whatever comes of the actions.
pub proof fn law_acceptable_request_is_not_refused<E>(
    features: Result<Seq<Seq<char>>, ErrorView>,
    allow_protocol_versions_increase: bool,
    custom_metadata: Result<Seq<(Seq<char>, Seq<char>)>, ErrorView>,
    replies: Seq<Result<(), E>>,
)
    requires
        acceptable(features, custom_metadata),
    ensures
        !(outcome(
            started::<E>(features, allow_protocol_versions_increase, custom_metadata),
            replies,
        ) matches Some(Err(FailureView::Rejected(_)))),
{
    reveal_with_fuel(outcome, 4);
}

/// The first `count` of `names` can be added: there is a name, each is text, each is known to the
/// kernel, and no two are the same.
pub open spec fn good_names(names: Option<Seq<StringSliceView>>, count: nat) -> bool {
    &&& count > 0
    &&& names matches Some(names) && {
        &&& forall|i: int|
            0 <= i < count ==> copied_string(#[trigger] names[i], "feature name"@) is Ok
                && kernel_feature(copied_string(names[i], "feature name"@)->Ok_0) is Some
        &&& forall|i: int, j: int|
            0 <= i < j < count ==> copied_string(#[trigger] names[i], "feature name"@)
                != copied_string(#[trigger] names[j], "feature name"@)
    }
}

/// The first `count` of `entries` can be attached to a commit: keys and values are text, and no two
/// keys are the same in lower case.
pub open spec fn good_entries(entries: Option<Seq<CommitInfoEntryView>>, count: nat) -> bool {
    count > 0 ==> (entries matches Some(entries) && {
        let keys = Seq::new(
            count,
            |i: int| copied_string(entries[i].key, "custom metadata key"@)->Ok_0,
        );
        &&& forall|i: int|
            0 <= i < count ==> copied_string((#[trigger] entries[i]).key, "custom metadata key"@)
                is Ok && copied_string(entries[i].value, "custom metadata value"@) is Ok
        &&& forall|i: int, j: int|
            0 <= i < j < count ==> #[trigger] field_keys(keys, lowered(keys))[i]
                != #[trigger] field_keys(keys, lowered(keys))[j]
    })
}

/// Keys repeat nowhere where no two are the same, and the other way round.
pub proof fn lemma_no_repeat(names: Seq<Seq<char>>)
    ensures
        rejected_name(names, lowered(names)) is None <==> forall|i: int, j: int|
            0 <= i < j < names.len() ==> #[trigger] field_keys(names, lowered(names))[i]
                != #[trigger] field_keys(names, lowered(names))[j],
{
    let keys = field_keys(names, lowered(names));
    if rejected_name(names, lowered(names)) is None {
        assert forall|i: int, j: int| 0 <= i < j < names.len() implies #[trigger] keys[i]
            != #[trigger] keys[j] by {
            if keys[i] == keys[j] {
                assert(key_repeats(keys, j));
                lemma_first_repeat_exists(keys, j);
            }
        }
    } else {
        let k = choose|k: int| first_repeat(keys, k);
        assert(first_repeat(keys, k));
        let j = choose|j: int| 0 <= j < k && #[trigger] keys[j] == keys[k];
        assert(keys[j] == keys[k]);
    }
}

/// A request can be committed exactly where its feature names and its custom entries are good.
pub proof fn law_good_requests_are_the_acceptable_ones(
    names: Option<Seq<StringSliceView>>,
    feature_count: nat,
    entries: Option<Seq<CommitInfoEntryView>>,
    entry_count: nat,
)
    requires
        names matches Some(names) ==> feature_count <= names.len(),
        entries matches Some(entries) ==> entry_count <= entries.len(),
    ensures
        acceptable(
            requested_features(names, feature_count),
            requested_entries(entries, entry_count),
        ) <==> good_names(names, feature_count) && good_entries(entries, entry_count),
{
    let features = requested_features(names, feature_count);
    let copies = requested_entries(entries, entry_count);
    if names is Some {
        if features is Ok {
            law_accepted_features(names->Some_0, feature_count);
        }
        if good_names(names, feature_count) {
            law_good_names_are_accepted(names->Some_0, feature_count);
            law_accepted_features(names->Some_0, feature_count);
        }
    }
    if entry_count > 0 && entries is Some {
        let borrowed = entries->Some_0;
        let keys = Seq::new(
            entry_count,
            |i: int| copied_string(borrowed[i].key, "custom metadata key"@)->Ok_0,
        );
        lemma_no_repeat(keys);
        if good_entries(entries, entry_count) {
            assert forall|i: int, j: int| 0 <= i < j < entry_count implies copied_string(
                (#[trigger] borrowed[i]).key,
                "custom metadata key"@,
            ) != copied_string((#[trigger] borrowed[j]).key, "custom metadata key"@) by {
                assert(field_keys(keys, lowered(keys))[i] != field_keys(keys, lowered(keys))[j]);
            }
            law_good_entries_are_accepted(borrowed, entry_count);
        }
        if copies is Ok {
            law_accepted_entries(borrowed, entry_count);
            assert forall|i: int| 0 <= i < entry_count implies keys[i] == copies->Ok_0[i].0 by {
                assert(copied_string(borrowed[i].key, "custom metadata key"@) is Ok);
            }
            assert(entry_keys(copies->Ok_0) =~= keys);
        }
    }
}

/// Where a key repeats at all, it repeats somewhere first.
proof fn lemma_first_repeat_exists(keys: Seq<Seq<char>>, i: int)
    requires
        0 <= i < keys.len(),
        key_repeats(keys, i),
    ensures
        exists|k: int| first_repeat(keys, k),
    decreases i,
{
    if exists|k: int| 0 <= k < i && #[trigger] key_repeats(keys, k) {
        let k = choose|k: int| 0 <= k < i && #[trigger] key_repeats(keys, k);
        lemma_first_repeat_exists(keys, k);
    } else {
        assert(first_repeat(keys, i));
    }
}

/// Custom entries of which two keys agree but for case are refused once the transaction is built,
/// with a message that names the first key that agrees with an earlier one.
pub proof fn law_keys_differ_in_more_than_case<E>(
    features: Result<Seq<Seq<char>>, ErrorView>,
    entries: Seq<(Seq<char>, Seq<char>)>,
    i: int,
    j: int,
)
    requires
        0 <= i < j < entries.len(),
        ({
            let keys = field_keys(entry_keys(entries), lowered(entry_keys(entries)));
            keys[i] == keys[j]
        }),
    ensures
        !acceptable(features, Ok(entries)),
        exists|k: int|
            0 < k < entries.len() && first_repeat(
                field_keys(entry_keys(entries), lowered(entry_keys(entries))),
                k,
            ) && described::<E>(entries, lowered(entry_keys(entries)))
                == StepView::<E>::Return(
                Err(
                    FailureView::Rejected(
                        ErrorView::Schema(repeated_field_message(#[trigger] entries[k].0)),
                    ),
                ),
            ),
{
    let names = entry_keys(entries);
    let keys = field_keys(names, lowered(names));
    assert(keys[i] == keys[j]);
    assert(key_repeats(keys, j));
    lemma_first_repeat_exists(keys, j);
    let k = choose|k: int| first_repeat(keys, k);
    assert(first_repeat(keys, k));
    assert(names[k] == entries[k].0);
}

} // verus!
