//! What holds of single calls and of how they follow each other, told of the memory that is
//! borrowed and the values that are handed back.
use delta_kernel::schema::StructType;
use vstd::prelude::*;
use vstd::utf8::*;

use crate::alteration::{
    entry_keys, entry_values, lemma_first_repeat_unique, lowered, rejected_name, resumed, started,
    Action, ActionView, Failure, FailureView, Stage, StageView, Step, StepView,
};
use crate::commit_info::{
    borrowed_entries_view, borrowed_keys, entries_readable, entries_view, entry_outcome,
    entry_views, requested_entries, FfiCommitInfoEntry,
};
use crate::error::{result_view, Error, ErrorView};
use crate::features::{
    admitted_feature, feature_outcome, feature_views, features_view, requested_features,
    TableFeature,
};
use crate::kernel::{
    ends_valid_prefix, field_keys, field_names, field_views, first_repeat, kernel_feature,
    key_repeats, schema_fields, unicode_lowercase, utf8_error_len, utf8_failure, RowField,
};
use crate::laws::{
    law_accepted_entries, law_accepted_features, law_first_bad_entry_is_reported,
    law_first_bad_name_is_reported, law_good_entries_are_accepted, law_good_names_are_accepted,
    lemma_no_repeat,
};
use crate::text::{
    copied_before, copied_string, lemma_valid_prefix_len, slices_readable, slices_view,
    KernelStringSlice,
};

verus! {

/// Errors of the same content are of the same kind and say the same.
pub proof fn law_errors_of_the_same_content_agree(error: Error, other: Error)
    requires
        error@ == other@,
    ensures
        match (error, other) {
            (Error::Generic(message), Error::Generic(same)) => message@ == same@,
            (Error::Unsupported(message), Error::Unsupported(same)) => message@ == same@,
            (Error::InvalidProtocol(message), Error::InvalidProtocol(same)) => message@ == same@,
            (Error::Schema(message), Error::Schema(same)) => message@ == same@,
            (Error::Utf8(failure), Error::Utf8(same)) => {
                &&& failure.valid_up_to == same.valid_up_to
                &&& failure.error_len == same.error_len
                &&& failure.source == same.source
            },
            _ => false,
        },
{
}

/// Among the prefixes up to `end`, of which the empty one is UTF-8, there is a longest that is.
proof fn lemma_valid_prefix_exists(bytes: Seq<u8>, end: int)
    requires
        0 <= end <= bytes.len(),
        forall|longer: int|
            end < longer <= bytes.len() ==> !valid_utf8(#[trigger] bytes.take(longer)),
    ensures
        exists|longest: int| ends_valid_prefix(bytes, longest),
    decreases end,
{
    if valid_utf8(bytes.take(end)) {
        assert(ends_valid_prefix(bytes, end));
    } else {
        if end == 0 {
            assert(bytes.take(0) =~= Seq::<u8>::empty());
        }
        lemma_valid_prefix_exists(bytes, end - 1);
    }
}

/// A borrowed string is copied whole: where its pointer is not null, the copy encodes to all the
/// bytes of the declared length and to no others, and is refused only where these are not UTF-8, at
/// the end of their longest prefix that is. A null pointer gives the empty string for length zero,
/// and for every other length the refusal that names what the string is for.
pub proof fn law_copy_is_the_borrowed_text(
    slice: KernelStringSlice<'_>,
    field_name: Seq<char>,
    res: Result<String, Error>,
)
    requires
        slice.ptr matches Some(bytes) ==> slice.len <= bytes@.len(),
        result_view(res) == copied_string(slice@, field_name),
    ensures
        match slice.ptr {
            None => if slice.len == 0 {
                res matches Ok(text) && text@.len() == 0
            } else {
                res matches Err(Error::Generic(message)) && message@ == field_name
                    + " must not be null when its length is nonzero"@
            },
            Some(bytes) => match res {
                Ok(text) => encode_utf8(text@) == bytes@.take(slice.len as int),
                Err(Error::Utf8(failure)) => {
                    &&& !valid_utf8(bytes@.take(slice.len as int))
                    &&& failure.valid_up_to <= slice.len
                    &&& valid_utf8(bytes@.take(failure.valid_up_to as int))
                    &&& forall|longer: int|
                        failure.valid_up_to < longer <= slice.len ==> !valid_utf8(
                            #[trigger] bytes@.take(longer),
                        )
                    &&& utf8_error_len(bytes@.take(slice.len as int)) == match failure.error_len {
                        Some(len) => Some(len as nat),
                        None => None,
                    }
                    &&& failure.source == utf8_failure(bytes@.take(slice.len as int))
                },
                Err(_) => false,
            },
        },
{
    if let Some(bytes) = slice.ptr {
        let declared = bytes@.take(slice.len as int);
        if valid_utf8(declared) {
            decode_utf8_encode_utf8(declared);
        } else {
            lemma_valid_prefix_exists(declared, declared.len() as int);
            let end = choose|end: int| ends_valid_prefix(declared, end);
            lemma_valid_prefix_len(declared, end);
            assert(declared.take(end) =~= bytes@.take(end));
            assert forall|longer: int| end < longer <= slice.len implies !valid_utf8(
                #[trigger] bytes@.take(longer),
            ) by {
                assert(declared.take(longer) =~= bytes@.take(longer));
            }
        }
    }
}

/// Memory that is readable may be handed over: a pointer that is not null has to reach what its
/// length or its count declares, and nothing else is asked.
pub proof fn law_readable_memory_may_be_handed_over(
    slice: KernelStringSlice<'_>,
    names: Option<&[KernelStringSlice<'_>]>,
    feature_count: usize,
    entries: Option<&[FfiCommitInfoEntry<'_>]>,
    entry_count: usize,
)
    requires
        slice.ptr matches Some(bytes) ==> slice.len <= bytes@.len(),
        names matches Some(names) ==> {
            &&& feature_count <= names@.len()
            &&& forall|i: int, bytes: &[u8]|
                0 <= i < feature_count && (#[trigger] names@[i]).ptr == Some(bytes)
                    ==> names@[i].len <= (#[trigger] bytes@).len()
        },
        entries matches Some(entries) ==> {
            &&& entry_count <= entries@.len()
            &&& forall|i: int, bytes: &[u8]|
                0 <= i < entry_count && (#[trigger] entries@[i]).key.ptr == Some(bytes)
                    ==> entries@[i].key.len <= (#[trigger] bytes@).len()
            &&& forall|i: int, bytes: &[u8]|
                0 <= i < entry_count && (#[trigger] entries@[i]).value.ptr == Some(bytes)
                    ==> entries@[i].value.len <= (#[trigger] bytes@).len()
        },
    ensures
        slice.readable(),
        slices_readable(names, feature_count as nat),
        entries_readable(entries, entry_count as nat),
{
}

/// Text that a slice holds is what it is copied to.
proof fn lemma_text_is_copied(slice: KernelStringSlice<'_>, text: Seq<char>, field_name: Seq<char>)
    requires
        match slice.ptr {
            None => slice.len == 0 && text.len() == 0,
            Some(bytes) => encode_utf8(text) == bytes@.take(slice.len as int),
        },
    ensures
        copied_string(slice@, field_name) == Ok::<_, ErrorView>(text),
{
    assert(text.len() == 0 ==> text =~= Seq::<char>::empty());
    encode_utf8_valid_utf8(text);
    encode_utf8_decode_utf8(text);
}

/// What the features are that borrowed names ask for.
proof fn lemma_features_of_names(
    slices: &[KernelStringSlice<'_>],
    count: usize,
    names: Seq<Seq<char>>,
)
    requires
        count <= slices@.len(),
        names.len() == count,
        forall|i: int|
            0 <= i < count ==> match (#[trigger] slices@[i]).ptr {
                None => slices@[i].len == 0 && names[i].len() == 0,
                Some(bytes) => encode_utf8(names[i]) == bytes@.take(slices@[i].len as int),
            },
    ensures
        ({
            let features = requested_features(slices_view(Some(slices)), count as nat);
            &&& features is Ok <==> {
                &&& forall|i: int| 0 <= i < count ==> kernel_feature(#[trigger] names[i]) is Some
                &&& forall|i: int, j: int|
                    0 <= i < j < count ==> #[trigger] names[i] != #[trigger] names[j]
            }
            &&& features matches Ok(features) ==> {
                &&& features.len() == count
                &&& forall|i: int|
                    0 <= i < count ==> kernel_feature(#[trigger] names[i]) == Some(features[i])
            }
        }),
{
    let contents = slices_view(Some(slices))->Some_0;
    let features = requested_features(slices_view(Some(slices)), count as nat);
    assert forall|i: int| 0 <= i < count implies copied_string(
        #[trigger] contents[i],
        "feature name"@,
    ) == Ok::<_, ErrorView>(names[i]) by {
        assert(contents[i] == slices@[i]@);
        lemma_text_is_copied(slices@[i], names[i], "feature name"@);
    }
    if features is Ok {
        law_accepted_features(contents, count as nat);
        assert forall|i: int| 0 <= i < count implies kernel_feature(#[trigger] names[i]) == Some(
            features->Ok_0[i],
        ) by {
            assert(copied_string(contents[i], "feature name"@) is Ok);
        }
        assert forall|i: int, j: int| 0 <= i < j < count implies #[trigger] names[i]
            != #[trigger] names[j] by {
            assert(copied_string(contents[i], "feature name"@) != copied_string(
                contents[j],
                "feature name"@,
            ));
        }
    } else if (forall|i: int| 0 <= i < count ==> kernel_feature(#[trigger] names[i]) is Some) && (
    forall|i: int, j: int| 0 <= i < j < count ==> #[trigger] names[i] != #[trigger] names[j]) {
        assert forall|i: int| 0 <= i < count implies copied_string(
            #[trigger] contents[i],
            "feature name"@,
        ) is Ok && kernel_feature(copied_string(contents[i], "feature name"@)->Ok_0) is Some by {
            assert(kernel_feature(names[i]) is Some);
        }
        assert forall|i: int, j: int| 0 <= i < j < count implies copied_string(
            #[trigger] contents[i],
            "feature name"@,
        ) != copied_string(#[trigger] contents[j], "feature name"@) by {
            assert(names[i] != names[j]);
        }
        law_good_names_are_accepted(contents, count as nat);
    }
}

/// Borrowed feature names are accepted exactly where the kernel knows each of them and no two are
/// the same. Then the feature at each position is the one that the kernel knows by the text of the
/// slice at that position.
pub proof fn law_borrowed_names_become_features(
    slices: &[KernelStringSlice<'_>],
    count: usize,
    names: Seq<Seq<char>>,
    res: Result<Vec<TableFeature>, Error>,
)
    requires
        count <= slices@.len(),
        names.len() == count,
        forall|i: int|
            0 <= i < count ==> match (#[trigger] slices@[i]).ptr {
                None => slices@[i].len == 0 && names[i].len() == 0,
                Some(bytes) => encode_utf8(names[i]) == bytes@.take(slices@[i].len as int),
            },
        features_view(res) == requested_features(slices_view(Some(slices)), count as nat),
    ensures
        res is Ok <==> {
            &&& forall|i: int| 0 <= i < count ==> kernel_feature(#[trigger] names[i]) is Some
            &&& forall|i: int, j: int|
                0 <= i < j < count ==> #[trigger] names[i] != #[trigger] names[j]
        },
        res matches Ok(features) ==> {
            &&& features@.len() == count
            &&& forall|i: int|
                0 <= i < count ==> kernel_feature(#[trigger] names[i]) == Some(
                    features@[i].name@,
                )
        },
{
    lemma_features_of_names(slices, count, names);
    if let Ok(features) = res {
        assert forall|i: int| 0 <= i < count implies kernel_feature(#[trigger] names[i]) == Some(
            features@[i].name@,
        ) by {
            assert(feature_views(features@)[i] == features@[i].name@);
        }
    }
}

/// Where the names before position `i` could be added, the slice at `i` decides as soon as it can
/// be refused, whatever follows it: with the error of copying it, as a duplicate where its text is
/// that of an earlier slice, and as unsupported where the kernel does not know it.
pub proof fn law_first_bad_borrowed_name_is_reported(
    slices: &[KernelStringSlice<'_>],
    count: usize,
    i: int,
    names: Seq<Seq<char>>,
    copy: Result<String, Error>,
    res: Result<Vec<TableFeature>, Error>,
)
    requires
        0 <= i < count <= slices@.len(),
        names.len() == i,
        forall|j: int|
            0 <= j < i ==> match (#[trigger] slices@[j]).ptr {
                None => slices@[j].len == 0 && names[j].len() == 0,
                Some(bytes) => encode_utf8(names[j]) == bytes@.take(slices@[j].len as int),
            },
        forall|j: int| 0 <= j < i ==> kernel_feature(#[trigger] names[j]) is Some,
        forall|j: int, k: int| 0 <= j < k < i ==> #[trigger] names[j] != #[trigger] names[k],
        result_view(copy) == copied_string(slices@[i]@, "feature name"@),
        features_view(res) == requested_features(slices_view(Some(slices)), count as nat),
    ensures
        match copy {
            Err(error) => res matches Err(reported) && reported@ == error@,
            Ok(name) => if names.contains(name@) {
                res matches Err(Error::Generic(message)) && message@
                    == "duplicate requested table feature name: "@ + name@
            } else {
                kernel_feature(name@) is None ==> (res matches Err(Error::Unsupported(message))
                    && message@ == "Table feature '"@ + name@
                    + "' has an unknown feature type and is unsupported for addition"@)
            },
        },
{
    let contents = slices_view(Some(slices))->Some_0;
    assert(contents[i] == slices@[i]@);
    assert forall|j: int| 0 <= j < i implies copied_string(#[trigger] contents[j], "feature name"@)
        == Ok::<_, ErrorView>(names[j]) by {
        assert(contents[j] == slices@[j]@);
        lemma_text_is_copied(slices@[j], names[j], "feature name"@);
    }
    assert forall|j: int| 0 <= j < i implies (#[trigger] feature_outcome(contents, j)) is Ok by {
        assert(copied_string(contents[j], "feature name"@) == Ok::<_, ErrorView>(names[j]));
        assert(kernel_feature(names[j]) is Some);
        if copied_before(contents, "feature name"@, j, names[j]) {
            let k = choose|k: int|
                0 <= k < j && copied_string(#[trigger] contents[k], "feature name"@) == Ok::<
                    _,
                    ErrorView,
                >(names[j]);
            assert(names[k] == names[j]);
        }
    }
    if let Ok(name) = copy {
        if names.contains(name@) {
            let k = choose|k: int| 0 <= k < names.len() && names[k] == name@;
            assert(copied_string(contents[k], "feature name"@) == Ok::<_, ErrorView>(name@));
            assert(copied_before(contents, "feature name"@, i, name@));
        } else if copied_before(contents, "feature name"@, i, name@) {
            let k = choose|k: int|
                0 <= k < i && copied_string(#[trigger] contents[k], "feature name"@) == Ok::<
                    _,
                    ErrorView,
                >(name@);
            assert(names[k] == name@);
        }
    }
    if feature_outcome(contents, i) is Err {
        law_first_bad_name_is_reported(contents, count as nat, i);
    }
}

/// One name is decided on by whether it comes for the first time and by what the kernel knows it
/// as.
pub proof fn law_name_is_admitted_once_and_if_known(
    name: Seq<char>,
    first_request: bool,
    kernel_name: Option<String>,
    res: Result<TableFeature, Error>,
)
    requires
        result_view(res) == admitted_feature(
            name,
            first_request,
            match kernel_name {
                Some(known) => Some(known@),
                None => None,
            },
        ),
    ensures
        match kernel_name {
            Some(known) if first_request => res matches Ok(feature) && feature.name@ == known@,
            None if first_request => res matches Err(Error::Unsupported(message)) && message@
                == "Table feature '"@ + name
                + "' has an unknown feature type and is unsupported for addition"@,
            _ => res matches Err(Error::Generic(message)) && message@
                == "duplicate requested table feature name: "@ + name,
        },
{
}

/// What the copies are of borrowed entries.
proof fn lemma_copies_of_entries(
    entries: &[FfiCommitInfoEntry<'_>],
    count: usize,
    keys: Seq<Seq<char>>,
    values: Seq<Seq<char>>,
)
    requires
        count <= entries@.len(),
        keys.len() == count,
        values.len() == count,
        forall|i: int|
            0 <= i < count ==> match (#[trigger] entries@[i]).key.ptr {
                None => entries@[i].key.len == 0 && keys[i].len() == 0,
                Some(bytes) => encode_utf8(keys[i]) == bytes@.take(entries@[i].key.len as int),
            },
        forall|i: int|
            0 <= i < count ==> match (#[trigger] entries@[i]).value.ptr {
                None => entries@[i].value.len == 0 && values[i].len() == 0,
                Some(bytes) => encode_utf8(values[i]) == bytes@.take(entries@[i].value.len as int),
            },
    ensures
        ({
            let copies = requested_entries(borrowed_entries_view(Some(entries)), count as nat);
            &&& copies is Ok <==> forall|i: int, j: int|
                0 <= i < j < count ==> #[trigger] keys[i] != #[trigger] keys[j]
            &&& copies matches Ok(copies) ==> {
                &&& copies.len() == count
                &&& forall|i: int|
                    0 <= i < count ==> #[trigger] copies[i] == (keys[i], values[i])
            }
        }),
{
    let contents = borrowed_entries_view(Some(entries))->Some_0;
    let copies = requested_entries(borrowed_entries_view(Some(entries)), count as nat);
    assert forall|i: int| 0 <= i < count implies copied_string(
        (#[trigger] contents[i]).key,
        "custom metadata key"@,
    ) == Ok::<_, ErrorView>(keys[i]) && copied_string(contents[i].value, "custom metadata value"@)
        == Ok::<_, ErrorView>(values[i]) by {
        assert(contents[i] == entries@[i]@);
        lemma_text_is_copied(entries@[i].key, keys[i], "custom metadata key"@);
        lemma_text_is_copied(entries@[i].value, values[i], "custom metadata value"@);
    }
    if copies is Ok {
        law_accepted_entries(contents, count as nat);
        assert forall|i: int| 0 <= i < count implies #[trigger] copies->Ok_0[i] == (
            keys[i],
            values[i],
        ) by {
            assert(copied_string(contents[i].key, "custom metadata key"@) is Ok);
        }
        assert forall|i: int, j: int| 0 <= i < j < count implies #[trigger] keys[i]
            != #[trigger] keys[j] by {
            assert(copies->Ok_0[i].0 != copies->Ok_0[j].0);
        }
    } else if forall|i: int, j: int|
        0 <= i < j < count ==> #[trigger] keys[i] != #[trigger] keys[j] {
        assert forall|i: int, j: int| 0 <= i < j < count implies copied_string(
            (#[trigger] contents[i]).key,
            "custom metadata key"@,
        ) != copied_string((#[trigger] contents[j]).key, "custom metadata key"@) by {
            assert(keys[i] != keys[j]);
        }
        law_good_entries_are_accepted(contents, count as nat);
    }
}

/// Borrowed entries whose keys and values are text are accepted exactly where no two keys are the
/// same. Then the copy at each position has the text of the key and the text of the value of the
/// entry at that position.
pub proof fn law_borrowed_entries_are_copied(
    entries: &[FfiCommitInfoEntry<'_>],
    count: usize,
    keys: Seq<Seq<char>>,
    values: Seq<Seq<char>>,
    res: Result<Vec<(String, String)>, Error>,
)
    requires
        count <= entries@.len(),
        keys.len() == count,
        values.len() == count,
        forall|i: int|
            0 <= i < count ==> match (#[trigger] entries@[i]).key.ptr {
                None => entries@[i].key.len == 0 && keys[i].len() == 0,
                Some(bytes) => encode_utf8(keys[i]) == bytes@.take(entries@[i].key.len as int),
            },
        forall|i: int|
            0 <= i < count ==> match (#[trigger] entries@[i]).value.ptr {
                None => entries@[i].value.len == 0 && values[i].len() == 0,
                Some(bytes) => encode_utf8(values[i]) == bytes@.take(entries@[i].value.len as int),
            },
        entries_view(res) == requested_entries(borrowed_entries_view(Some(entries)), count as nat),
    ensures
        res is Ok <==> forall|i: int, j: int|
            0 <= i < j < count ==> #[trigger] keys[i] != #[trigger] keys[j],
        res matches Ok(copies) ==> {
            &&& copies@.len() == count
            &&& forall|i: int|
                0 <= i < count ==> (#[trigger] copies@[i]).0@ == keys[i] && copies@[i].1@
                    == values[i]
        },
{
    lemma_copies_of_entries(entries, count, keys, values);
    if let Ok(copies) = res {
        assert forall|i: int| 0 <= i < count implies (#[trigger] copies@[i]).0@ == keys[i]
            && copies@[i].1@ == values[i] by {
            assert(entry_views(copies@)[i] == (copies@[i].0@, copies@[i].1@));
        }
    }
}

/// Where the entries before position `i` could be attached, the entry at `i` decides as soon as it
/// can be refused, whatever follows it: with the error of copying its key, as a duplicate where its
/// key is that of an earlier entry, and else with the error of copying its value.
pub proof fn law_first_bad_borrowed_entry_is_reported(
    entries: &[FfiCommitInfoEntry<'_>],
    count: usize,
    i: int,
    keys: Seq<Seq<char>>,
    values: Seq<Seq<char>>,
    key_copy: Result<String, Error>,
    value_copy: Result<String, Error>,
    res: Result<Vec<(String, String)>, Error>,
)
    requires
        0 <= i < count <= entries@.len(),
        keys.len() == i,
        values.len() == i,
        forall|j: int|
            0 <= j < i ==> match (#[trigger] entries@[j]).key.ptr {
                None => entries@[j].key.len == 0 && keys[j].len() == 0,
                Some(bytes) => encode_utf8(keys[j]) == bytes@.take(entries@[j].key.len as int),
            },
        forall|j: int|
            0 <= j < i ==> match (#[trigger] entries@[j]).value.ptr {
                None => entries@[j].value.len == 0 && values[j].len() == 0,
                Some(bytes) => encode_utf8(values[j]) == bytes@.take(entries@[j].value.len as int),
            },
        forall|j: int, k: int| 0 <= j < k < i ==> #[trigger] keys[j] != #[trigger] keys[k],
        result_view(key_copy) == copied_string(entries@[i].key@, "custom metadata key"@),
        result_view(value_copy) == copied_string(entries@[i].value@, "custom metadata value"@),
        entries_view(res) == requested_entries(borrowed_entries_view(Some(entries)), count as nat),
    ensures
        match key_copy {
            Err(error) => res matches Err(reported) && reported@ == error@,
            Ok(key) => if keys.contains(key@) {
                res matches Err(Error::Generic(message)) && message@
                    == "duplicate custom metadata key: "@ + key@
            } else {
                value_copy matches Err(error) ==> (res matches Err(reported) && reported@
                    == error@)
            },
        },
{
    let contents = borrowed_entries_view(Some(entries))->Some_0;
    let key_slices = borrowed_keys(contents);
    assert(contents[i] == entries@[i]@);
    assert forall|j: int| 0 <= j < i implies copied_string(
        #[trigger] key_slices[j],
        "custom metadata key"@,
    ) == Ok::<_, ErrorView>(keys[j]) && key_slices[j] == contents[j].key && copied_string(
        contents[j].value,
        "custom metadata value"@,
    ) == Ok::<_, ErrorView>(values[j]) by {
        assert(contents[j] == entries@[j]@);
        lemma_text_is_copied(entries@[j].key, keys[j], "custom metadata key"@);
        lemma_text_is_copied(entries@[j].value, values[j], "custom metadata value"@);
    }
    assert forall|j: int| 0 <= j < i implies (#[trigger] entry_outcome(contents, j)) is Ok by {
        assert(copied_string(key_slices[j], "custom metadata key"@) == Ok::<_, ErrorView>(keys[j]));
        if copied_before(key_slices, "custom metadata key"@, j, keys[j]) {
            let k = choose|k: int|
                0 <= k < j && copied_string(#[trigger] key_slices[k], "custom metadata key"@)
                    == Ok::<_, ErrorView>(keys[j]);
            assert(keys[k] == keys[j]);
        }
    }
    if let Ok(key) = key_copy {
        if keys.contains(key@) {
            let k = choose|k: int| 0 <= k < keys.len() && keys[k] == key@;
            assert(copied_string(key_slices[k], "custom metadata key"@) == Ok::<_, ErrorView>(
                key@,
            ));
            assert(copied_before(key_slices, "custom metadata key"@, i, key@));
        } else if copied_before(key_slices, "custom metadata key"@, i, key@) {
            let k = choose|k: int|
                0 <= k < i && copied_string(#[trigger] key_slices[k], "custom metadata key"@)
                    == Ok::<_, ErrorView>(key@);
            assert(keys[k] == key@);
        }
    }
    if entry_outcome(contents, i) is Err {
        law_first_bad_entry_is_reported(contents, count as nat, i);
    }
}

/// A list of count zero is empty, wherever it points, and a null list of any other count is refused
/// by its name.
pub proof fn law_null_and_empty_borrowed_lists(
    names: Option<&[KernelStringSlice<'_>]>,
    feature_count: usize,
    features: Result<Vec<TableFeature>, Error>,
    entries: Option<&[FfiCommitInfoEntry<'_>]>,
    entry_count: usize,
    copies: Result<Vec<(String, String)>, Error>,
)
    requires
        features_view(features) == requested_features(slices_view(names), feature_count as nat),
        entries_view(copies) == requested_entries(
            borrowed_entries_view(entries),
            entry_count as nat,
        ),
    ensures
        feature_count == 0 ==> (features matches Ok(features) && features@.len() == 0),
        feature_count > 0 && names is None ==> (features matches Err(Error::Generic(message))
            && message@ == "feature_names must not be null when feature_count is nonzero"@),
        entry_count == 0 ==> (copies matches Ok(copies) && copies@.len() == 0),
        entry_count > 0 && entries is None ==> (copies matches Err(Error::Generic(message))
            && message@
            == "custom_metadata must not be null when custom_metadata_count is nonzero"@),
{
    if let Ok(features) = features {
        assert(feature_views(features@).len() == features@.len());
    }
    if let Ok(copies) = copies {
        assert(entry_views(copies@).len() == copies@.len());
    }
}

/// A request whose features were refused, or that has none, is over before anything is done. Any
/// other starts with the building of a transaction for these features, in their order and with the
/// caller's flag, and keeps its custom metadata as it came, accepted or refused.
pub proof fn law_request_starts_with_the_build<E>(
    features: Result<Vec<TableFeature>, Error>,
    allow_protocol_versions_increase: bool,
    custom_metadata: Result<Vec<(String, String)>, Error>,
    step: Step<E>,
)
    requires
        step@ == started::<E>(
            features_view(features),
            allow_protocol_versions_increase,
            entries_view(custom_metadata),
        ),
    ensures
        match features {
            Err(error) => step matches Step::Return(Err(Failure::Rejected(reported))) && reported@
                == error@,
            Ok(features) => if features@.len() == 0 {
                step matches Step::Return(Err(Failure::Rejected(Error::InvalidProtocol(message))))
                    && message@ == "At least one table feature must be requested"@
            } else {
                step matches Step::Perform {
                    stage: Stage::Building { custom_metadata: kept },
                    action: Action::Build {
                        features: built,
                        allow_protocol_versions_increase: allowed,
                    },
                } && {
                    &&& allowed == allow_protocol_versions_increase
                    &&& built@.len() == features@.len()
                    &&& forall|i: int|
                        0 <= i < built@.len() ==> (#[trigger] built@[i]).name@ == features@[i].name@
                    &&& match (custom_metadata, kept) {
                        (Ok(entries), Ok(kept)) => {
                            &&& kept@.len() == entries@.len()
                            &&& forall|i: int|
                                0 <= i < kept@.len() ==> (#[trigger] kept@[i]).0@ == entries@[i].0@
                                    && kept@[i].1@ == entries@[i].1@
                        },
                        (Err(error), Err(kept)) => kept@ == error@,
                        _ => false,
                    }
                }
            },
        },
{
    if let Ok(features) = features {
        assert(feature_views(features@).len() == features@.len());
        if features@.len() > 0 {
            let built = step->action->features;
            assert(feature_views(built@) == feature_views(features@));
            assert forall|i: int| 0 <= i < built@.len() implies (#[trigger] built@[i]).name@
                == features@[i].name@ by {
                assert(feature_views(built@)[i] == built@[i].name@);
                assert(feature_views(features@)[i] == features@[i].name@);
            }
            let kept = step->stage->custom_metadata;
            if custom_metadata is Ok {
                let entries = custom_metadata->Ok_0;
                assert(entry_views(kept->Ok_0@) == entry_views(entries@));
                assert(entry_views(kept->Ok_0@).len() == kept->Ok_0@.len());
                assert(entry_views(entries@).len() == entries@.len());
                assert forall|i: int| 0 <= i < kept->Ok_0@.len() implies (
                #[trigger] kept->Ok_0@[i]).0@ == entries@[i].0@ && kept->Ok_0@[i].1@
                    == entries@[i].1@ by {
                    assert(entry_views(kept->Ok_0@)[i] == (kept->Ok_0@[i].0@, kept->Ok_0@[i].1@));
                    assert(entry_views(entries@)[i] == (entries@[i].0@, entries@[i].1@));
                }
            }
        }
    }
}

/// A request from borrowed lists starts as the request from what these lists are collected to.
pub proof fn law_request_starts_from_its_lists<E>(
    names: Option<&[KernelStringSlice<'_>]>,
    feature_count: usize,
    features: Result<Vec<TableFeature>, Error>,
    allow_protocol_versions_increase: bool,
    entries: Option<&[FfiCommitInfoEntry<'_>]>,
    entry_count: usize,
    custom_metadata: Result<Vec<(String, String)>, Error>,
    step: Step<E>,
    from_parts: Step<E>,
)
    requires
        features_view(features) == requested_features(slices_view(names), feature_count as nat),
        entries_view(custom_metadata) == requested_entries(
            borrowed_entries_view(entries),
            entry_count as nat,
        ),
        step@ == started::<E>(
            requested_features(slices_view(names), feature_count as nat),
            allow_protocol_versions_increase,
            requested_entries(borrowed_entries_view(entries), entry_count as nat),
        ),
        from_parts@ == started::<E>(
            features_view(features),
            allow_protocol_versions_increase,
            entries_view(custom_metadata),
        ),
    ensures
        step@ == from_parts@,
{
}

/// An action that fails ends the request with its error. After the build, refused custom metadata
/// ends it with the refusal, and without custom metadata the commit is next; the commit also
/// follows the commit info row, and a commit that succeeds ends the request with success.
pub proof fn law_reply_decides_how_to_go_on<E>(stage: Stage, reply: Result<(), E>, step: Step<E>)
    requires
        step@ == resumed(stage@, reply),
    ensures
        match (reply, stage) {
            (Err(error), _) => step matches Step::Return(Err(Failure::Kernel(reported))) && reported
                == error,
            (Ok(_), Stage::Building { custom_metadata: Err(error) }) => step matches Step::Return(
                Err(Failure::Rejected(reported)),
            ) && reported@ == error@,
            (Ok(_), Stage::Building { custom_metadata: Ok(entries) }) => {
                entries@.len() == 0 ==> step == (Step::<E>::Perform {
                    stage: Stage::Committing,
                    action: Action::Commit,
                })
            },
            (Ok(_), Stage::CreatingCommitInfo) => step == (Step::<E>::Perform {
                stage: Stage::Committing,
                action: Action::Commit,
            }),
            (Ok(_), Stage::Committing) => step matches Step::Return(Ok(_)),
        },
{
    if let Stage::Building { custom_metadata: Ok(entries) } = stage {
        assert(entry_views(entries@).len() == entries@.len());
    }
}

/// The keys by which a schema tells fields apart are the lower case forms of their names.
proof fn lemma_forms_are_field_keys(names: Seq<Seq<char>>, forms: Seq<Seq<char>>)
    requires
        forms.len() == names.len(),
        forall|i: int|
            0 <= i < names.len() && !is_ascii_chars(names[i]) ==> #[trigger] forms[i]
                == unicode_lowercase(names[i]),
        forall|i: int|
            0 <= i < names.len() && is_ascii_chars(names[i]) ==> names[i].len()
                == (#[trigger] forms[i]).len(),
        forall|i: int, c: int|
            0 <= i < names.len() && is_ascii_chars(names[i]) && 0 <= c < forms[i].len()
                ==> #[trigger] forms[i][c] == if 'A' <= names[i][c] <= 'Z' {
                (names[i][c] as u32 + 32) as char
            } else {
                names[i][c]
            },
    ensures
        field_keys(names, lowered(names)) == forms,
{
    let keys = field_keys(names, lowered(names));
    assert forall|i: int| 0 <= i < names.len() implies keys[i] == forms[i] by {
        if is_ascii_chars(names[i]) {
            assert(keys[i] =~= forms[i]);
        }
    }
    assert(keys =~= forms);
}

/// Fields are told to the kernel one by one and in order, each with its own name and with whether
/// it may be null.
pub proof fn law_fields_are_told_as_they_are(fields: Seq<RowField>)
    ensures
        field_names(fields).len() == fields.len(),
        field_views(fields).len() == fields.len(),
        forall|i: int|
            0 <= i < fields.len() ==> #[trigger] field_names(fields)[i] == fields[i].name@,
        forall|i: int|
            0 <= i < fields.len() ==> #[trigger] field_views(fields)[i] == (
                fields[i].name@,
                "string"@,
                fields[i].nullable,
                Set::<Seq<char>>::empty(),
            ),
{
}

/// Custom entries whose keys differ in lower case are described, once the transaction is built, as
/// one row: for the entry at each position it has a field of that key, a string that may not be
/// null and has no metadata, and at the same position the value of that entry.
pub proof fn law_entries_become_a_row<E>(
    entries: Vec<(String, String)>,
    forms: Seq<Seq<char>>,
    step: Step<E>,
)
    requires
        entries@.len() > 0,
        forms.len() == entries@.len(),
        forall|i: int|
            0 <= i < entries@.len() && !is_ascii_chars(entries@[i].0@) ==> #[trigger] forms[i]
                == unicode_lowercase(entries@[i].0@),
        forall|i: int|
            0 <= i < entries@.len() && is_ascii_chars(entries@[i].0@) ==> entries@[i].0@.len()
                == (#[trigger] forms[i]).len(),
        forall|i: int, c: int|
            0 <= i < entries@.len() && is_ascii_chars(entries@[i].0@) && 0 <= c < forms[i].len()
                ==> #[trigger] forms[i][c] == if 'A' <= entries@[i].0@[c] <= 'Z' {
                (entries@[i].0@[c] as u32 + 32) as char
            } else {
                entries@[i].0@[c]
            },
        forall|i: int, j: int|
            0 <= i < j < forms.len() ==> #[trigger] forms[i] != #[trigger] forms[j],
        step@ == resumed::<E>((Stage::Building { custom_metadata: Ok(entries) })@, Ok(())),
    ensures
        step matches Step::Perform {
            stage: Stage::CreatingCommitInfo,
            action: Action::CreateCommitInfo { schema, values },
        } && {
            &&& schema_fields(schema).len() == entries@.len()
            &&& values@.len() == entries@.len()
            &&& forall|i: int|
                0 <= i < entries@.len() ==> #[trigger] schema_fields(schema)[i] == (
                    entries@[i].0@,
                    "string"@,
                    false,
                    Set::<Seq<char>>::empty(),
                )
            &&& forall|i: int|
                0 <= i < entries@.len() ==> (#[trigger] values@[i])@ == entries@[i].1@
        },
{
    let views = entry_views(entries@);
    let names = entry_keys(views);
    assert(forall|i: int| 0 <= i < names.len() ==> #[trigger] names[i] == entries@[i].0@);
    lemma_forms_are_field_keys(names, forms);
    lemma_no_repeat(names);
    assert(rejected_name(names, lowered(names)) is None);
    let values = step->action->values;
    assert(values.deep_view() == entry_values(views));
    assert(values.deep_view().len() == values@.len());
    assert forall|i: int| 0 <= i < entries@.len() implies (#[trigger] values@[i])@
        == entries@[i].1@ by {
        assert(values.deep_view()[i] == values@[i]@);
        assert(views[i].1 == entries@[i].1@);
    }
}

/// Custom entries of which two keys agree in lower case are refused once the transaction is built,
/// with a message that holds the first key that agrees with an earlier one.
pub proof fn law_keys_alike_make_no_row<E>(
    entries: Vec<(String, String)>,
    forms: Seq<Seq<char>>,
    earlier: int,
    later: int,
    step: Step<E>,
)
    requires
        forms.len() == entries@.len(),
        forall|i: int|
            0 <= i < entries@.len() && !is_ascii_chars(entries@[i].0@) ==> #[trigger] forms[i]
                == unicode_lowercase(entries@[i].0@),
        forall|i: int|
            0 <= i < entries@.len() && is_ascii_chars(entries@[i].0@) ==> entries@[i].0@.len()
                == (#[trigger] forms[i]).len(),
        forall|i: int, c: int|
            0 <= i < entries@.len() && is_ascii_chars(entries@[i].0@) && 0 <= c < forms[i].len()
                ==> #[trigger] forms[i][c] == if 'A' <= entries@[i].0@[c] <= 'Z' {
                (entries@[i].0@[c] as u32 + 32) as char
            } else {
                entries@[i].0@[c]
            },
        0 <= earlier < later < forms.len(),
        forms[earlier] == forms[later],
        forall|i: int, j: int|
            0 <= i < j < later ==> #[trigger] forms[i] != #[trigger] forms[j],
        step@ == resumed::<E>((Stage::Building { custom_metadata: Ok(entries) })@, Ok(())),
    ensures
        step matches Step::Return(Err(Failure::Rejected(Error::Schema(message)))) && message@
            == "Duplicate field name (case-insensitive): '"@ + entries@[later].0@ + "'"@,
{
    let views = entry_views(entries@);
    let names = entry_keys(views);
    assert(forall|i: int| 0 <= i < names.len() ==> #[trigger] names[i] == entries@[i].0@);
    lemma_forms_are_field_keys(names, forms);
    assert(key_repeats(forms, later));
    assert forall|k: int| 0 <= k < later implies !#[trigger] key_repeats(forms, k) by {
        if key_repeats(forms, k) {
            let j = choose|j: int| 0 <= j < k && #[trigger] forms[j] == forms[k];
            assert(forms[j] != forms[k]);
        }
    }
    assert(first_repeat(forms, later));
    lemma_first_repeat_unique(forms, later);
}

/// A schema is handed on with its values as they are, and the message about one that is refused is
/// reported as it is.
pub proof fn law_schema_is_handed_on<E>(
    schema: Result<StructType, String>,
    values: Vec<String>,
    step: Step<E>,
)
    requires
        step@ == match schema {
            Ok(schema) => StepView::<E>::Perform {
                stage: StageView::CreatingCommitInfo,
                action: ActionView::CreateCommitInfo {
                    fields: schema_fields(schema),
                    values: values.deep_view(),
                },
            },
            Err(message) => StepView::Return(
                Err(FailureView::Rejected(ErrorView::Schema(message@))),
            ),
        },
    ensures
        match schema {
            Ok(schema) => step matches Step::Perform {
                stage: Stage::CreatingCommitInfo,
                action: Action::CreateCommitInfo { schema: described, values: row },
            } && {
                &&& schema_fields(described) == schema_fields(schema)
                &&& row@.len() == values@.len()
                &&& forall|i: int| 0 <= i < row@.len() ==> (#[trigger] row@[i])@ == values@[i]@
            },
            Err(message) => step matches Step::Return(
                Err(Failure::Rejected(Error::Schema(reported))),
            ) && reported@ == message@,
        },
{
    if schema is Ok {
        let row = step->action->values;
        assert(row.deep_view() == values.deep_view());
        assert(row.deep_view().len() == row@.len() && values.deep_view().len() == values@.len());
        assert forall|i: int| 0 <= i < row@.len() implies (#[trigger] row@[i])@ == values@[i]@ by {
            assert(row.deep_view()[i] == row@[i]@);
            assert(values.deep_view()[i] == values@[i]@);
        }
    }
}

/// From borrowed memory to the commit: feature names that are text, known to the kernel and all
/// different, with entries of text whose keys differ in lower case, are built as the features of
/// these names, in order and with the caller's flag, described as a row of these keys and values,
/// in order, and committed; where each action succeeds, so does the request.
pub proof fn law_borrowed_request_is_committed<E>(
    slices: &[KernelStringSlice<'_>],
    feature_count: usize,
    names: Seq<Seq<char>>,
    allow_protocol_versions_increase: bool,
    entries: &[FfiCommitInfoEntry<'_>],
    entry_count: usize,
    keys: Seq<Seq<char>>,
    values: Seq<Seq<char>>,
    forms: Seq<Seq<char>>,
    first: Step<E>,
    second: Step<E>,
    third: Step<E>,
    last: Step<E>,
)
    requires
        0 < feature_count <= slices@.len(),
        names.len() == feature_count,
        forall|i: int|
            0 <= i < feature_count ==> match (#[trigger] slices@[i]).ptr {
                None => slices@[i].len == 0 && names[i].len() == 0,
                Some(bytes) => encode_utf8(names[i]) == bytes@.take(slices@[i].len as int),
            },
        forall|i: int| 0 <= i < feature_count ==> kernel_feature(#[trigger] names[i]) is Some,
        forall|i: int, j: int|
            0 <= i < j < feature_count ==> #[trigger] names[i] != #[trigger] names[j],
        0 < entry_count <= entries@.len(),
        keys.len() == entry_count,
        values.len() == entry_count,
        forms.len() == entry_count,
        forall|i: int|
            0 <= i < entry_count ==> match (#[trigger] entries@[i]).key.ptr {
                None => entries@[i].key.len == 0 && keys[i].len() == 0,
                Some(bytes) => encode_utf8(keys[i]) == bytes@.take(entries@[i].key.len as int),
            },
        forall|i: int|
            0 <= i < entry_count ==> match (#[trigger] entries@[i]).value.ptr {
                None => entries@[i].value.len == 0 && values[i].len() == 0,
                Some(bytes) => encode_utf8(values[i]) == bytes@.take(entries@[i].value.len as int),
            },
        forall|i: int|
            0 <= i < entry_count && !is_ascii_chars(keys[i]) ==> #[trigger] forms[i]
                == unicode_lowercase(keys[i]),
        forall|i: int|
            0 <= i < entry_count && is_ascii_chars(keys[i]) ==> keys[i].len()
                == (#[trigger] forms[i]).len(),
        forall|i: int, c: int|
            0 <= i < entry_count && is_ascii_chars(keys[i]) && 0 <= c < forms[i].len()
                ==> #[trigger] forms[i][c] == if 'A' <= keys[i][c] <= 'Z' {
                (keys[i][c] as u32 + 32) as char
            } else {
                keys[i][c]
            },
        forall|i: int, j: int|
            0 <= i < j < entry_count ==> #[trigger] forms[i] != #[trigger] forms[j],
        first@ == started::<E>(
            requested_features(slices_view(Some(slices)), feature_count as nat),
            allow_protocol_versions_increase,
            requested_entries(borrowed_entries_view(Some(entries)), entry_count as nat),
        ),
        first matches Step::Perform { stage, .. } ==> second@ == resumed::<E>(stage@, Ok(())),
        second matches Step::Perform { stage, .. } ==> third@ == resumed::<E>(stage@, Ok(())),
        third matches Step::Perform { stage, .. } ==> last@ == resumed::<E>(stage@, Ok(())),
    ensures
        first matches Step::Perform {
            stage: Stage::Building { .. },
            action: Action::Build { features, allow_protocol_versions_increase: allowed },
        } && {
            &&& allowed == allow_protocol_versions_increase
            &&& features@.len() == feature_count
            &&& forall|i: int|
                0 <= i < feature_count ==> kernel_feature(names[i]) == Some(
                    (#[trigger] features@[i]).name@,
                )
        },
        second matches Step::Perform {
            stage: Stage::CreatingCommitInfo,
            action: Action::CreateCommitInfo { schema, values: row },
        } && {
            &&& schema_fields(schema).len() == entry_count
            &&& row@.len() == entry_count
            &&& forall|i: int|
                0 <= i < entry_count ==> #[trigger] schema_fields(schema)[i] == (
                    keys[i],
                    "string"@,
                    false,
                    Set::<Seq<char>>::empty(),
                )
            &&& forall|i: int| 0 <= i < entry_count ==> (#[trigger] row@[i])@ == values[i]
        },
        third == (Step::<E>::Perform { stage: Stage::Committing, action: Action::Commit }),
        last matches Step::Return(Ok(_)),
{
    lemma_features_of_names(slices, feature_count, names);
    lemma_forms_are_field_keys(keys, forms);
    assert forall|i: int, j: int| 0 <= i < j < entry_count implies #[trigger] keys[i]
        != #[trigger] keys[j] by {
        let apart = field_keys(keys, lowered(keys));
        assert(apart[i] == forms[i] && apart[j] == forms[j]);
    }
    lemma_copies_of_entries(entries, entry_count, keys, values);
    let features = first->action->features;
    assert forall|i: int| 0 <= i < feature_count implies kernel_feature(names[i]) == Some(
        (#[trigger] features@[i]).name@,
    ) by {
        assert(feature_views(features@)[i] == features@[i].name@);
    }
    let copies = first->stage->custom_metadata->Ok_0;
    assert(entry_views(copies@).len() == copies@.len());
    assert forall|i: int| 0 <= i < entry_count implies (#[trigger] copies@[i]).0@ == keys[i]
        && copies@[i].1@ == values[i] by {
        assert(entry_views(copies@)[i] == (copies@[i].0@, copies@[i].1@));
    }
    law_entries_become_a_row(copies, forms, second);
}

/// From borrowed memory to the commit without custom metadata: nothing stands between the build and
/// the commit.
pub proof fn law_borrowed_request_without_metadata_is_committed<E>(
    slices: &[KernelStringSlice<'_>],
    feature_count: usize,
    names: Seq<Seq<char>>,
    allow_protocol_versions_increase: bool,
    entries: Option<&[FfiCommitInfoEntry<'_>]>,
    first: Step<E>,
    second: Step<E>,
    last: Step<E>,
)
    requires
        0 < feature_count <= slices@.len(),
        names.len() == feature_count,
        forall|i: int|
            0 <= i < feature_count ==> match (#[trigger] slices@[i]).ptr {
                None => slices@[i].len == 0 && names[i].len() == 0,
                Some(bytes) => encode_utf8(names[i]) == bytes@.take(slices@[i].len as int),
            },
        forall|i: int| 0 <= i < feature_count ==> kernel_feature(#[trigger] names[i]) is Some,
        forall|i: int, j: int|
            0 <= i < j < feature_count ==> #[trigger] names[i] != #[trigger] names[j],
        first@ == started::<E>(
            requested_features(slices_view(Some(slices)), feature_count as nat),
            allow_protocol_versions_increase,
            requested_entries(borrowed_entries_view(entries), 0),
        ),
        first matches Step::Perform { stage, .. } ==> second@ == resumed::<E>(stage@, Ok(())),
        second matches Step::Perform { stage, .. } ==> last@ == resumed::<E>(stage@, Ok(())),
    ensures
        first matches Step::Perform {
            stage: Stage::Building { .. },
            action: Action::Build { features, allow_protocol_versions_increase: allowed },
        } && {
            &&& allowed == allow_protocol_versions_increase
            &&& features@.len() == feature_count
            &&& forall|i: int|
                0 <= i < feature_count ==> kernel_feature(names[i]) == Some(
                    (#[trigger] features@[i]).name@,
                )
        },
        second == (Step::<E>::Perform { stage: Stage::Committing, action: Action::Commit }),
        last matches Step::Return(Ok(_)),
{
    lemma_features_of_names(slices, feature_count, names);
    let features = first->action->features;
    assert forall|i: int| 0 <= i < feature_count implies kernel_feature(names[i]) == Some(
        (#[trigger] features@[i]).name@,
    ) by {
        assert(feature_views(features@)[i] == features@[i].name@);
    }
}

} // verus!
