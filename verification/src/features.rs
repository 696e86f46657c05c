//! The table features that a request names.
use vstd::hash_set::StringHashSet;
use vstd::prelude::*;
use vstd::string::*;

use crate::collect::{collected, lemma_collected_error, lemma_collected_next};
use crate::error::{result_view, Error, ErrorView};
use crate::kernel::{kernel_feature, kernel_feature_name};
use crate::text::{
    copied_before, copied_string, copy_borrowed_string, slices_readable, slices_view,
    KernelStringSlice, StringSliceView,
};

verus! {

/// A table feature, by the name under which the kernel writes it.
#[derive(Debug, PartialEq, Eq)]
pub struct TableFeature {
    pub name: String,
}

impl View for TableFeature {
    type V = Seq<char>;

    open spec fn view(&self) -> Seq<char> {
        self.name@
    }
}

/// The names of `features`, in order.
pub open spec fn feature_views(features: Seq<TableFeature>) -> Seq<Seq<char>> {
    features.map_values(|feature: TableFeature| feature@)
}

/// The content of the answer to a list of feature names.
pub open spec fn features_view(res: Result<Vec<TableFeature>, Error>) -> Result<
    Seq<Seq<char>>,
    ErrorView,
> {
    match res {
        Ok(features) => Ok(feature_views(features@)),
        Err(error) => Err(error@),
    }
}

/// The refusal of a name that was asked for before.
pub open spec fn duplicate_feature_error(name: Seq<char>) -> ErrorView {
    ErrorView::Generic("duplicate requested table feature name: "@ + name)
}

/// The refusal of a name that the kernel does not know.
pub open spec fn unknown_feature_error(name: Seq<char>) -> ErrorView {
    ErrorView::Unsupported(
        "Table feature '"@ + name
            + "' has an unknown feature type and is unsupported for addition"@,
    )
}

/// The refusal of a null list that is said to hold names.
pub open spec fn null_features_error() -> ErrorView {
    ErrorView::Generic("feature_names must not be null when feature_count is nonzero"@)
}

/// What becomes of one name: it must be asked for once and be known to the kernel.
pub open spec fn admitted_feature(
    name: Seq<char>,
    first_request: bool,
    known: Option<Seq<char>>,
) -> Result<Seq<char>, ErrorView> {
    if !first_request {
        Err(duplicate_feature_error(name))
    } else {
        match known {
            None => Err(unknown_feature_error(name)),
            Some(feature) => Ok(feature),
        }
    }
}

/// What becomes of the name at position `i` of a list.
pub open spec fn feature_outcome(names: Seq<StringSliceView>, i: int) -> Result<
    Seq<char>,
    ErrorView,
> {
    match copied_string(names[i], "feature name"@) {
        Err(error) => Err(error),
        Ok(name) => admitted_feature(
            name,
            !copied_before(names, "feature name"@, i, name),
            kernel_feature(name),
        ),
    }
}

/// What becomes of each of the first `count` names.
pub open spec fn feature_outcomes(names: Seq<StringSliceView>, count: nat) -> Seq<
    Result<Seq<char>, ErrorView>,
> {
    Seq::new(count, |i: int| feature_outcome(names, i))
}

/// The features that the first `count` of `names` ask for, or why the list is refused.
pub open spec fn requested_features(names: Option<Seq<StringSliceView>>, count: nat) -> Result<
    Seq<Seq<char>>,
    ErrorView,
> {
    if count == 0 {
        Ok(Seq::empty())
    } else {
        match names {
            None => Err(null_features_error()),
            Some(names) => collected(feature_outcomes(names, count)),
        }
    }
}

/// Decides on one name. `first_request` says that no earlier name was the same, and `kernel_name`
/// is the kernel's own name for the feature, or `None` where the kernel knows no such feature.
pub fn admit_table_feature(name: &str, first_request: bool, kernel_name: Option<String>) -> (res:
    Result<TableFeature, Error>)
    ensures
        result_view(res) == admitted_feature(
            name@,
            first_request,
            match kernel_name {
                Some(known) => Some(known@),
                None => None,
            },
        ),
{
    if !first_request {
        let mut message = "duplicate requested table feature name: ".to_owned();
        message.append(name);
        return Err(Error::Generic(message));
    }
    match kernel_name {
        None => {
            let mut message = "Table feature '".to_owned();
            message.append(name);
            message.append("' has an unknown feature type and is unsupported for addition");
            Err(Error::Unsupported(message))
        },
        Some(known) => Ok(TableFeature { name: known }),
    }
}

/// Copies the requested names and turns each into a feature that the kernel knows.
pub fn collect_table_features(
    feature_names: Option<&[KernelStringSlice<'_>]>,
    feature_count: usize,
) -> (res: Result<Vec<TableFeature>, Error>)
    requires
        slices_readable(feature_names, feature_count as nat),
    ensures
        features_view(res) == requested_features(slices_view(feature_names), feature_count as nat),
        res matches Ok(features) ==> forall|i: int|
            0 <= i < features@.len() ==> kernel_feature(#[trigger] features@[i]@) == Some(
                features@[i]@,
            ),
{
    if feature_count == 0 {
        let features: Vec<TableFeature> = Vec::new();
        assert(feature_views(features@) == Seq::<Seq<char>>::empty());
        return Ok(features);
    }
    let slices = match feature_names {
        None => {
            return Err(
                Error::Generic(
                    "feature_names must not be null when feature_count is nonzero".to_owned(),
                ),
            );
        },
        Some(slices) => slices,
    };
    let ghost names = slices_view(feature_names)->Some_0;
    let ghost outcomes = feature_outcomes(names, feature_count as nat);
    let mut requested_names = StringHashSet::new();
    let mut features: Vec<TableFeature> = Vec::new();
    let mut i: usize = 0;
    proof {
        assert(outcomes.take(0) == Seq::<Result<Seq<char>, ErrorView>>::empty());
        assert(feature_views(features@) == Seq::<Seq<char>>::empty());
    }
    while i < feature_count
        invariant
            i <= feature_count <= slices@.len(),
            feature_names == Some(slices),
            slices_readable(feature_names, feature_count as nat),
            slices_view(feature_names) == Some(names),
            outcomes == feature_outcomes(names, feature_count as nat),
            forall|name: Seq<char>|
                requested_names@.contains(name) <==> copied_before(
                    names,
                    "feature name"@,
                    i as int,
                    name,
                ),
            collected(outcomes.take(i as int)) == Ok::<_, ErrorView>(feature_views(features@)),
            forall|j: int|
                0 <= j < features@.len() ==> kernel_feature(#[trigger] features@[j]@) == Some(
                    features@[j]@,
                ),
        decreases feature_count - i,
    {
        let slice = &slices[i];
        proof {
            lemma_collected_next(outcomes, i as int);
            assert(names[i as int] == slice@);
            if outcomes[i as int] is Err {
                lemma_collected_error(outcomes, i + 1);
            }
        }
        let name = match copy_borrowed_string(slice, "feature name") {
            Ok(name) => name,
            Err(error) => {
                return Err(error);
            },
        };
        let ghost requested_before = requested_names@;
        let kernel_name = kernel_feature_name(&name);
        let first_request = requested_names.insert(name.clone());
        let feature = match admit_table_feature(name.as_str(), first_request, kernel_name) {
            Ok(feature) => feature,
            Err(error) => {
                return Err(error);
            },
        };
        let ghost features_before = features@;
        features.push(feature);
        proof {
            assert(feature_views(features@) == feature_views(features_before).push(feature@));
            assert forall|other: Seq<char>|
                requested_names@.contains(other) <==> copied_before(
                    names,
                    "feature name"@,
                    i + 1,
                    other,
                ) by {
                if copied_before(names, "feature name"@, i as int, other) {
                    assert(requested_before.contains(other));
                }
                if other == name@ {
                    assert(copied_string(names[i as int], "feature name"@) == Ok::<_, ErrorView>(
                        other,
                    ));
                }
            }
        }
        i += 1;
    }
    assert(outcomes.take(feature_count as int) == outcomes);
    Ok(features)
}

} // verus!
