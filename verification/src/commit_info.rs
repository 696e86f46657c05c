//! The custom entries of the commit info.
use vstd::hash_set::StringHashSet;
use vstd::prelude::*;
use vstd::string::*;

use crate::collect::{collected, lemma_collected_error, lemma_collected_next};
use crate::error::{Error, ErrorView};
use crate::text::{
    copied_before, copied_string, copy_borrowed_string, KernelStringSlice, StringSliceView,
};

verus! {

/// A borrowed custom commit info entry. Key and value are copied and not kept.
#[derive(Debug, Clone, Copy)]
pub struct FfiCommitInfoEntry<'a> {
    pub key: KernelStringSlice<'a>,
    pub value: KernelStringSlice<'a>,
}

/// The mathematical content of an [`FfiCommitInfoEntry`].
pub struct CommitInfoEntryView {
    pub key: StringSliceView,
    pub value: StringSliceView,
}

impl<'a> View for FfiCommitInfoEntry<'a> {
    type V = CommitInfoEntryView;

    open spec fn view(&self) -> CommitInfoEntryView {
        CommitInfoEntryView { key: self.key@, value: self.value@ }
    }
}

/// The content of a list of borrowed entries, or nothing for a null pointer.
pub open spec fn borrowed_entries_view(entries: Option<&[FfiCommitInfoEntry<'_>]>) -> Option<
    Seq<CommitInfoEntryView>,
> {
    match entries {
        None => None,
        Some(entries) => Some(entries@.map_values(|entry: FfiCommitInfoEntry<'_>| entry@)),
    }
}

/// A pointer that is not null reaches `count` entries, each of which is readable.
pub open spec fn entries_readable(entries: Option<&[FfiCommitInfoEntry<'_>]>, count: nat) -> bool {
    entries matches Some(entries) ==> {
        &&& count <= entries@.len()
        &&& forall|i: int|
            0 <= i < count ==> (#[trigger] entries@[i]).key.readable()
                && entries@[i].value.readable()
    }
}

/// Keys and values of copied entries, in order.
pub open spec fn entry_views(entries: Seq<(String, String)>) -> Seq<(Seq<char>, Seq<char>)> {
    entries.map_values(|entry: (String, String)| (entry.0@, entry.1@))
}

/// The content of the answer to a list of entries.
pub open spec fn entries_view(res: Result<Vec<(String, String)>, Error>) -> Result<
    Seq<(Seq<char>, Seq<char>)>,
    ErrorView,
> {
    match res {
        Ok(entries) => Ok(entry_views(entries@)),
        Err(error) => Err(error@),
    }
}

/// The refusal of a key that an earlier entry has.
pub open spec fn duplicate_key_error(key: Seq<char>) -> ErrorView {
    ErrorView::Generic("duplicate custom metadata key: "@ + key)
}

/// The refusal of a null list that is said to hold entries.
pub open spec fn null_entries_error() -> ErrorView {
    ErrorView::Generic("custom_metadata must not be null when custom_metadata_count is nonzero"@)
}

/// The keys of borrowed entries.
pub open spec fn borrowed_keys(entries: Seq<CommitInfoEntryView>) -> Seq<StringSliceView> {
    entries.map_values(|entry: CommitInfoEntryView| entry.key)
}

/// What becomes of the entry at position `i` of a list: its key must be text and new, and its value
/// must be text.
pub open spec fn entry_outcome(entries: Seq<CommitInfoEntryView>, i: int) -> Result<
    (Seq<char>, Seq<char>),
    ErrorView,
> {
    match copied_string(entries[i].key, "custom metadata key"@) {
        Err(error) => Err(error),
        Ok(key) => if copied_before(borrowed_keys(entries), "custom metadata key"@, i, key) {
            Err(duplicate_key_error(key))
        } else {
            match copied_string(entries[i].value, "custom metadata value"@) {
                Err(error) => Err(error),
                Ok(value) => Ok((key, value)),
            }
        },
    }
}

/// What becomes of each of the first `count` entries.
pub open spec fn entry_outcomes(entries: Seq<CommitInfoEntryView>, count: nat) -> Seq<
    Result<(Seq<char>, Seq<char>), ErrorView>,
> {
    Seq::new(count, |i: int| entry_outcome(entries, i))
}

/// The copies of the first `count` of `entries`, or why the list is refused.
pub open spec fn requested_entries(
    entries: Option<Seq<CommitInfoEntryView>>,
    count: nat,
) -> Result<Seq<(Seq<char>, Seq<char>)>, ErrorView> {
    if count == 0 {
        Ok(Seq::empty())
    } else {
        match entries {
            None => Err(null_entries_error()),
            Some(entries) => collected(entry_outcomes(entries, count)),
        }
    }
}

/// Copies the custom entries. No two of them may have the same key.
pub fn collect_commit_info_entries(
    entries: Option<&[FfiCommitInfoEntry<'_>]>,
    entry_count: usize,
) -> (res: Result<Vec<(String, String)>, Error>)
    requires
        entries_readable(entries, entry_count as nat),
    ensures
        entries_view(res) == requested_entries(borrowed_entries_view(entries), entry_count as nat),
{
    if entry_count == 0 {
        let copies: Vec<(String, String)> = Vec::new();
        assert(entry_views(copies@) == Seq::<(Seq<char>, Seq<char>)>::empty());
        return Ok(copies);
    }
    let borrowed = match entries {
        None => {
            return Err(
                Error::Generic(
                    "custom_metadata must not be null when custom_metadata_count is nonzero".to_owned(),
                ),
            );
        },
        Some(borrowed) => borrowed,
    };
    let ghost contents = borrowed_entries_view(entries)->Some_0;
    let ghost outcomes = entry_outcomes(contents, entry_count as nat);
    let mut keys = StringHashSet::new();
    let mut copies: Vec<(String, String)> = Vec::new();
    let mut i: usize = 0;
    proof {
        assert(outcomes.take(0) == Seq::<Result<(Seq<char>, Seq<char>), ErrorView>>::empty());
        assert(entry_views(copies@) == Seq::<(Seq<char>, Seq<char>)>::empty());
    }
    while i < entry_count
        invariant
            i <= entry_count <= borrowed@.len(),
            entries == Some(borrowed),
            entries_readable(entries, entry_count as nat),
            borrowed_entries_view(entries) == Some(contents),
            outcomes == entry_outcomes(contents, entry_count as nat),
            forall|key: Seq<char>|
                keys@.contains(key) <==> copied_before(
                    borrowed_keys(contents),
                    "custom metadata key"@,
                    i as int,
                    key,
                ),
            collected(outcomes.take(i as int)) == Ok::<_, ErrorView>(entry_views(copies@)),
        decreases entry_count - i,
    {
        let entry = &borrowed[i];
        proof {
            lemma_collected_next(outcomes, i as int);
            assert(contents[i as int] == entry@);
            if outcomes[i as int] is Err {
                lemma_collected_error(outcomes, i + 1);
            }
        }
        let key = match copy_borrowed_string(&entry.key, "custom metadata key") {
            Ok(key) => key,
            Err(error) => {
                return Err(error);
            },
        };
        let ghost keys_before = keys@;
        if !keys.insert(key.clone()) {
            let mut message = "duplicate custom metadata key: ".to_owned();
            message.append(key.as_str());
            return Err(Error::Generic(message));
        }
        let value = match copy_borrowed_string(&entry.value, "custom metadata value") {
            Ok(value) => value,
            Err(error) => {
                return Err(error);
            },
        };
        let ghost copies_before = copies@;
        let ghost copied = (key@, value@);
        let ghost key_slices = borrowed_keys(contents);
        proof {
            assert(key_slices[i as int] == entry.key@);
            assert forall|other: Seq<char>|
                keys@.contains(other) <==> copied_before(
                    key_slices,
                    "custom metadata key"@,
                    i + 1,
                    other,
                ) by {
                if copied_before(key_slices, "custom metadata key"@, i as int, other) {
                    assert(keys_before.contains(other));
                }
                if other == key@ {
                    assert(copied_string(key_slices[i as int], "custom metadata key"@) == Ok::<
                        _,
                        ErrorView,
                    >(other));
                }
            }
        }
        copies.push((key, value));
        assert(entry_views(copies@) == entry_views(copies_before).push(copied));
        i += 1;
    }
    assert(outcomes.take(entry_count as int) == outcomes);
    Ok(copies)
}

} // verus!
