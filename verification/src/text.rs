//! Borrowed strings and their copies.
use vstd::prelude::*;
use vstd::slice::slice_subrange;
use vstd::string::*;
use vstd::utf8::*;

use crate::error::{result_view, Error, ErrorView};
use crate::kernel::{ends_valid_prefix, text_from_utf8, utf8_error_len, utf8_failure};

verus! {

/// A borrowed string: where its bytes start, or nothing for a null pointer, and its declared
/// length.
#[derive(Debug, Clone, Copy)]
pub struct KernelStringSlice<'a> {
    pub ptr: Option<&'a [u8]>,
    pub len: usize,
}

/// The mathematical content of a [`KernelStringSlice`].
pub enum StringSliceView {
    /// A null pointer with a declared length.
    Null { len: nat },
    /// The bytes of the declared length.
    Bytes(Seq<u8>),
}

impl<'a> View for KernelStringSlice<'a> {
    type V = StringSliceView;

    open spec fn view(&self) -> StringSliceView {
        match self.ptr {
            None => StringSliceView::Null { len: self.len as nat },
            Some(bytes) => StringSliceView::Bytes(bytes@.take(self.len as int)),
        }
    }
}

impl<'a> KernelStringSlice<'a> {
    /// A pointer that is not null reaches as many bytes as the length declares.
    pub open spec fn readable(&self) -> bool {
        self.ptr matches Some(bytes) ==> self.len <= bytes@.len()
    }
}

/// The content of a list of borrowed strings, or nothing for a null pointer.
pub open spec fn slices_view(slices: Option<&[KernelStringSlice<'_>]>) -> Option<
    Seq<StringSliceView>,
> {
    match slices {
        None => None,
        Some(slices) => Some(slices@.map_values(|slice: KernelStringSlice<'_>| slice@)),
    }
}

/// A pointer that is not null reaches `count` strings, each of which is readable.
pub open spec fn slices_readable(slices: Option<&[KernelStringSlice<'_>]>, count: nat) -> bool {
    slices matches Some(slices) ==> {
        &&& count <= slices@.len()
        &&& forall|i: int| 0 <= i < count ==> (#[trigger] slices@[i]).readable()
    }
}

/// The length of the longest prefix of `bytes` that is UTF-8.
pub open spec fn valid_prefix_len(bytes: Seq<u8>) -> nat {
    (choose|end: int| ends_valid_prefix(bytes, end)) as nat
}

/// The refusal of a null pointer with a length, where `field_name` says what the string is for.
pub open spec fn null_string_error(field_name: Seq<char>) -> ErrorView {
    ErrorView::Generic(field_name + " must not be null when its length is nonzero"@)
}

/// The string that `slice` stands for, or why it stands for none.
pub open spec fn copied_string(slice: StringSliceView, field_name: Seq<char>) -> Result<
    Seq<char>,
    ErrorView,
> {
    match slice {
        StringSliceView::Null { len } => if len == 0 {
            Ok(Seq::empty())
        } else {
            Err(null_string_error(field_name))
        },
        StringSliceView::Bytes(bytes) => if valid_utf8(bytes) {
            Ok(decode_utf8(bytes))
        } else {
            Err(
                ErrorView::Utf8 {
                    valid_up_to: valid_prefix_len(bytes),
                    error_len: utf8_error_len(bytes),
                    source: utf8_failure(bytes),
                },
            )
        },
    }
}

/// `text` is what one of the slices before `end` stands for.
pub open spec fn copied_before(
    slices: Seq<StringSliceView>,
    field_name: Seq<char>,
    end: int,
    text: Seq<char>,
) -> bool {
    exists|j: int| 0 <= j < end && copied_string(#[trigger] slices[j], field_name) == Ok::<_, ErrorView>(text)
}

/// A byte sequence has one longest valid prefix.
pub proof fn lemma_valid_prefix_len(bytes: Seq<u8>, end: int)
    requires
        ends_valid_prefix(bytes, end),
    ensures
        valid_prefix_len(bytes) == end,
{
    let other = choose|other: int| ends_valid_prefix(bytes, other);
    assert(ends_valid_prefix(bytes, other));
    assert(valid_utf8(bytes.take(other)) && valid_utf8(bytes.take(end)));
}

/// Copies a borrowed string. A null pointer stands for the empty string, and for nothing else.
pub fn copy_borrowed_string(slice: &KernelStringSlice<'_>, field_name: &str) -> (res: Result<
    String,
    Error,
>)
    requires
        slice.readable(),
    ensures
        result_view(res) == copied_string(slice@, field_name@),
        slice.ptr matches Some(bytes) ==> {
            &&& res is Ok <==> valid_utf8(bytes@.take(slice.len as int))
            &&& res matches Ok(text) ==> encode_utf8(text@) == bytes@.take(slice.len as int)
        },
        res matches Err(Error::Utf8(failure)) ==> match failure.error_len {
            Some(len) => 0 < len && failure.valid_up_to + len <= slice.len,
            None => 1 <= slice.len - failure.valid_up_to <= 3,
        },
{
    match slice.ptr {
        None => {
            if slice.len == 0 {
                return Ok(String::new());
            }
            let mut message = field_name.to_owned();
            message.append(" must not be null when its length is nonzero");
            Err(Error::Generic(message))
        },
        Some(bytes) => {
            let readable = slice_subrange(bytes, 0, slice.len);
            assert(readable@ == bytes@.take(slice.len as int));
            match text_from_utf8(readable) {
                Ok(text) => {
                    proof {
                        decode_utf8_encode_utf8(readable@);
                    }
                    Ok(text)
                },
                Err(failure) => {
                    proof {
                        lemma_valid_prefix_len(readable@, failure.valid_up_to as int);
                    }
                    Err(Error::Utf8(failure))
                },
            }
        },
    }
}

} // verus!
