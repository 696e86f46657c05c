//! What is taken on trust: the standard library's UTF-8 decoder and two computations of
//! `delta_kernel`.
use vstd::prelude::*;
use vstd::utf8::*;

use delta_kernel::schema::{DataType, StructField, StructType};
use delta_kernel::table_features::TableFeature;

use crate::error::InvalidUtf8;

verus! {

/// The error value of [`std::str::from_utf8`]: carried through to the caller.
#[verifier::external_type_specification]
#[verifier::external_body]
pub struct ExUtf8Error(std::str::Utf8Error);

/// `end` is where the longest prefix of `bytes` that is UTF-8 ends.
pub open spec fn ends_valid_prefix(bytes: Seq<u8>, end: int) -> bool {
    &&& 0 <= end <= bytes.len()
    &&& valid_utf8(bytes.take(end))
    &&& forall|longer: int| end < longer <= bytes.len() ==> !valid_utf8(#[trigger] bytes.take(longer))
}

/// What [`std::str::Utf8Error::error_len`] answers for `bytes` that are not UTF-8.
pub uninterp spec fn utf8_error_len(bytes: Seq<u8>) -> Option<nat>;

/// The error value with which [`std::str::from_utf8`] refuses `bytes` that are not UTF-8.
pub uninterp spec fn utf8_failure(bytes: Seq<u8>) -> std::str::Utf8Error;

/// Calls [`std::str::from_utf8`] and copies the text out of its answer.
///
/// Claimed: it accepts exactly the byte sequences that are UTF-8, and gives the characters that
/// they encode. Its error value is a function of the bytes alone. Of what that value answers,
/// `valid_up_to` ends the longest valid prefix; `error_len` is a function of the bytes too, `None`
/// only one to three bytes before the end, and otherwise the length of a sequence inside the input.
#[verifier::external_body]
pub(crate) fn text_from_utf8(bytes: &[u8]) -> (res: Result<String, InvalidUtf8>)
    ensures
        match res {
            Ok(text) => valid_utf8(bytes@) && text@ == decode_utf8(bytes@),
            Err(failure) => {
                &&& !valid_utf8(bytes@)
                &&& ends_valid_prefix(bytes@, failure.valid_up_to as int)
                &&& failure@->error_len == utf8_error_len(bytes@)
                &&& failure.source == utf8_failure(bytes@)
                &&& match failure.error_len {
                    Some(len) => 0 < len && failure.valid_up_to + len <= bytes@.len(),
                    None => 1 <= bytes@.len() - failure.valid_up_to <= 3,
                }
            },
        },
{
    match std::str::from_utf8(bytes) {
        Ok(text) => Ok(text.to_owned()),
        Err(source) => Err(
            InvalidUtf8 {
                valid_up_to: source.valid_up_to(),
                error_len: source.error_len(),
                source,
            },
        ),
    }
}

/// The name under which the kernel keeps the table feature that `name` asks for, or `None` where the
/// kernel knows no such feature.
pub uninterp spec fn kernel_feature(name: Seq<char>) -> Option<Seq<char>>;

/// Calls `TableFeature::from` of `delta_kernel`, and tells a known feature, by the name under which
/// the kernel writes it, from `TableFeature::Unknown`.
///
/// Claimed: the answer depends on the characters of `name` alone, and the kernel knows each feature
/// by the name under which it writes it. Which names are known is not said here: the kernel keeps
/// that list.
#[verifier::external_body]
pub(crate) fn kernel_feature_name(name: &String) -> (res: Option<String>)
    ensures
        match res {
            Some(known) => {
                &&& kernel_feature(name@) == Some(known@)
                &&& kernel_feature(known@) == Some(known@)
            },
            None => kernel_feature(name@) is None,
        },
{
    match TableFeature::from(name.clone()) {
        TableFeature::Unknown(_) => None,
        feature => Some(feature.to_string()),
    }
}

/// A schema of the kernel.
#[verifier::external_type_specification]
#[verifier::external_body]
pub struct ExStructType(StructType);

/// The fields of a schema, in order: the name of each, its type as the kernel writes it, whether it
/// may be null, and the keys of its metadata.
pub uninterp spec fn schema_fields(schema: StructType) -> Seq<(Seq<char>, Seq<char>, bool, Set<Seq<char>>)>;

/// The lower case form of text, as `str::to_lowercase` gives it.
pub uninterp spec fn unicode_lowercase(text: Seq<char>) -> Seq<char>;

/// The lower case form of an ASCII character.
pub open spec fn ascii_lowercase(c: char) -> char {
    if 'A' <= c <= 'Z' {
        (c as u32 + 32) as char
    } else {
        c
    }
}

/// The keys by which a schema tells the fields called `names` apart, where `lowered` holds their
/// lower case forms: these forms, of which the ASCII ones are spelled out.
pub open spec fn field_keys(names: Seq<Seq<char>>, lowered: Seq<Seq<char>>) -> Seq<Seq<char>> {
    Seq::new(
        names.len(),
        |i: int|
            if is_ascii_chars(names[i]) {
                names[i].map_values(|c: char| ascii_lowercase(c))
            } else {
                lowered[i]
            },
    )
}

/// The key at position `i` occurs before.
pub open spec fn key_repeats(keys: Seq<Seq<char>>, i: int) -> bool {
    exists|j: int| 0 <= j < i && #[trigger] keys[j] == keys[i]
}

/// Position `i` is the first at which a key repeats.
pub open spec fn first_repeat(keys: Seq<Seq<char>>, i: int) -> bool {
    &&& 0 <= i < keys.len()
    &&& key_repeats(keys, i)
    &&& forall|k: int| 0 <= k < i ==> !#[trigger] key_repeats(keys, k)
}

/// The message about a name whose key repeats.
pub open spec fn repeated_field_message(name: Seq<char>) -> Seq<char> {
    "Duplicate field name (case-insensitive): '"@ + name + "'"@
}

/// The type of a field of a row.
#[derive(Debug, Clone, Copy, PartialEq, Eq)]
pub enum FieldType {
    String,
}

/// A field of a row that is to be described to the kernel. It has no metadata.
#[derive(Debug, PartialEq, Eq)]
pub struct RowField {
    pub name: String,
    pub field_type: FieldType,
    pub nullable: bool,
}

impl View for RowField {
    type V = (Seq<char>, Seq<char>, bool, Set<Seq<char>>);

    open spec fn view(&self) -> (Seq<char>, Seq<char>, bool, Set<Seq<char>>) {
        (
            self.name@,
            match self.field_type {
                FieldType::String => "string"@,
            },
            self.nullable,
            Set::empty(),
        )
    }
}

/// The content of fields, in order.
pub open spec fn field_views(fields: Seq<RowField>) -> Seq<(Seq<char>, Seq<char>, bool, Set<Seq<char>>)> {
    fields.map_values(|field: RowField| field@)
}

/// The names of fields, in order.
pub open spec fn field_names(fields: Seq<RowField>) -> Seq<Seq<char>> {
    fields.map_values(|field: RowField| field.name@)
}

/// Calls `StructType::try_new` of `delta_kernel` on `fields`, each converted by `StructField::new`,
/// and takes the message out of its error.
///
/// Claimed: the schema holds these fields in this order, without metadata, and is refused exactly where two names
/// agree in lower case; the message then names the first that agrees with an earlier one. ASCII
/// letters are lowered one by one. Of other text it is only claimed that the lower case form depends
/// on that text alone.
#[verifier::external_body]
pub(crate) fn schema_from_fields(fields: Vec<RowField>) -> (res: Result<StructType, String>)
    ensures
        ({
            let names = field_names(fields@);
            let keys = field_keys(
                names,
                names.map_values(|name: Seq<char>| unicode_lowercase(name)),
            );
            match res {
                Ok(schema) => {
                    &&& forall|i: int| 0 <= i < keys.len() ==> !#[trigger] key_repeats(keys, i)
                    &&& schema_fields(schema) == field_views(fields@)
                },
                Err(message) => exists|i: int| #[trigger]
                    first_repeat(keys, i) && message@ == repeated_field_message(names[i]),
            }
        }),
{
    let fields = fields.into_iter().map(|field| {
        let data_type = match field.field_type {
            FieldType::String => DataType::STRING,
        };
        StructField::new(field.name, data_type, field.nullable)
    });
    match StructType::try_new(fields) {
        Ok(schema) => Ok(schema),
        Err(delta_kernel::Error::Schema(message)) => Err(message),
        Err(error) => Err(error.to_string()),
    }
}

} // verus!
