//! Snapshot properties that say how manifests are merged.
use vstd::hash_map::StringHashMap;
use vstd::prelude::*;

verus! {

/// The property for the size that merged manifests should have.
pub const MANIFEST_TARGET_SIZE_BYTES: &'static str = "commit.manifest.target-size-bytes";

/// The size that merged manifests should have where no property says so: 8 MiB.
pub const MANIFEST_TARGET_SIZE_BYTES_DEFAULT: u32 = 8388608;

/// The property for how many manifests there must be before any are merged.
pub const MANIFEST_MIN_MERGE_COUNT: &'static str = "commit.manifest.min-count-to-merge";

/// How many manifests there must be before any are merged, where no property says so.
pub const MANIFEST_MIN_MERGE_COUNT_DEFAULT: u32 = 100;

/// The property for whether manifests are merged.
pub const MANIFEST_MERGE_ENABLED: &'static str = "commit.manifest-merge.enabled";

/// Whether manifests are merged where no property says so.
pub const MANIFEST_MERGE_ENABLED_DEFAULT: bool = false;

/// Whether a character is a decimal digit.
pub open spec fn is_digit(c: char) -> bool {
    '0' <= c <= '9'
}

/// The number that decimal digits denote.
pub open spec fn decimal_value(digits: Seq<char>) -> nat
    decreases digits.len(),
{
    if digits.len() == 0 {
        0
    } else {
        decimal_value(digits.drop_last()) * 10 + (digits.last() as nat - '0' as nat) as nat
    }
}

/// Whether a text is one or more decimal digits.
pub open spec fn is_decimal(text: Seq<char>) -> bool {
    &&& text.len() > 0
    &&& forall|i: int| 0 <= i < text.len() ==> is_digit(#[trigger] text[i])
}

/// The `u32` that a text denotes: an optional plus sign followed by one or more decimal digits,
/// of a number that fits.
pub open spec fn parsed_u32(text: Seq<char>) -> Option<u32> {
    let digits = if text.len() > 0 && text[0] == '+' {
        text.drop_first()
    } else {
        text
    };
    if is_decimal(digits) && decimal_value(digits) <= u32::MAX {
        Some(decimal_value(digits) as u32)
    } else {
        None
    }
}

/// The `bool` that a text denotes: `true` or `false`, spelled exactly so.
pub open spec fn parsed_bool(text: Seq<char>) -> Option<bool> {
    if text == "true"@ {
        Some(true)
    } else if text == "false"@ {
        Some(false)
    } else {
        None
    }
}

/// Calls `str::parse::<u32>` of the standard library. It accepts an optional plus sign followed by
/// only digits, at least one, in base 10, and refuses everything else, whitespace and numbers that
/// do not fit among it. Why a text was refused is dropped.
#[verifier::external_body]
fn parse_u32(text: &str) -> (number: Option<u32>)
    ensures
        number == parsed_u32(text@),
{
    text.parse::<u32>().ok()
}

/// Calls `str::parse::<bool>` of the standard library. It accepts `true` and `false` and nothing
/// else.
#[verifier::external_body]
fn parse_bool(text: &str) -> (value: Option<bool>)
    ensures
        value == parsed_bool(text@),
{
    text.parse::<bool>().ok()
}

/// How manifests are merged.
#[derive(Clone, Copy, PartialEq, Eq, Structural, Debug)]
pub struct MergeSettings {
    pub target_size_bytes: u32,
    pub min_count_to_merge: u32,
    pub merge_enabled: bool,
}

/// The number that a property holds, or a default where it is missing or no number.
pub open spec fn u32_property(
    properties: Map<Seq<char>, String>,
    name: Seq<char>,
    default: u32,
) -> u32 {
    if properties.contains_key(name) && parsed_u32(properties[name]@) is Some {
        parsed_u32(properties[name]@)->0
    } else {
        default
    }
}

/// The truth value that a property holds, or a default where it is missing or none.
pub open spec fn bool_property(
    properties: Map<Seq<char>, String>,
    name: Seq<char>,
    default: bool,
) -> bool {
    if properties.contains_key(name) && parsed_bool(properties[name]@) is Some {
        parsed_bool(properties[name]@)->0
    } else {
        default
    }
}

/// The settings that properties ask for.
pub open spec fn merge_settings(properties: Map<Seq<char>, String>) -> MergeSettings {
    MergeSettings {
        target_size_bytes: u32_property(
            properties,
            MANIFEST_TARGET_SIZE_BYTES@,
            MANIFEST_TARGET_SIZE_BYTES_DEFAULT,
        ),
        min_count_to_merge: u32_property(
            properties,
            MANIFEST_MIN_MERGE_COUNT@,
            MANIFEST_MIN_MERGE_COUNT_DEFAULT,
        ),
        merge_enabled: bool_property(
            properties,
            MANIFEST_MERGE_ENABLED@,
            MANIFEST_MERGE_ENABLED_DEFAULT,
        ),
    }
}

fn read_u32(properties: &StringHashMap<String>, name: &str, default: u32) -> (number: u32)
    ensures
        number == u32_property(properties@, name@, default),
{
    match properties.get(name) {
        Some(text) => match parse_u32(text.as_str()) {
            Some(number) => number,
            None => default,
        },
        None => default,
    }
}

fn read_bool(properties: &StringHashMap<String>, name: &str, default: bool) -> (value: bool)
    ensures
        value == bool_property(properties@, name@, default),
{
    match properties.get(name) {
        Some(text) => match parse_bool(text.as_str()) {
            Some(value) => value,
            None => default,
        },
        None => default,
    }
}

impl MergeSettings {
    /// Reads the settings that properties ask for. A property that is missing, or that does not
    /// hold a value of its kind, leaves the default.
    pub fn from_properties(properties: &StringHashMap<String>) -> (settings: Self)
        ensures
            settings == merge_settings(properties@),
    {
        MergeSettings {
            target_size_bytes: read_u32(
                properties,
                MANIFEST_TARGET_SIZE_BYTES,
                MANIFEST_TARGET_SIZE_BYTES_DEFAULT,
            ),
            min_count_to_merge: read_u32(
                properties,
                MANIFEST_MIN_MERGE_COUNT,
                MANIFEST_MIN_MERGE_COUNT_DEFAULT,
            ),
            merge_enabled: read_bool(
                properties,
                MANIFEST_MERGE_ENABLED,
                MANIFEST_MERGE_ENABLED_DEFAULT,
            ),
        }
    }
}

impl Default for MergeSettings {
    fn default() -> (settings: Self)
        ensures
            settings == merge_settings(Map::<Seq<char>, String>::empty()),
    {
        MergeSettings {
            target_size_bytes: MANIFEST_TARGET_SIZE_BYTES_DEFAULT,
            min_count_to_merge: MANIFEST_MIN_MERGE_COUNT_DEFAULT,
            merge_enabled: MANIFEST_MERGE_ENABLED_DEFAULT,
        }
    }
}

} // verus!
