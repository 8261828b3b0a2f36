//! Where the app keeps its own data, the formats' versions, clock readings
//! in whole units, and paths written with `/`.
#![verifier::loop_isolation(false)]

use crate::text::{chars_of, extend_chars, owned, string_of};
use vstd::prelude::*;

verus! {

/// The version of the workspace state file this app writes.
pub const STATE_VERSION: u32 = 4;

/// The version of the editor-positions file this app writes.
pub const EDITOR_POSITIONS_VERSION: u32 = 1;

/// The version of the registry of known vaults this app writes.
pub const REGISTRY_VERSION: u32 = 1;

/// The version of the workspace state file this app writes.
pub fn state_version() -> (r: u32)
    ensures
        r == STATE_VERSION,
{
    STATE_VERSION
}

/// The version of the editor-positions file this app writes.
pub fn editor_positions_version() -> (r: u32)
    ensures
        r == EDITOR_POSITIONS_VERSION,
{
    EDITOR_POSITIONS_VERSION
}

/// The version of the registry of known vaults this app writes.
pub fn registry_version() -> (r: u32)
    ensures
        r == REGISTRY_VERSION,
{
    REGISTRY_VERSION
}

/// The folder selected in a vault that has none stored: all notes.
pub fn default_folder_selection() -> (r: String)
    ensures
        r@ == "all"@,
{
    owned("all")
}

/// A clock reading in whole units since the Unix epoch, capped at
/// `u64::MAX`; 0 when the clock reads before the epoch (`None`).
pub open spec fn spec_clamped_reading(reading: Option<u128>) -> u64 {
    match reading {
        Some(x) => if x > u64::MAX as u128 {
            u64::MAX
        } else {
            x as u64
        },
        None => 0,
    }
}

fn clamp_reading(reading: Option<u128>) -> (r: u64)
    ensures
        r == spec_clamped_reading(reading),
{
    match reading {
        Some(x) => if x > u64::MAX as u128 {
            u64::MAX
        } else {
            x as u64
        },
        None => 0,
    }
}

/// The current time in milliseconds since the Unix epoch, from the
/// system clock's reading (`None` when it reads before the epoch).
pub fn now_millis(millis_since_epoch: Option<u128>) -> (r: u64)
    ensures
        r == spec_clamped_reading(millis_since_epoch),
{
    clamp_reading(millis_since_epoch)
}

/// A file's modification time in nanoseconds since the Unix epoch, from
/// the reading the file system gives (`None` when there is none or it lies
/// before the epoch).
pub fn image_modified_nanos(nanos_since_epoch: Option<u128>) -> (r: u64)
    ensures
        r == spec_clamped_reading(nanos_since_epoch),
{
    clamp_reading(nanos_since_epoch)
}

// ---------------------------------------------------------------------------
// Paths written with `/`
// ---------------------------------------------------------------------------

/// Components joined the way the app writes paths: each one after a `/`,
/// except one that comes while nothing has been written yet.
pub open spec fn spec_slash_join(components: Seq<Seq<char>>) -> Seq<char>
    decreases components.len(),
{
    if components.len() == 0 {
        Seq::empty()
    } else {
        let before = spec_slash_join(components.drop_last());
        if before.len() == 0 {
            components.last()
        } else {
            before + seq!['/'] + components.last()
        }
    }
}

/// A path's components written with `/`, or `None` when one of them is not
/// valid Unicode.
pub open spec fn spec_path_to_slash_string(components: Seq<Option<String>>) -> Option<Seq<char>> {
    if forall|i: int| 0 <= i < components.len() ==> #[trigger] components[i] is Some {
        Some(spec_slash_join(components.map_values(|c: Option<String>| c->Some_0@)))
    } else {
        None
    }
}

/// A path written with `/`: its components (each `None` when it is not
/// valid Unicode) joined by `/`.
pub fn path_to_slash_string(components: &[Option<String>]) -> (r: Option<String>)
    ensures
        match r {
            Some(s) => spec_path_to_slash_string(components@) == Some(s@),
            None => spec_path_to_slash_string(components@) is None,
        },
{
    let ghost view = components@.map_values(|c: Option<String>| c->Some_0@);
    let mut result: Vec<char> = Vec::new();
    let mut i: usize = 0;
    while i < components.len()
        invariant
            i <= components.len(),
            view == components@.map_values(|c: Option<String>| c->Some_0@),
            forall|j: int| 0 <= j < i ==> #[trigger] components@[j] is Some,
            result@ == spec_slash_join(view.take(i as int)),
        decreases components.len() - i,
    {
        match &components[i] {
            None => return None,
            Some(c) => {
                assert(view.take(i as int + 1).drop_last() == view.take(i as int));
                assert(view.take(i as int + 1).last() == c@);
                if result.len() > 0 {
                    result.push('/');
                }
                extend_chars(&mut result, &chars_of(c.as_str()));
            },
        }
        i = i + 1;
    }
    assert(view.take(components.len() as int) == view);
    Some(string_of(&result))
}

/// How a path is shown in a warning: its part below the root written with
/// `/` when it lies inside the root and is valid Unicode, otherwise the
/// path's own display form.
pub fn display_relative(relative: Option<&[Option<String>]>, display: &str) -> (r: String)
    ensures
        r@ == match relative {
            Some(c) => match spec_path_to_slash_string(c@) {
                Some(s) => s,
                None => display@,
            },
            None => display@,
        },
{
    match relative {
        Some(c) => match path_to_slash_string(c) {
            Some(s) => s,
            None => owned(display),
        },
        None => owned(display),
    }
}

} // verus!
