//! What the compiler flags of a build say of indirect branches.

use crate::text::{split, split_text, texts};
use vstd::prelude::*;

verus! {

/// The character that separates the flags in an encoded list of flags.
pub open spec fn flag_separator() -> char {
    '\u{1f}'
}

/// The features that a flag switches, where it is a `target-feature` flag:
/// the text behind `target-feature=` or `-Ctarget-feature=`.
pub open spec fn switched_features(flag: Seq<char>) -> Option<Seq<char>> {
    if "target-feature="@.is_prefix_of(flag) {
        Some(flag.skip("target-feature="@.len() as int))
    } else if "-Ctarget-feature="@.is_prefix_of(flag) {
        Some(flag.skip("-Ctarget-feature="@.len() as int))
    } else {
        None
    }
}

/// Whether one of the comma-separated `features` switches a retpoline
/// feature on.
pub open spec fn switches_retpoline_on(features: Seq<char>) -> bool {
    exists|i: int|
        0 <= i < split(features, ',').len() && "+retpoline"@.is_prefix_of(
            #[trigger] split(features, ',')[i],
        )
}

/// Whether a flag hardens indirect branches.
pub open spec fn hardens(flag: Seq<char>) -> bool {
    match switched_features(flag) {
        Some(features) => switches_retpoline_on(features),
        None => false,
    }
}

/// Whether one of the flags in `rustflags` hardens indirect branches.
pub open spec fn retpolines_on(rustflags: Seq<char>) -> bool {
    exists|i: int|
        0 <= i < split(rustflags, flag_separator()).len() && hardens(
            #[trigger] split(rustflags, flag_separator())[i],
        )
}

/// Whether `text` begins with `prefix`.
pub fn begins_with(text: &str, prefix: &str) -> (r: bool)
    ensures
        r == prefix@.is_prefix_of(text@),
{
    let n: usize = prefix.unicode_len();
    if text.unicode_len() < n {
        return false;
    }
    let mut i: usize = 0;
    while i < n
        invariant
            i <= n,
            n == prefix@.len(),
            n <= text@.len(),
            forall|j: int| 0 <= j < i ==> text@[j] == prefix@[j],
        decreases n - i,
    {
        if text.get_char(i) != prefix.get_char(i) {
            assert(text@.subrange(0, n as int)[i as int] != prefix@[i as int]);
            return false;
        }
        i += 1;
    }
    assert(prefix@ =~= text@.subrange(0, n as int));
    true
}

/// `text` without `prefix`, where it begins with it.
pub fn without_prefix<'a>(text: &'a str, prefix: &str) -> (r: Option<&'a str>)
    ensures
        match r {
            Some(rest) => prefix@.is_prefix_of(text@) && rest@ == text@.skip(prefix@.len() as int),
            None => !prefix@.is_prefix_of(text@),
        },
{
    if begins_with(text, prefix) {
        let rest = text.substring_char(prefix.unicode_len(), text.unicode_len());
        assert(rest@ =~= text@.skip(prefix@.len() as int));
        Some(rest)
    } else {
        None
    }
}

fn any_retpoline(features: &str) -> (r: bool)
    ensures
        r == switches_retpoline_on(features@),
{
    let parts = split_text(features, ',');
    let ghost all = split(features@, ',');
    let mut i: usize = 0;
    while i < parts.len()
        invariant
            i <= parts.len(),
            all == texts(parts@),
            all == split(features@, ','),
            forall|j: int| 0 <= j < i ==> !"+retpoline"@.is_prefix_of(#[trigger] all[j]),
        decreases parts.len() - i,
    {
        if begins_with(parts[i].as_str(), "+retpoline") {
            assert("+retpoline"@.is_prefix_of(all[i as int]));
            return true;
        }
        i += 1;
    }
    false
}

fn flag_hardens(flag: &str) -> (r: bool)
    ensures
        r == hardens(flag@),
{
    match without_prefix(flag, "target-feature=") {
        Some(features) => any_retpoline(features),
        None => match without_prefix(flag, "-Ctarget-feature=") {
            Some(features) => any_retpoline(features),
            None => false,
        },
    }
}

/// Whether the encoded compiler flags of a build switch retpolines on, which
/// makes indirect calls costly.
pub fn retpolines_enabled(rustflags: &str) -> (r: bool)
    ensures
        r == retpolines_on(rustflags@),
{
    let flags = split_text(rustflags, '\u{1f}');
    let ghost all = split(rustflags@, flag_separator());
    let mut i: usize = 0;
    while i < flags.len()
        invariant
            i <= flags.len(),
            all == texts(flags@),
            all == split(rustflags@, flag_separator()),
            forall|j: int| 0 <= j < i ==> !hardens(#[trigger] all[j]),
        decreases flags.len() - i,
    {
        if flag_hardens(flags[i].as_str()) {
            assert(hardens(all[i as int]));
            return true;
        }
        i += 1;
    }
    false
}

} // verus!
