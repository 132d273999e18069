//! Where the config file is looked for: the working directory and each of
//! its ancestors in order, nearest first, then the user's home directory.
//! The caller reports which candidate locations hold a file; this module
//! decides which one is read.

use vstd::prelude::*;

verus! {

/// The location the resolver settled on.
#[derive(Debug, Clone, Copy, PartialEq, Eq, Structural)]
pub enum ConfigSource {
    /// The config file in the ancestor directory at this index, where index
    /// 0 is the working directory itself and each step goes to the parent.
    Ancestor(usize),
    /// The config file in the user's home directory.
    Home,
}

/// What a correct selection is: the nearest ancestor holding a file wins;
/// the home directory is only a fallback; with no file anywhere there is
/// no source.
pub open spec fn selection_ok(ancestors: Seq<bool>, home: bool, r: Option<ConfigSource>) -> bool {
    match r {
        Some(ConfigSource::Ancestor(i)) => {
            &&& i < ancestors.len()
            &&& ancestors[i as int]
            &&& forall|k: int| 0 <= k < i ==> !ancestors[k]
        },
        Some(ConfigSource::Home) => {
            &&& home
            &&& forall|k: int| 0 <= k < ancestors.len() ==> !ancestors[k]
        },
        None => {
            &&& !home
            &&& forall|k: int| 0 <= k < ancestors.len() ==> !ancestors[k]
        },
    }
}

/// A config file in the working directory itself always wins: whatever
/// deeper ancestors or the home directory hold, the only correct selection
/// is ancestor index 0.
pub proof fn lemma_nearest_ancestor_wins(ancestors: Seq<bool>, home: bool, r: Option<ConfigSource>)
    requires
        ancestors.len() > 0,
        ancestors[0],
        selection_ok(ancestors, home, r),
    ensures
        r == Some(ConfigSource::Ancestor(0usize)),
{
    match r {
        Some(ConfigSource::Ancestor(i)) => {
            if i != 0 {
                assert(!ancestors[0]);
            }
        },
        Some(ConfigSource::Home) => {
            assert(!ancestors[0]);
        },
        None => {
            assert(!ancestors[0]);
        },
    }
}

/// With no config file in any ancestor but one in the home directory, the
/// only correct selection is the home directory.
pub proof fn lemma_home_fallback(ancestors: Seq<bool>, r: Option<ConfigSource>)
    requires
        forall|k: int| 0 <= k < ancestors.len() ==> !ancestors[k],
        selection_ok(ancestors, true, r),
    ensures
        r == Some(ConfigSource::Home),
{
}

/// Picks the location whose config file is read.
///
/// `ancestor_has_file[i]` reports whether the ancestor directory at index
/// `i` (nearest first) holds a config file, and `home_has_file` whether the
/// home directory does.
pub fn select_config_source(ancestor_has_file: &Vec<bool>, home_has_file: bool) -> (r: Option<
    ConfigSource,
>)
    ensures
        selection_ok(ancestor_has_file@, home_has_file, r),
{
    let n = ancestor_has_file.len();
    let mut i: usize = 0;
    while i < n
        invariant
            i <= n,
            n == ancestor_has_file@.len(),
            forall|k: int| 0 <= k < i ==> !ancestor_has_file@[k],
        decreases n - i,
    {
        if ancestor_has_file[i] {
            return Some(ConfigSource::Ancestor(i));
        }
        i = i + 1;
    }
    if home_has_file {
        Some(ConfigSource::Home)
    } else {
        None
    }
}

} // verus!
