//! Theme collections: the named, ordered sets of frozen theme snapshots
//! that cycling walks through, the traversal order, the process-wide mode
//! preference, and the app configuration record.

use vstd::prelude::*;
use crate::export::{slug_from_title, spec_slug};

verus! {

/// A frozen theme snapshot inside a collection, independent of any live
/// working set once added.
#[derive(Debug, Clone)]
pub struct CollectionTheme {
    pub slug: String,
    pub title: String,
    pub is_dark: bool,
    pub raw_config: String,
}

/// A named, ordered set of themes with its own traversal order, stored
/// position and optional rotation interval.
#[derive(Debug, Clone)]
pub struct Collection {
    pub name: String,
    pub themes: Vec<CollectionTheme>,
    pub current_index: usize,
    pub order: CycleOrder,
    pub interval: Option<String>,
}

/// How cycling walks a collection.
#[derive(Debug, Clone, Copy, PartialEq, Eq, Structural)]
pub enum CycleOrder {
    Sequential,
    Shuffle,
}

/// The process-wide dark/light mode preference.
#[derive(Debug, Clone, Copy, PartialEq, Eq, Structural)]
pub enum ModePreference {
    Dark,
    Light,
    AutoOs,
    AutoTime,
}

impl ModePreference {
    /// The stable lowercase name of this preference.
    pub fn label(&self) -> (r: &'static str)
        ensures
            self is Dark ==> r@ == "dark"@,
            self is Light ==> r@ == "light"@,
            self is AutoOs ==> r@ == "auto-os"@,
            self is AutoTime ==> r@ == "auto-time"@,
    {
        match self {
            ModePreference::Dark => "dark",
            ModePreference::Light => "light",
            ModePreference::AutoOs => "auto-os",
            ModePreference::AutoTime => "auto-time",
        }
    }

    /// The next preference in the fixed cycling order, or nothing after
    /// the last.
    pub fn next(&self) -> (r: Option<ModePreference>)
        ensures
            self is Dark ==> (r matches Some(p) && p is Light),
            self is Light ==> (r matches Some(p) && p is AutoOs),
            self is AutoOs ==> (r matches Some(p) && p is AutoTime),
            self is AutoTime ==> r is None,
    {
        match self {
            ModePreference::Dark => Some(ModePreference::Light),
            ModePreference::Light => Some(ModePreference::AutoOs),
            ModePreference::AutoOs => Some(ModePreference::AutoTime),
            ModePreference::AutoTime => None,
        }
    }
}

/// The persisted application configuration: the active collection and the
/// mode preference with its time-window boundaries.
#[derive(Debug, Clone)]
pub struct AppConfig {
    pub active_collection: Option<String>,
    pub mode_preference: Option<ModePreference>,
    pub dark_after: String,
    pub light_after: String,
}

impl Default for AppConfig {
    /// The default configuration: no active collection, no mode
    /// preference, dark after 19:00 and light after 07:00.
    fn default() -> (r: AppConfig)
        ensures
            r.active_collection is None,
            r.mode_preference is None,
            r.dark_after@ == "19:00"@,
            r.light_after@ == "07:00"@,
    {
        AppConfig {
            active_collection: None,
            mode_preference: None,
            dark_after: String::from_str("19:00"),
            light_after: String::from_str("07:00"),
        }
    }
}

/// Normalize a collection name into its storage slug: lowercased ASCII
/// alphanumeric words joined by single hyphens. A name with no ASCII
/// letter or digit has no normal form.
pub fn normalize_collection_name(name: &str) -> (r: Option<String>)
    ensures
        r is Some <==> spec_slug(name@).len() > 0,
        r matches Some(n) ==> n@ == spec_slug(name@),
{
    let normalized = slug_from_title(name);
    if normalized.as_str().unicode_len() == 0 {
        None
    } else {
        Some(normalized)
    }
}

/// Whether every character of `s` is ASCII whitespace.
pub open spec fn spec_all_space(s: Seq<char>) -> bool {
    forall|i: int|
        0 <= i < s.len() ==> ((#[trigger] s[i]) == ' ' || s[i] == '\t' || s[i] == '\n' || s[i]
            == '\u{c}' || s[i] == '\r')
}

fn all_space(name: &str) -> (r: bool)
    ensures
        r == spec_all_space(name@),
{
    let n = name.unicode_len();
    let mut i: usize = 0;
    while i < n
        invariant
            i <= n,
            n == name@.len(),
            forall|j: int|
                0 <= j < i ==> ((#[trigger] name@[j]) == ' ' || name@[j] == '\t' || name@[j]
                    == '\n' || name@[j] == '\u{c}' || name@[j] == '\r'),
        decreases n - i,
    {
        let c = name.get_char(i);
        if !(c == ' ' || c == '\t' || c == '\n' || c == '\u{c}' || c == '\r') {
            return false;
        }
        i = i + 1;
    }
    true
}

/// Create a new, empty collection under the normalized form of `name`.
/// `exists` says whether a collection with that name is already stored;
/// the caller answers that from its storage before calling.
///
/// An un-normalizable name and a name collision are rejected, with the
/// empty name distinguished from the merely unusable one.
pub fn create_collection(name: &str, exists: bool) -> (r: Result<Collection, String>)
    ensures
        r is Ok <==> (spec_slug(name@).len() > 0 && !exists),
        r matches Ok(c) ==> {
            &&& c.name@ == spec_slug(name@)
            &&& c.themes@.len() == 0
            &&& c.current_index == 0
            &&& c.order is Sequential
            &&& c.interval is None
        },
        r matches Err(e) ==> e@ == (if spec_slug(name@).len() == 0 {
            if spec_all_space(name@) {
                "Collection name cannot be empty"@
            } else {
                "Collection name must contain at least one letter or number"@
            }
        } else {
            "Collection '"@ + spec_slug(name@) + "' already exists"@
        }),
{
    let normalized = slug_from_title(name);
    if normalized.as_str().unicode_len() == 0 {
        if all_space(name) {
            return Err(String::from_str("Collection name cannot be empty"));
        }
        return Err(String::from_str("Collection name must contain at least one letter or number"));
    }
    if exists {
        proof {
            reveal_strlit("Collection '");
            reveal_strlit("' already exists");
        }
        let mut msg = String::from_str("Collection '");
        msg.append(normalized.as_str());
        msg.append("' already exists");
        assert(msg@ =~= "Collection '"@ + spec_slug(name@) + "' already exists"@);
        return Err(msg);
    }
    Ok(
        Collection {
            name: normalized,
            themes: Vec::new(),
            current_index: 0,
            order: CycleOrder::Sequential,
            interval: None,
        },
    )
}

} // verus!
