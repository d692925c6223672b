//! The mode resolver: mapping the process-wide preference plus the current
//! OS signal and local time onto an optional "prefer dark" decision, and
//! the time arithmetic around the dark/light window boundaries.
//!
//! The OS dark-mode signal and the current local time are plain inputs
//! here; detecting them is the surrounding application's business.

use vstd::prelude::*;
use crate::collection::ModePreference;
use crate::digits::{all_digits, lemma_num_nonneg, parse_digits, spec_num};

verus! {

/// Whether position `k` splits `s` as a well-formed `HH:MM` time: `k` is
/// the only colon, both sides are nonempty digit runs, the hour is below
/// 24 and the minute below 60.
pub open spec fn spec_hhmm_split(s: Seq<char>, k: int) -> bool {
    &&& 0 < k < s.len() - 1
    &&& s[k] == ':'
    &&& forall|j: int| 0 <= j < s.len() && j != k ==> s[j] != ':'
    &&& all_digits(s.subrange(0, k))
    &&& all_digits(s.subrange(k + 1, s.len() as int))
    &&& spec_num(s.subrange(0, k)) < 24
    &&& spec_num(s.subrange(k + 1, s.len() as int)) < 60
}

/// Whether `s` is a well-formed `HH:MM` time.
pub open spec fn spec_valid_hhmm(s: Seq<char>) -> bool {
    exists|k: int| spec_hhmm_split(s, k)
}

/// The minute of day a well-formed `HH:MM` time names, via its split.
pub open spec fn spec_hhmm_minutes(s: Seq<char>, k: int) -> int {
    spec_num(s.subrange(0, k)) * 60 + spec_num(s.subrange(k + 1, s.len() as int))
}

/// Parse `HH:MM` into minutes since midnight. Anything but two digit runs
/// around a single colon, an hour of 24 or more, or a minute of 60 or
/// more, is rejected.
pub fn parse_hhmm(s: &str) -> (r: Option<u32>)
    ensures
        r is Some <==> spec_valid_hhmm(s@),
        r matches Some(v) ==> forall|k: int|
            spec_hhmm_split(s@, k) ==> v == spec_hhmm_minutes(s@, k),
{
    let n = s.unicode_len();
    let mut colon: usize = 0;
    let mut found = false;
    let mut i: usize = 0;
    while i < n
        invariant
            i <= n,
            n == s@.len(),
            !found ==> forall|j: int| 0 <= j < i ==> s@[j] != ':',
            found ==> colon < i && s@[colon as int] == ':' && (forall|j: int|
                0 <= j < i && j != colon ==> s@[j] != ':'),
        decreases n - i,
    {
        if s.get_char(i) == ':' {
            if found {
                // A second colon: wrong field count.
                assert(forall|k: int| !spec_hhmm_split(s@, k)) by {
                    assert forall|k: int| !spec_hhmm_split(s@, k) by {
                        if spec_hhmm_split(s@, k) {
                            assert(s@[colon as int] == ':');
                            assert(s@[i as int] == ':');
                        }
                    }
                }
                return None;
            }
            colon = i;
            found = true;
        }
        i = i + 1;
    }
    if !found {
        assert(forall|k: int| !spec_hhmm_split(s@, k));
        return None;
    }
    let ghost k = colon as int;
    assert(forall|k2: int| spec_hhmm_split(s@, k2) ==> k2 == k) by {
        assert forall|k2: int| spec_hhmm_split(s@, k2) implies k2 == k by {
            if k2 != k {
                assert(s@[k] == ':');
            }
        }
    }
    let hours = parse_digits(s, 0, colon);
    let minutes = parse_digits(s, colon + 1, n);
    match (hours, minutes) {
        (Some((h, h_over)), Some((m, m_over))) => {
            proof {
                lemma_num_nonneg(s@.subrange(0, k));
                lemma_num_nonneg(s@.subrange(k + 1, n as int));
            }
            if h_over || m_over || h >= 24 || m >= 60 {
                return None;
            }
            assert(spec_hhmm_split(s@, k));
            Some((h as u32) * 60 + (m as u32))
        },
        _ => {
            assert(forall|k2: int| !spec_hhmm_split(s@, k2));
            None
        },
    }
}

/// Whether a minute of day falls in the dark window bounded by
/// `dark_after` and `light_after`. When `light_after < dark_after` (the
/// usual case) the dark window wraps around midnight; otherwise it lies
/// between the two boundaries.
pub open spec fn spec_dark_now(dark_after: int, light_after: int, now: int) -> bool {
    if light_after < dark_after {
        now < light_after || now >= dark_after
    } else {
        dark_after <= now && now < light_after
    }
}

/// Determine whether `now` (minutes since midnight) is in the dark window
/// of the two `HH:MM` boundaries. A malformed boundary yields nothing.
pub fn resolve_time(dark_after: &str, light_after: &str, now: u32) -> (r: Option<bool>)
    ensures
        r is Some <==> (spec_valid_hhmm(dark_after@) && spec_valid_hhmm(light_after@)),
        r matches Some(v) ==> forall|kd: int, kl: int|
            spec_hhmm_split(dark_after@, kd) && spec_hhmm_split(light_after@, kl) ==> v
                == spec_dark_now(
                spec_hhmm_minutes(dark_after@, kd),
                spec_hhmm_minutes(light_after@, kl),
                now as int,
            ),
{
    let dark_mins = match parse_hhmm(dark_after) {
        Some(v) => v,
        None => {
            return None;
        },
    };
    let light_mins = match parse_hhmm(light_after) {
        Some(v) => v,
        None => {
            return None;
        },
    };
    if light_mins < dark_mins {
        Some(now < light_mins || now >= dark_mins)
    } else {
        Some(dark_mins <= now && now < light_mins)
    }
}

/// Resolve the mode preference into an optional "prefer dark" value: a
/// fixed preference decides alone, the OS preference passes the supplied
/// signal through verbatim, and the timed preference consults the window
/// boundaries at `now_minutes`.
pub fn resolve_mode(
    pref: &ModePreference,
    dark_after: &str,
    light_after: &str,
    now_minutes: u32,
    os_dark: Option<bool>,
) -> (r: Option<bool>)
    ensures
        pref is Dark ==> r == Some(true),
        pref is Light ==> r == Some(false),
        pref is AutoOs ==> r == os_dark,
        pref is AutoTime ==> {
            &&& (r is Some <==> (spec_valid_hhmm(dark_after@) && spec_valid_hhmm(light_after@)))
            &&& (r matches Some(v) ==> forall|kd: int, kl: int|
                spec_hhmm_split(dark_after@, kd) && spec_hhmm_split(light_after@, kl) ==> v
                    == spec_dark_now(
                    spec_hhmm_minutes(dark_after@, kd),
                    spec_hhmm_minutes(light_after@, kl),
                    now_minutes as int,
                ))
        },
{
    match pref {
        ModePreference::Dark => Some(true),
        ModePreference::Light => Some(false),
        ModePreference::AutoOs => os_dark,
        ModePreference::AutoTime => resolve_time(dark_after, light_after, now_minutes),
    }
}

/// The wrap-aware distance in minutes from `now` forward to boundary `b`,
/// both minutes of day; a boundary at or before `now` is a full day ahead.
pub open spec fn spec_boundary_distance(b: int, now: int) -> int {
    if b > now {
        b - now
    } else {
        b + 1440 - now
    }
}

/// Seconds from `now` until the next dark/light boundary crossing: the
/// smaller of the two wrap-aware distances, in seconds. A malformed
/// boundary yields nothing.
pub fn seconds_until_boundary(dark_after: &str, light_after: &str, now: u32) -> (r: Option<u64>)
    requires
        now < 1440,
    ensures
        r is Some <==> (spec_valid_hhmm(dark_after@) && spec_valid_hhmm(light_after@)),
        r matches Some(v) ==> forall|kd: int, kl: int|
            spec_hhmm_split(dark_after@, kd) && spec_hhmm_split(light_after@, kl) ==> ({
                let dd = spec_boundary_distance(spec_hhmm_minutes(dark_after@, kd), now as int);
                let dl = spec_boundary_distance(spec_hhmm_minutes(light_after@, kl), now as int);
                v == (if dd < dl {
                    dd
                } else {
                    dl
                }) * 60
            }),
{
    let dark_mins = match parse_hhmm(dark_after) {
        Some(v) => v,
        None => {
            return None;
        },
    };
    let light_mins = match parse_hhmm(light_after) {
        Some(v) => v,
        None => {
            return None;
        },
    };
    let dd: u64 = if dark_mins > now {
        (dark_mins - now) as u64
    } else {
        dark_mins as u64 + 1440 - now as u64
    };
    let dl: u64 = if light_mins > now {
        (light_mins - now) as u64
    } else {
        light_mins as u64 + 1440 - now as u64
    };
    let min_future = if dd < dl {
        dd
    } else {
        dl
    };
    Some(min_future * 60)
}

} // verus!
