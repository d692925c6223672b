//! Slug derivation for theme titles: the pure naming rule behind theme
//! export and upload.

use vstd::prelude::*;

verus! {

/// Whether `c` is an ASCII letter or digit.
pub open spec fn is_ascii_alnum(c: char) -> bool {
    (48 <= c as int && c as int <= 57) || (65 <= c as int && c as int <= 90) || (97 <= c as int
        && c as int <= 122)
}

/// `c` with an ASCII uppercase letter folded to lowercase.
pub open spec fn to_ascii_lower(c: char) -> char {
    if 65 <= c as int && c as int <= 90 {
        ((c as u8) + 32) as char
    } else {
        c
    }
}

/// The slug of a title, folded from the left: every maximal run of ASCII
/// alphanumerics becomes a lowercase word, words are joined by single
/// hyphens, and everything else (leading and trailing runs included) is
/// dropped. `started` records whether a word has been emitted yet and
/// `pending` whether a separator has been seen since.
pub open spec fn spec_slug_from(s: Seq<char>, i: int, started: bool, pending: bool) -> Seq<char>
    decreases s.len() - i,
{
    if i < 0 || i >= s.len() {
        Seq::empty()
    } else if is_ascii_alnum(s[i]) {
        (if started && pending {
            seq!['-']
        } else {
            Seq::empty()
        }) + seq![to_ascii_lower(s[i])] + spec_slug_from(s, i + 1, true, false)
    } else {
        spec_slug_from(s, i + 1, started, true)
    }
}

/// The URL-friendly slug of a title: lowercased ASCII alphanumeric words
/// joined by single hyphens, with no leading or trailing hyphen; empty when
/// the title holds no ASCII alphanumeric at all.
pub open spec fn spec_slug(s: Seq<char>) -> Seq<char> {
    spec_slug_from(s, 0, false, false)
}

fn lower_char_str(c: char) -> (r: &'static str)
    requires
        is_ascii_alnum(c),
    ensures
        r@ == seq![to_ascii_lower(c)],
{
    proof {
        reveal_strlit("0");
        reveal_strlit("1");
        reveal_strlit("2");
        reveal_strlit("3");
        reveal_strlit("4");
        reveal_strlit("5");
        reveal_strlit("6");
        reveal_strlit("7");
        reveal_strlit("8");
        reveal_strlit("9");
        reveal_strlit("a");
        reveal_strlit("b");
        reveal_strlit("c");
        reveal_strlit("d");
        reveal_strlit("e");
        reveal_strlit("f");
        reveal_strlit("g");
        reveal_strlit("h");
        reveal_strlit("i");
        reveal_strlit("j");
        reveal_strlit("k");
        reveal_strlit("l");
        reveal_strlit("m");
        reveal_strlit("n");
        reveal_strlit("o");
        reveal_strlit("p");
        reveal_strlit("q");
        reveal_strlit("r");
        reveal_strlit("s");
        reveal_strlit("t");
        reveal_strlit("u");
        reveal_strlit("v");
        reveal_strlit("w");
        reveal_strlit("x");
        reveal_strlit("y");
        reveal_strlit("z");
    }
    let u = c as u32;
    match u {
        48 => "0",
        49 => "1",
        50 => "2",
        51 => "3",
        52 => "4",
        53 => "5",
        54 => "6",
        55 => "7",
        56 => "8",
        57 => "9",
        65 | 97 => "a",
        66 | 98 => "b",
        67 | 99 => "c",
        68 | 100 => "d",
        69 | 101 => "e",
        70 | 102 => "f",
        71 | 103 => "g",
        72 | 104 => "h",
        73 | 105 => "i",
        74 | 106 => "j",
        75 | 107 => "k",
        76 | 108 => "l",
        77 | 109 => "m",
        78 | 110 => "n",
        79 | 111 => "o",
        80 | 112 => "p",
        81 | 113 => "q",
        82 | 114 => "r",
        83 | 115 => "s",
        84 | 116 => "t",
        85 | 117 => "u",
        86 | 118 => "v",
        87 | 119 => "w",
        88 | 120 => "x",
        89 | 121 => "y",
        90 | 122 => "z",
        _ => "0",
    }
}

/// Derive a URL-friendly slug from a title string.
///
/// Lowercases ASCII letters, replaces every non-alphanumeric character with
/// a hyphen, collapses consecutive hyphens, and strips leading and trailing
/// hyphens. An all-punctuation or empty title yields the empty string.
pub fn slug_from_title(title: &str) -> (r: String)
    ensures
        r@ == spec_slug(title@),
{
    let n = title.unicode_len();
    let mut out = String::new();
    let mut started = false;
    let mut pending = false;
    let mut i: usize = 0;
    while i < n
        invariant
            i <= n,
            n == title@.len(),
            started == (out@.len() > 0),
            out@ + spec_slug_from(title@, i as int, started, pending) == spec_slug(title@),
        decreases n - i,
    {
        let c = title.get_char(i);
        let u = c as u32;
        if (48 <= u && u <= 57) || (65 <= u && u <= 90) || (97 <= u && u <= 122) {
            if started && pending {
                proof {
                    reveal_strlit("-");
                }
                out.append("-");
                out.append(lower_char_str(c));
                assert(out@ + spec_slug_from(title@, i + 1, true, false) =~= spec_slug(title@));
            } else {
                out.append(lower_char_str(c));
                assert(out@ + spec_slug_from(title@, i + 1, true, false) =~= spec_slug(title@));
            }
            started = true;
            pending = false;
        } else {
            pending = true;
        }
        i = i + 1;
    }
    assert(out@ =~= spec_slug(title@));
    out
}

} // verus!
