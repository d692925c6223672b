//! The remote catalog query surface: sort orders, fetch parameters, and
//! the exact request URL they encode to. Sending the request is the
//! surrounding application's business; building the URL is pure string
//! work and happens here.

use vstd::prelude::*;
use vstd::string::StringSliceAdditionalSpecFns;
use vstd::utf8::encode_utf8;
use crate::digits::{dec_string, spec_dec};

verus! {

/// The sort orders a catalog query can ask for.
#[derive(Debug, Clone, Copy, PartialEq, Eq, Structural)]
pub enum SortOrder {
    Popular,
    Newest,
    Trending,
}

impl SortOrder {
    /// The query-string value of this sort order.
    pub fn as_str(&self) -> (r: &'static str)
        ensures
            self is Popular ==> r@ == "popular"@,
            self is Newest ==> r@ == "newest"@,
            self is Trending ==> r@ == "trending"@,
    {
        match self {
            SortOrder::Popular => "popular",
            SortOrder::Newest => "newest",
            SortOrder::Trending => "trending",
        }
    }

    /// The display label of this sort order.
    pub fn label(&self) -> (r: &'static str)
        ensures
            self is Popular ==> r@ == "Popular"@,
            self is Newest ==> r@ == "Newest"@,
            self is Trending ==> r@ == "Trending"@,
    {
        match self {
            SortOrder::Popular => "Popular",
            SortOrder::Newest => "Newest",
            SortOrder::Trending => "Trending",
        }
    }

    /// The next sort order in the fixed cycling order.
    pub fn next(&self) -> (r: SortOrder)
        ensures
            self is Popular ==> r is Newest,
            self is Newest ==> r is Trending,
            self is Trending ==> r is Popular,
    {
        match self {
            SortOrder::Popular => SortOrder::Newest,
            SortOrder::Newest => SortOrder::Trending,
            SortOrder::Trending => SortOrder::Popular,
        }
    }
}

/// One catalog query: free-text search, tag, sort order, page and an
/// optional dark/light filter.
#[derive(Debug, Clone)]
pub struct FetchParams {
    pub query: Option<String>,
    pub tag: Option<String>,
    pub sort: SortOrder,
    pub page: i32,
    pub dark: Option<bool>,
}

impl Default for FetchParams {
    /// The first page of the popular sort, unfiltered.
    fn default() -> (r: FetchParams)
        ensures
            r.query is None,
            r.tag is None,
            r.sort is Popular,
            r.page == 1,
            r.dark is None,
    {
        FetchParams { query: None, tag: None, sort: SortOrder::Popular, page: 1, dark: None }
    }
}

/// The uppercase hex digit for a value in `0..=15`.
pub open spec fn hex_char_upper(d: int) -> char {
    if d == 0 {
        '0'
    } else if d == 1 {
        '1'
    } else if d == 2 {
        '2'
    } else if d == 3 {
        '3'
    } else if d == 4 {
        '4'
    } else if d == 5 {
        '5'
    } else if d == 6 {
        '6'
    } else if d == 7 {
        '7'
    } else if d == 8 {
        '8'
    } else if d == 9 {
        '9'
    } else if d == 10 {
        'A'
    } else if d == 11 {
        'B'
    } else if d == 12 {
        'C'
    } else if d == 13 {
        'D'
    } else if d == 14 {
        'E'
    } else {
        'F'
    }
}

/// Whether a byte passes percent-encoding unchanged: an ASCII letter or
/// digit, or one of `-`, `_`, `.`, `~`.
pub open spec fn spec_unreserved(b: int) -> bool {
    (48 <= b && b <= 57) || (65 <= b && b <= 90) || (97 <= b && b <= 122) || b == 45 || b == 95
        || b == 46 || b == 126
}

/// One byte percent-encoded: itself when unreserved, else `%` and two
/// uppercase hex digits.
pub open spec fn spec_enc_byte(b: int) -> Seq<char> {
    if spec_unreserved(b) {
        seq![(b as u8) as char]
    } else {
        seq!['%', hex_char_upper(b / 16), hex_char_upper(b % 16)]
    }
}

/// A byte string percent-encoded, byte by byte.
pub open spec fn spec_urlenc(bytes: Seq<u8>) -> Seq<char>
    decreases bytes.len(),
{
    if bytes.len() == 0 {
        Seq::empty()
    } else {
        spec_urlenc(bytes.drop_last()) + spec_enc_byte(bytes.last() as int)
    }
}

fn unreserved_str(b: u8) -> (r: &'static str)
    requires
        spec_unreserved(b as int),
    ensures
        r@ == seq![b as char],
{
    proof {
        reveal_strlit("-");
        reveal_strlit(".");
        reveal_strlit("0");
        reveal_strlit("1");
        reveal_strlit("2");
        reveal_strlit("3");
        reveal_strlit("4");
        reveal_strlit("5");
        reveal_strlit("6");
        reveal_strlit("7");
        reveal_strlit("8");
        reveal_strlit("9");
        reveal_strlit("A");
        reveal_strlit("B");
        reveal_strlit("C");
        reveal_strlit("D");
        reveal_strlit("E");
        reveal_strlit("F");
        reveal_strlit("G");
        reveal_strlit("H");
        reveal_strlit("I");
        reveal_strlit("J");
        reveal_strlit("K");
        reveal_strlit("L");
        reveal_strlit("M");
        reveal_strlit("N");
        reveal_strlit("O");
        reveal_strlit("P");
        reveal_strlit("Q");
        reveal_strlit("R");
        reveal_strlit("S");
        reveal_strlit("T");
        reveal_strlit("U");
        reveal_strlit("V");
        reveal_strlit("W");
        reveal_strlit("X");
        reveal_strlit("Y");
        reveal_strlit("Z");
        reveal_strlit("_");
        reveal_strlit("a");
        reveal_strlit("b");
        reveal_strlit("c");
        reveal_strlit("d");
        reveal_strlit("e");
        reveal_strlit("f");
        reveal_strlit("g");
        reveal_strlit("h");
        reveal_strlit("i");
        reveal_strlit("j");
        reveal_strlit("k");
        reveal_strlit("l");
        reveal_strlit("m");
        reveal_strlit("n");
        reveal_strlit("o");
        reveal_strlit("p");
        reveal_strlit("q");
        reveal_strlit("r");
        reveal_strlit("s");
        reveal_strlit("t");
        reveal_strlit("u");
        reveal_strlit("v");
        reveal_strlit("w");
        reveal_strlit("x");
        reveal_strlit("y");
        reveal_strlit("z");
        reveal_strlit("~");
    }
    match b {
        45 => "-",
        46 => ".",
        48 => "0",
        49 => "1",
        50 => "2",
        51 => "3",
        52 => "4",
        53 => "5",
        54 => "6",
        55 => "7",
        56 => "8",
        57 => "9",
        65 => "A",
        66 => "B",
        67 => "C",
        68 => "D",
        69 => "E",
        70 => "F",
        71 => "G",
        72 => "H",
        73 => "I",
        74 => "J",
        75 => "K",
        76 => "L",
        77 => "M",
        78 => "N",
        79 => "O",
        80 => "P",
        81 => "Q",
        82 => "R",
        83 => "S",
        84 => "T",
        85 => "U",
        86 => "V",
        87 => "W",
        88 => "X",
        89 => "Y",
        90 => "Z",
        95 => "_",
        97 => "a",
        98 => "b",
        99 => "c",
        100 => "d",
        101 => "e",
        102 => "f",
        103 => "g",
        104 => "h",
        105 => "i",
        106 => "j",
        107 => "k",
        108 => "l",
        109 => "m",
        110 => "n",
        111 => "o",
        112 => "p",
        113 => "q",
        114 => "r",
        115 => "s",
        116 => "t",
        117 => "u",
        118 => "v",
        119 => "w",
        120 => "x",
        121 => "y",
        122 => "z",
        126 => "~",
        _ => "0",
    }
}

fn hex_upper_str(d: u8) -> (r: &'static str)
    requires
        d < 16,
    ensures
        r@ == seq![hex_char_upper(d as int)],
{
    proof {
        reveal_strlit("A");
        reveal_strlit("B");
        reveal_strlit("C");
        reveal_strlit("D");
        reveal_strlit("E");
        reveal_strlit("F");
    }
    if d < 10 {
        crate::digits::dec_digit_str(d as usize)
    } else {
        match d {
            10 => "A",
            11 => "B",
            12 => "C",
            13 => "D",
            14 => "E",
            _ => "F",
        }
    }
}

/// Percent-encode a string for use in a URL query: ASCII letters, digits
/// and `-`, `_`, `.`, `~` pass through, every other byte becomes `%` and
/// two uppercase hex digits.
pub fn urlencoding(s: &str) -> (r: String)
    ensures
        r@ == spec_urlenc(s.spec_bytes()),
{
    let bytes = s.as_bytes();
    let n = bytes.len();
    let mut out = String::new();
    let mut i: usize = 0;
    while i < n
        invariant
            i <= n,
            n == s.spec_bytes().len(),
            bytes@ == s.spec_bytes(),
            out@ == spec_urlenc(s.spec_bytes().take(i as int)),
        decreases n - i,
    {
        let b = bytes[i];
        let u = b as u32;
        if (48 <= u && u <= 57) || (65 <= u && u <= 90) || (97 <= u && u <= 122) || u == 45 || u
            == 95 || u == 46 || u == 126 {
            out.append(unreserved_str(b));
        } else {
            proof {
                reveal_strlit("%");
            }
            out.append("%");
            out.append(hex_upper_str(b / 16));
            out.append(hex_upper_str(b % 16));
        }
        proof {
            let pre = s.spec_bytes().take(i as int);
            let cur = s.spec_bytes().take(i as int + 1);
            assert(cur.drop_last() =~= pre);
            assert(cur.last() == s.spec_bytes()[i as int]);
            assert(out@ =~= spec_urlenc(cur));
        }
        i = i + 1;
    }
    proof {
        assert(s.spec_bytes().take(n as int) =~= s.spec_bytes());
    }
    out
}

/// A page number in decimal, negative values signed.
pub open spec fn spec_page_dec(page: int) -> Seq<char> {
    if page < 0 {
        seq!['-'] + spec_dec(-page)
    } else {
        spec_dec(page)
    }
}

/// The catalog query URL a parameter set encodes to: the fixed endpoint,
/// the sort and page, then the free-text search percent-encoded (when
/// present and nonempty), the tag verbatim, and the dark filter.
pub open spec fn spec_fetch_url(p: FetchParams) -> Seq<char> {
    let base = "https://ghostty-style.vercel.app/api/configs?sort="@ + (match p.sort {
        SortOrder::Popular => "popular"@,
        SortOrder::Newest => "newest"@,
        SortOrder::Trending => "trending"@,
    }) + "&page="@ + spec_page_dec(p.page as int);
    let with_query = base + (match p.query {
        Some(q) => if q@.len() > 0 {
            "&q="@ + spec_urlenc(encode_utf8(q@))
        } else {
            Seq::empty()
        },
        None => Seq::empty(),
    });
    let with_tag = with_query + (match p.tag {
        Some(t) => "&tag="@ + t@,
        None => Seq::empty(),
    });
    with_tag + (match p.dark {
        Some(d) => if d {
            "&dark=true"@
        } else {
            "&dark=false"@
        },
        None => Seq::empty(),
    })
}

/// Build the catalog request URL for a parameter set.
#[verifier::rlimit(100)]
pub fn build_fetch_url(params: &FetchParams) -> (r: String)
    ensures
        r@ == spec_fetch_url(*params),
{
    proof {
        reveal_strlit("https://ghostty-style.vercel.app/api/configs?sort=");
        reveal_strlit("&page=");
        reveal_strlit("-");
        reveal_strlit("&q=");
        reveal_strlit("&tag=");
        reveal_strlit("&dark=true");
        reveal_strlit("&dark=false");
    }
    let mut out = String::from_str("https://ghostty-style.vercel.app/api/configs?sort=");
    out.append(params.sort.as_str());
    out.append("&page=");
    if params.page < 0 {
        out.append("-");
        let mag = if params.page == i32::MIN {
            2147483648u64 as usize
        } else {
            (-params.page) as usize
        };
        let digits = dec_string(mag);
        out.append(digits.as_str());
    } else {
        let digits = dec_string(params.page as usize);
        out.append(digits.as_str());
    }
    match &params.query {
        Some(q) => {
            if q.as_str().unicode_len() > 0 {
                out.append("&q=");
                let enc = urlencoding(q.as_str());
                out.append(enc.as_str());
            }
        },
        None => {},
    }
    match &params.tag {
        Some(t) => {
            out.append("&tag=");
            out.append(t.as_str());
        },
        None => {},
    }
    match params.dark {
        Some(d) => {
            if d {
                out.append("&dark=true");
            } else {
                out.append("&dark=false");
            }
        },
        None => {},
    }
    assert(out@ =~= spec_fetch_url(*params));
    out
}

} // verus!
