//! Layout rules of the text report: the usable terminal width and the
//! character-wise truncation of cell contents.

use vstd::prelude::*;
use vstd::string::{StrSliceExecFns, StringExecFns};

verus! {

/// Width used when the terminal size is unknown.
pub const DEFAULT_TERM_WIDTH: usize = 80;

/// Narrowest width the report lays out for.
pub const MIN_TERM_WIDTH: usize = 40;

/// Widest width the report lays out for.
pub const MAX_TERM_WIDTH: usize = 200;

/// Report width for a terminal of `columns` columns (if known): the column
/// count clamped to `[MIN_TERM_WIDTH, MAX_TERM_WIDTH]`, or
/// `DEFAULT_TERM_WIDTH` when unknown.
pub fn term_width_from(columns: Option<u16>) -> (r: usize)
    ensures
        r == match columns {
            Some(w) => if w < MIN_TERM_WIDTH {
                MIN_TERM_WIDTH as int
            } else if w > MAX_TERM_WIDTH {
                MAX_TERM_WIDTH as int
            } else {
                w as int
            },
            None => DEFAULT_TERM_WIDTH as int,
        },
        MIN_TERM_WIDTH <= r <= MAX_TERM_WIDTH,
{
    match columns {
        Some(w) => {
            let w = w as usize;
            if w < MIN_TERM_WIDTH {
                MIN_TERM_WIDTH
            } else if w > MAX_TERM_WIDTH {
                MAX_TERM_WIDTH
            } else {
                w
            }
        },
        None => DEFAULT_TERM_WIDTH,
    }
}

/// `s` cut to `width` characters: unchanged when it fits, else its first
/// `width - 3` characters (none when `width < 3`) followed by `...`.
pub open spec fn truncated(s: Seq<char>, width: nat) -> Seq<char> {
    if s.len() <= width {
        s
    } else {
        let keep = if width >= 3 {
            width - 3
        } else {
            0
        };
        s.subrange(0, keep as int) + "..."@
    }
}

/// Truncates `s` to `width` characters with an ellipsis, counting
/// characters rather than bytes.
pub fn truncate(s: &str, width: usize) -> (r: String)
    ensures
        r@ == truncated(s@, width as nat),
{
    let n = s.unicode_len();
    if n <= width {
        String::from_str(s)
    } else {
        let keep = width.saturating_sub(3);
        let mut r = String::from_str(s.substring_char(0, keep));
        r.append("...");
        r
    }
}

/// What `str::to_lowercase` makes of a string.
pub uninterp spec fn lower_of(s: Seq<char>) -> Seq<char>;

/// Lower-cases a string.
///
/// Relies on `str::to_lowercase`: the result depends on the characters
/// alone.
#[verifier::external_body]
fn lowercase(s: &str) -> (r: String)
    ensures
        r@ == lower_of(s@),
{
    s.to_lowercase()
}

/// `p` occurs in `s` starting at position `i`.
pub open spec fn occurs_at(s: Seq<char>, p: Seq<char>, i: int) -> bool {
    0 <= i && i + p.len() <= s.len() && s.subrange(i, i + p.len()) == p
}

/// `p` occurs somewhere in `s`.
pub open spec fn occurs_in(s: Seq<char>, p: Seq<char>) -> bool {
    exists|i: int| occurs_at(s, p, i)
}

/// A name of a variant written in C.
pub open spec fn is_c_name(name: Seq<char>) -> bool {
    occurs_at(name, "c-"@, 0) || occurs_at(name, "c_"@, 0)
}

/// A name of an assembly or SIMD variant.
pub open spec fn is_low_level_name(name: Seq<char>) -> bool {
    occurs_in(name, "asm"@) || occurs_in(name, "simd"@) || occurs_in(name, "avx"@) || occurs_in(
        name,
        "neon"@,
    )
}

/// Display-order key of a variant from its lower-cased name and the
/// lower-cased compiler name: the reference first (0), then plain variants
/// by name (1), then C variants by compiler and name (2), then assembly and
/// SIMD variants by name (3).
pub open spec fn sort_key_of(name: Seq<char>, compiler: Seq<char>) -> (u8, Seq<char>, Seq<char>) {
    let c = if is_c_name(name) {
        compiler
    } else {
        Seq::empty()
    };
    if name == "original"@ {
        (0, Seq::empty(), Seq::empty())
    } else if is_low_level_name(name) {
        (3, name, c)
    } else if is_c_name(name) {
        (2, compiler, name)
    } else {
        (1, name, Seq::empty())
    }
}

/// Whether `p` occurs in `s` at position `i`.
fn matches_at(s: &str, p: &str, i: usize) -> (r: bool)
    ensures
        r == occurs_at(s@, p@, i as int),
{
    let n = s.unicode_len();
    let m = p.unicode_len();
    if i > n || m > n - i {
        return false;
    }
    let mut j: usize = 0;
    while j < m
        invariant
            n == s@.len(),
            m == p@.len(),
            i + m <= n,
            j <= m,
            forall|k: int| 0 <= k < j ==> s@[i + k] == p@[k],
        decreases m - j,
    {
        if s.get_char(i + j) != p.get_char(j) {
            assert(s@.subrange(i as int, i + m)[j as int] != p@[j as int]);
            return false;
        }
        j = j + 1;
    }
    assert(s@.subrange(i as int, i + m) =~= p@);
    true
}

/// Whether `p` occurs anywhere in `s`.
fn contains_str(s: &str, p: &str) -> (r: bool)
    ensures
        r == occurs_in(s@, p@),
{
    let n = s.unicode_len();
    let m = p.unicode_len();
    if m > n {
        assert(forall|i: int| !occurs_at(s@, p@, i));
        return false;
    }
    let last = n - m;
    let mut i: usize = 0;
    loop
        invariant
            n == s@.len(),
            m == p@.len(),
            last == n - m,
            i <= last,
            forall|k: int| 0 <= k < i ==> !occurs_at(s@, p@, k),
        decreases last - i,
    {
        if matches_at(s, p, i) {
            return true;
        }
        if i == last {
            assert(forall|k: int| !occurs_at(s@, p@, k));
            return false;
        }
        i = i + 1;
    }
}

/// Display-order key from already lower-cased names.
pub fn sort_key_from_lowered(name: &str, compiler: &str) -> (r: (u8, String, String))
    ensures
        r.0 == sort_key_of(name@, compiler@).0,
        r.1@ == sort_key_of(name@, compiler@).1,
        r.2@ == sort_key_of(name@, compiler@).2,
{
    proof {
        reveal_strlit("original");
        reveal_strlit("c-");
        reveal_strlit("c_");
    }
    let is_c = matches_at(name, "c-", 0) || matches_at(name, "c_", 0);
    let is_original = name.unicode_len() == "original".unicode_len() && matches_at(name, "original", 0);
    proof {
        if is_original {
            assert(name@ =~= name@.subrange(0, 8));
        }
        if name@ == "original"@ {
            assert(name@.subrange(0, 8) =~= name@);
        }
    }
    if is_original {
        (0, String::new(), String::new())
    } else if contains_str(name, "asm") || contains_str(name, "simd") || contains_str(name, "avx")
        || contains_str(name, "neon") {
        let c = if is_c {
            String::from_str(compiler)
        } else {
            String::new()
        };
        (3, String::from_str(name), c)
    } else if is_c {
        (2, String::from_str(compiler), String::from_str(name))
    } else {
        (1, String::from_str(name), String::new())
    }
}

/// Display-order key of a variant named `name`; C variants are ordered by
/// the name of the compiler that built them (`unknown` when not known).
pub fn variant_sort_key(name: &str, c_compiler: Option<&str>) -> (r: (u8, String, String))
    ensures
        ({
            let lname = lower_of(name@);
            let lcompiler = match c_compiler {
                Some(c) => lower_of(c@),
                None => lower_of("unknown"@),
            };
            &&& r.0 == sort_key_of(lname, lcompiler).0
            &&& r.1@ == sort_key_of(lname, lcompiler).1
            &&& r.2@ == sort_key_of(lname, lcompiler).2
        }),
{
    let lname = lowercase(name);
    let lcompiler = match c_compiler {
        Some(c) => lowercase(c),
        None => lowercase("unknown"),
    };
    sort_key_from_lowered(lname.as_str(), lcompiler.as_str())
}

} // verus!
