//! Character classes, text scanning and number formatting, with executable
//! forms proved against the specification forms the rules' contracts use.

use vstd::prelude::*;

verus! {

// ---------------------------------------------------------------------------
// Character classes.
//
// Whitespace is the Unicode White_Space property, a fixed list of 25 code
// points (the set `char::is_whitespace` documents), so it is written out and
// proved. Letter and digit classes are open-ended Unicode categories: their
// results are named, with the ASCII fragment pinned exactly.
// ---------------------------------------------------------------------------
/// The 25 code points with the Unicode White_Space property: the characters
/// `char::is_whitespace` accepts.
pub open spec fn is_ws_char(c: char) -> bool {
    let n = c as u32;
    ||| n == 0x9
    ||| n == 0xA
    ||| n == 0xB
    ||| n == 0xC
    ||| n == 0xD
    ||| n == 0x20
    ||| n == 0x85
    ||| n == 0xA0
    ||| n == 0x1680
    ||| (0x2000 <= n && n <= 0x200A)
    ||| n == 0x2028
    ||| n == 0x2029
    ||| n == 0x202F
    ||| n == 0x205F
    ||| n == 0x3000
}

pub fn ws_char(c: char) -> (b: bool)
    ensures
        b == is_ws_char(c),
{
    let n = c as u32;
    n == 0x9 || n == 0xA || n == 0xB || n == 0xC || n == 0xD || n == 0x20 || n == 0x85 || n == 0xA0
        || n == 0x1680 || (0x2000 <= n && n <= 0x200A) || n == 0x2028 || n == 0x2029 || n == 0x202F
        || n == 0x205F || n == 0x3000
}

/// Whether `char::is_lowercase` accepts `c`: the Unicode Lowercase property.
pub uninterp spec fn is_lowercase_char(c: char) -> bool;

/// Whether `char::is_uppercase` accepts `c`: the Unicode Uppercase property.
pub uninterp spec fn is_uppercase_char(c: char) -> bool;

/// Whether `char::is_numeric` accepts `c`: the Unicode number categories.
pub uninterp spec fn is_numeric_char(c: char) -> bool;

/// Whether `char::is_alphanumeric` accepts `c`: the Unicode letter and number
/// categories.
pub uninterp spec fn is_alphanumeric_char(c: char) -> bool;

/// Relies on `char::is_lowercase`, which tests the Unicode Lowercase
/// property; on ASCII that is exactly `a..=z`.
pub assume_specification[ char::is_lowercase ](c: char) -> (r: bool)
    ensures
        r == is_lowercase_char(c),
        (c as u32) < 128 ==> r == (97 <= c as u32 <= 122),
;

/// Relies on `char::is_uppercase`, which tests the Unicode Uppercase
/// property; on ASCII that is exactly `A..=Z`.
pub assume_specification[ char::is_uppercase ](c: char) -> (r: bool)
    ensures
        r == is_uppercase_char(c),
        (c as u32) < 128 ==> r == (65 <= c as u32 <= 90),
;

/// Relies on `char::is_numeric`, which tests the Unicode number categories;
/// on ASCII those hold exactly of `0..=9`.
pub assume_specification[ char::is_numeric ](c: char) -> (r: bool)
    ensures
        r == is_numeric_char(c),
        (c as u32) < 128 ==> r == (48 <= c as u32 <= 57),
;

/// Relies on `char::is_alphanumeric`, which tests the Unicode letter and
/// number categories; on ASCII those hold exactly of letters and digits.
pub assume_specification[ char::is_alphanumeric ](c: char) -> (r: bool)
    ensures
        r == is_alphanumeric_char(c),
        (c as u32) < 128 ==> r == (97 <= c as u32 <= 122 || 65 <= c as u32 <= 90 || 48 <= c as u32
            <= 57),
;

// ---------------------------------------------------------------------------
// Turning text into a character vector.
// ---------------------------------------------------------------------------
/// The characters of `s`, in order.
pub fn str_to_chars(s: &str) -> (v: Vec<char>)
    ensures
        v@ == s@,
{
    let n = s.unicode_len();
    let mut v: Vec<char> = Vec::new();
    let mut i: usize = 0;
    while i < n
        invariant
            n == s@.len(),
            i <= n,
            v@ == s@.take(i as int),
        decreases n - i,
    {
        let c = s.get_char(i);
        v.push(c);
        assert(v@ =~= s@.take(i + 1 as int));
        i = i + 1;
    }
    assert(v@ =~= s@);
    v
}

/// A copy of `v[a..b]`.
pub fn copy_range(v: &Vec<char>, a: usize, b: usize) -> (r: Vec<char>)
    requires
        a <= b <= v@.len(),
    ensures
        r@ == v@.subrange(a as int, b as int),
{
    let mut r: Vec<char> = Vec::new();
    let mut i: usize = a;
    while i < b
        invariant
            a <= i <= b <= v@.len(),
            r@ == v@.subrange(a as int, i as int),
        decreases b - i,
    {
        r.push(v[i]);
        assert(r@ =~= v@.subrange(a as int, i + 1 as int));
        i = i + 1;
    }
    r
}

// ---------------------------------------------------------------------------
// First occurrence of a character.
// ---------------------------------------------------------------------------
/// The index of the first occurrence of `c` in `s`, or `s.len()` if absent.
pub open spec fn first_ch(s: Seq<char>, c: char) -> int
    decreases s.len(),
{
    if s.len() == 0 {
        0
    } else if s[0] == c {
        0
    } else {
        1 + first_ch(s.drop_first(), c)
    }
}

pub proof fn lemma_first_ch(s: Seq<char>, c: char)
    ensures
        0 <= first_ch(s, c) <= s.len(),
        forall|k: int| 0 <= k < first_ch(s, c) ==> s[k] != c,
        first_ch(s, c) < s.len() ==> s[first_ch(s, c)] == c,
    decreases s.len(),
{
    if s.len() > 0 && s[0] != c {
        lemma_first_ch(s.drop_first(), c);
        assert forall|k: int| 0 <= k < first_ch(s, c) implies s[k] != c by {
            if k > 0 {
                assert(s.drop_first()[k - 1] == s[k]);
            }
        }
        if first_ch(s, c) < s.len() {
            assert(s.drop_first()[first_ch(s, c) - 1] == s[first_ch(s, c)]);
        }
    }
}

pub proof fn lemma_first_ch_unique(s: Seq<char>, c: char, j: int)
    requires
        0 <= j <= s.len(),
        forall|k: int| 0 <= k < j ==> s[k] != c,
        j < s.len() ==> s[j] == c,
    ensures
        first_ch(s, c) == j,
    decreases s.len(),
{
    if s.len() > 0 {
        if j == 0 {
        } else {
            assert(s[0] != c);
            assert forall|k: int| 0 <= k < j - 1 implies s.drop_first()[k] != c by {
                assert(s.drop_first()[k] == s[k + 1]);
            }
            assert(j - 1 < s.drop_first().len() ==> s.drop_first()[j - 1] == s[j]);
            lemma_first_ch_unique(s.drop_first(), c, j - 1);
        }
    }
}

/// The index of the first occurrence of `c` in `v`, or its length if absent.
pub fn find_char_from(v: &Vec<char>, c: char, from: usize) -> (j: usize)
    requires
        from <= v@.len(),
    ensures
        from <= j <= v@.len(),
        j - from == first_ch(v@.skip(from as int), c),
        forall|k: int| from <= k < j ==> v@[k] != c,
        j < v@.len() ==> v@[j as int] == c,
{
    let n = v.len();
    let mut j: usize = from;
    while j < n
        invariant
            from <= j <= n == v@.len(),
            forall|k: int| from <= k < j ==> v@[k] != c,
        decreases n - j,
    {
        if v[j] == c {
            proof {
                lemma_first_ch_unique_skip(v@, c, from as int, j as int);
            }
            return j;
        }
        j = j + 1;
    }
    proof {
        lemma_first_ch_unique_skip(v@, c, from as int, j as int);
    }
    j
}

proof fn lemma_first_ch_unique_skip(s: Seq<char>, c: char, from: int, j: int)
    requires
        0 <= from <= j <= s.len(),
        forall|k: int| from <= k < j ==> s[k] != c,
        j < s.len() ==> s[j] == c,
    ensures
        first_ch(s.skip(from), c) == j - from,
{
    let t = s.skip(from);
    assert forall|k: int| 0 <= k < j - from implies t[k] != c by {
        assert(t[k] == s[k + from]);
    }
    assert(j - from < t.len() ==> t[j - from] == s[j]);
    lemma_first_ch_unique(t, c, j - from);
}

// ---------------------------------------------------------------------------
// Trimming.
// ---------------------------------------------------------------------------
/// The index of the first non-whitespace character, or `s.len()` if all
/// whitespace.
pub open spec fn trim_start_idx(s: Seq<char>) -> int
    decreases s.len(),
{
    if s.len() == 0 {
        0
    } else if is_ws_char(s[0]) {
        1 + trim_start_idx(s.drop_first())
    } else {
        0
    }
}

/// The length of `s` with trailing whitespace removed.
pub open spec fn trim_end_idx(s: Seq<char>) -> int
    decreases s.len(),
{
    if s.len() == 0 {
        0
    } else if is_ws_char(s[s.len() - 1]) {
        trim_end_idx(s.drop_last())
    } else {
        s.len() as int
    }
}

pub proof fn lemma_trim_start(s: Seq<char>)
    ensures
        0 <= trim_start_idx(s) <= s.len(),
        forall|k: int| 0 <= k < trim_start_idx(s) ==> is_ws_char(s[k]),
        trim_start_idx(s) < s.len() ==> !is_ws_char(s[trim_start_idx(s)]),
    decreases s.len(),
{
    if s.len() > 0 && is_ws_char(s[0]) {
        lemma_trim_start(s.drop_first());
        assert forall|k: int| 0 <= k < trim_start_idx(s) implies is_ws_char(s[k]) by {
            if k > 0 {
                assert(s.drop_first()[k - 1] == s[k]);
            }
        }
        if trim_start_idx(s) < s.len() {
            assert(s.drop_first()[trim_start_idx(s) - 1] == s[trim_start_idx(s)]);
        }
    }
}

pub proof fn lemma_trim_start_unique(s: Seq<char>, j: int)
    requires
        0 <= j <= s.len(),
        forall|k: int| 0 <= k < j ==> is_ws_char(s[k]),
        j < s.len() ==> !is_ws_char(s[j]),
    ensures
        trim_start_idx(s) == j,
    decreases s.len(),
{
    if s.len() > 0 {
        if j == 0 {
        } else {
            assert(is_ws_char(s[0]));
            assert forall|k: int| 0 <= k < j - 1 implies is_ws_char(s.drop_first()[k]) by {
                assert(s.drop_first()[k] == s[k + 1]);
            }
            assert(j - 1 < s.drop_first().len() ==> s.drop_first()[j - 1] == s[j]);
            lemma_trim_start_unique(s.drop_first(), j - 1);
        }
    }
}

pub proof fn lemma_trim_end(s: Seq<char>)
    ensures
        0 <= trim_end_idx(s) <= s.len(),
        forall|k: int| trim_end_idx(s) <= k < s.len() ==> is_ws_char(s[k]),
        trim_end_idx(s) > 0 ==> !is_ws_char(s[trim_end_idx(s) - 1]),
    decreases s.len(),
{
    if s.len() > 0 && is_ws_char(s[s.len() - 1]) {
        lemma_trim_end(s.drop_last());
        assert forall|k: int| trim_end_idx(s) <= k < s.len() implies is_ws_char(s[k]) by {
            if k < s.len() - 1 {
                assert(s.drop_last()[k] == s[k]);
            }
        }
        if trim_end_idx(s) > 0 {
            assert(s.drop_last()[trim_end_idx(s) - 1] == s[trim_end_idx(s) - 1]);
        }
    }
}

pub proof fn lemma_trim_end_unique(s: Seq<char>, j: int)
    requires
        0 <= j <= s.len(),
        forall|k: int| j <= k < s.len() ==> is_ws_char(s[k]),
        j > 0 ==> !is_ws_char(s[j - 1]),
    ensures
        trim_end_idx(s) == j,
    decreases s.len(),
{
    if s.len() > 0 {
        if j == s.len() {
            assert(!is_ws_char(s[s.len() - 1]));
        } else {
            assert(is_ws_char(s[s.len() - 1]));
            assert forall|k: int| j <= k < s.drop_last().len() implies is_ws_char(
                s.drop_last()[k],
            ) by {
                assert(s.drop_last()[k] == s[k]);
            }
            assert(j > 0 ==> s.drop_last()[j - 1] == s[j - 1]);
            lemma_trim_end_unique(s.drop_last(), j);
        }
    }
}

/// `s` with leading and trailing whitespace removed.
pub open spec fn trimmed(s: Seq<char>) -> Seq<char> {
    if trim_start_idx(s) <= trim_end_idx(s) {
        s.subrange(trim_start_idx(s), trim_end_idx(s))
    } else {
        Seq::empty()
    }
}

/// The executable trim boundaries of `v`: (first index after leading
/// whitespace, length without trailing whitespace).
pub fn trim_bounds(v: &Vec<char>) -> (r: (usize, usize))
    ensures
        r.0 == trim_start_idx(v@),
        r.1 == trim_end_idx(v@),
{
    let n = v.len();
    let mut a: usize = 0;
    while a < n && ws_char(v[a])
        invariant
            a <= n == v@.len(),
            forall|k: int| 0 <= k < a ==> is_ws_char(v@[k]),
        decreases n - a,
    {
        a = a + 1;
    }
    proof {
        lemma_trim_start_unique(v@, a as int);
    }
    let mut b: usize = n;
    while b > 0 && ws_char(v[b - 1])
        invariant
            b <= n == v@.len(),
            forall|k: int| b <= k < n ==> is_ws_char(v@[k]),
        decreases b,
    {
        b = b - 1;
    }
    proof {
        lemma_trim_end_unique(v@, b as int);
    }
    (a, b)
}

/// The number of leading `' '` characters of `s`.
pub open spec fn leading_spaces(s: Seq<char>) -> int
    decreases s.len(),
{
    if s.len() == 0 {
        0
    } else if s[0] == ' ' {
        1 + leading_spaces(s.drop_first())
    } else {
        0
    }
}

pub proof fn lemma_leading_spaces_unique(s: Seq<char>, j: int)
    requires
        0 <= j <= s.len(),
        forall|k: int| 0 <= k < j ==> s[k] == ' ',
        j < s.len() ==> s[j] != ' ',
    ensures
        leading_spaces(s) == j,
    decreases s.len(),
{
    if s.len() > 0 {
        if j == 0 {
        } else {
            assert(s[0] == ' ');
            assert forall|k: int| 0 <= k < j - 1 implies s.drop_first()[k] == ' ' by {
                assert(s.drop_first()[k] == s[k + 1]);
            }
            assert(j - 1 < s.drop_first().len() ==> s.drop_first()[j - 1] == s[j]);
            lemma_leading_spaces_unique(s.drop_first(), j - 1);
        }
    }
}

/// The number of leading `' '` characters of `v`.
pub fn count_leading_spaces(v: &Vec<char>) -> (j: usize)
    ensures
        j == leading_spaces(v@),
{
    let n = v.len();
    let mut j: usize = 0;
    while j < n && v[j] == ' '
        invariant
            j <= n == v@.len(),
            forall|k: int| 0 <= k < j ==> v@[k] == ' ',
        decreases n - j,
    {
        j = j + 1;
    }
    proof {
        lemma_leading_spaces_unique(v@, j as int);
    }
    j
}

// ---------------------------------------------------------------------------
// Decimal rendering.
// ---------------------------------------------------------------------------
/// The decimal digit character for `d` in `0..=9`.
pub open spec fn dec_digit(d: int) -> char {
    if d == 0 {
        '0'
    } else if d == 1 {
        '1'
    } else if d == 2 {
        '2'
    } else if d == 3 {
        '3'
    } else if d == 4 {
        '4'
    } else if d == 5 {
        '5'
    } else if d == 6 {
        '6'
    } else if d == 7 {
        '7'
    } else if d == 8 {
        '8'
    } else {
        '9'
    }
}

/// The decimal rendering of `n >= 0`, without leading zeroes (except for 0
/// itself).
pub open spec fn dec_str(n: int) -> Seq<char>
    decreases n,
{
    if n < 10 {
        seq![dec_digit(n)]
    } else {
        dec_str(n / 10).push(dec_digit(n % 10))
    }
}

fn digit_string(d: usize) -> (s: String)
    requires
        d < 10,
    ensures
        s@ == seq![dec_digit(d as int)],
{
    let r: &str = if d == 0 {
        "0"
    } else if d == 1 {
        "1"
    } else if d == 2 {
        "2"
    } else if d == 3 {
        "3"
    } else if d == 4 {
        "4"
    } else if d == 5 {
        "5"
    } else if d == 6 {
        "6"
    } else if d == 7 {
        "7"
    } else if d == 8 {
        "8"
    } else {
        "9"
    };
    proof {
        reveal_strlit("0");
        reveal_strlit("1");
        reveal_strlit("2");
        reveal_strlit("3");
        reveal_strlit("4");
        reveal_strlit("5");
        reveal_strlit("6");
        reveal_strlit("7");
        reveal_strlit("8");
        reveal_strlit("9");
        assert(r@ =~= seq![dec_digit(d as int)]);
    }
    r.to_owned()
}

/// The decimal rendering of `n`.
pub fn usize_to_string(n: usize) -> (s: String)
    ensures
        s@ == dec_str(n as int),
    decreases n,
{
    if n < 10 {
        digit_string(n)
    } else {
        let mut s = usize_to_string(n / 10);
        let d = digit_string(n % 10);
        s.append(d.as_str());
        assert(s@ =~= dec_str(n as int));
        s
    }
}

// ---------------------------------------------------------------------------
// String comparison helpers.
// ---------------------------------------------------------------------------
/// Whether `a` and `b` hold the same characters.
pub fn str_eq(a: &str, b: &str) -> (r: bool)
    ensures
        r == (a@ == b@),
{
    let na = a.unicode_len();
    let nb = b.unicode_len();
    if na != nb {
        return false;
    }
    let mut i: usize = 0;
    while i < na
        invariant
            na == a@.len() == nb == b@.len(),
            i <= na,
            forall|k: int| 0 <= k < i ==> a@[k] == b@[k],
        decreases na - i,
    {
        if a.get_char(i) != b.get_char(i) {
            return false;
        }
        i = i + 1;
    }
    proof {
        assert(a@ =~= b@);
    }
    true
}

/// Whether `p` is a prefix of `s`.
pub fn str_starts_with(s: &str, p: &str) -> (r: bool)
    ensures
        r == p@.is_prefix_of(s@),
{
    let ns = s.unicode_len();
    let np = p.unicode_len();
    if np > ns {
        assert(!p@.is_prefix_of(s@));
        return false;
    }
    let mut i: usize = 0;
    while i < np
        invariant
            ns == s@.len(),
            np == p@.len(),
            np <= ns,
            i <= np,
            forall|k: int| 0 <= k < i ==> s@[k] == p@[k],
        decreases np - i,
    {
        if s.get_char(i) != p.get_char(i) {
            assert(!p@.is_prefix_of(s@));
            return false;
        }
        i = i + 1;
    }
    proof {
        assert(p@ =~= s@.subrange(0, p@.len() as int));
    }
    true
}

} // verus!
