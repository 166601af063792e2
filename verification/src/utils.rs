//! String utilities: lexicographic comparison, substring search, and decimal
//! formatting, with full functional specifications.

use vstd::prelude::*;
use vstd::string::StrSliceExecFns;

verus! {

/// Strict lexicographic order on character sequences, by code point.
pub open spec fn lex_lt(a: Seq<char>, b: Seq<char>) -> bool
    decreases a.len(),
{
    if b.len() == 0 {
        false
    } else if a.len() == 0 {
        true
    } else if a[0] != b[0] {
        (a[0] as u32) < (b[0] as u32)
    } else {
        lex_lt(a.skip(1), b.skip(1))
    }
}

/// Exactly one of `lex_lt(a, b)`, `lex_lt(b, a)`, `a == b` holds:
/// the order is total and strict.
pub proof fn lemma_lex_lt_trichotomy(a: Seq<char>, b: Seq<char>)
    ensures
        lex_lt(a, b) || lex_lt(b, a) || a == b,
        !(lex_lt(a, b) && lex_lt(b, a)),
        lex_lt(a, b) ==> a != b,
    decreases a.len(),
{
    if b.len() == 0 {
        if a.len() == 0 {
            assert(a =~= b);
        } else {
            assert(lex_lt(b, a));
        }
    } else if a.len() == 0 {
        assert(lex_lt(a, b));
    } else if a[0] != b[0] {
        vstd::utf8::char_u32_cast(a[0], a[0] as u32);
        vstd::utf8::char_u32_cast(b[0], b[0] as u32);
        assert((a[0] as u32) != (b[0] as u32));
    } else {
        lemma_lex_lt_trichotomy(a.skip(1), b.skip(1));
        if a.skip(1) == b.skip(1) {
            assert(a.len() == 1 + a.skip(1).len());
            assert(b.len() == 1 + b.skip(1).len());
            assert forall|i: int| 0 <= i < a.len() implies a[i] == b[i] by {
                if i > 0 {
                    assert(a.skip(1)[i - 1] == b.skip(1)[i - 1]);
                }
            }
            assert(a =~= b);
        }
        if a == b {
            assert(a.skip(1) =~= b.skip(1));
        }
    }
}

/// The order is transitive.
pub proof fn lemma_lex_lt_trans(a: Seq<char>, b: Seq<char>, c: Seq<char>)
    requires
        lex_lt(a, b),
        lex_lt(b, c),
    ensures
        lex_lt(a, c),
    decreases a.len(),
{
    if c.len() == 0 {
    } else if a.len() == 0 {
    } else {
        // b is nonempty: lex_lt(a, b) with a nonempty forces b nonempty,
        // and lex_lt(b, c) would fail for empty b only if c were empty.
        if b.len() == 0 {
            assert(!lex_lt(b, c));
        } else if a[0] != b[0] {
            if b[0] != c[0] {
                if a[0] == c[0] {
                    assert((b[0] as u32) < (a[0] as u32));
                }
            }
        } else if b[0] != c[0] {
        } else {
            lemma_lex_lt_trans(a.skip(1), b.skip(1), c.skip(1));
        }
    }
}

/// Compares two strings in the order of [`lex_lt`].
pub fn str_lex_lt(a: &str, b: &str) -> (r: bool)
    ensures
        r == lex_lt(a@, b@),
    decreases a@.len(),
{
    let al = a.unicode_len();
    let bl = b.unicode_len();
    if bl == 0 {
        false
    } else if al == 0 {
        true
    } else {
        let ca = a.get_char(0);
        let cb = b.get_char(0);
        if ca != cb {
            (ca as u32) < (cb as u32)
        } else {
            let r = str_lex_lt(a.substring_char(1, al), b.substring_char(1, bl));
            proof {
                assert(a@.subrange(1, al as int) =~= a@.skip(1));
                assert(b@.subrange(1, bl as int) =~= b@.skip(1));
            }
            r
        }
    }
}

/// Character-for-character equality of two strings.
pub fn str_eq(a: &str, b: &str) -> (r: bool)
    ensures
        r == (a@ == b@),
{
    let al = a.unicode_len();
    let bl = b.unicode_len();
    if al != bl {
        return false;
    }
    let mut i: usize = 0;
    while i < al
        invariant
            al == a@.len(),
            al == b@.len(),
            i <= al,
            forall|j: int| 0 <= j < i ==> a@[j] == b@[j],
        decreases al - i,
    {
        if a.get_char(i) != b.get_char(i) {
            return false;
        }
        i += 1;
    }
    proof {
        assert(a@ =~= b@);
    }
    true
}

/// `needle` occurs in `hay` starting at position `i`.
pub open spec fn is_substring_at(hay: Seq<char>, needle: Seq<char>, i: int) -> bool {
    0 <= i && i + needle.len() <= hay.len() && hay.subrange(i, i + needle.len() as int) == needle
}

/// `needle` occurs somewhere in `hay`.
pub open spec fn is_substring(hay: Seq<char>, needle: Seq<char>) -> bool {
    exists|i: int| is_substring_at(hay, needle, i)
}

fn str_match_at(hay: &str, needle: &str, i: usize) -> (r: bool)
    requires
        i + needle@.len() <= hay@.len(),
    ensures
        r == is_substring_at(hay@, needle@, i as int),
{
    let hl = hay.unicode_len();
    let nl = needle.unicode_len();
    let mut k: usize = 0;
    while k < nl
        invariant
            k <= nl,
            hl == hay@.len(),
            nl == needle@.len(),
            i + nl <= hl,
            forall|m: int| 0 <= m < k ==> hay@[i + m] == needle@[m],
        decreases nl - k,
    {
        let hc = hay.get_char(i + k);
        let nc = needle.get_char(k);
        if hc != nc {
            proof {
                let w = hay@.subrange(i as int, i + nl as int);
                assert(w[k as int] != needle@[k as int]);
            }
            return false;
        }
        k += 1;
    }
    proof {
        assert(hay@.subrange(i as int, i + nl as int) =~= needle@);
    }
    true
}

/// Substring search: does `hay` contain `needle`?
pub fn str_contains(hay: &str, needle: &str) -> (r: bool)
    ensures
        r == is_substring(hay@, needle@),
{
    let hl = hay.unicode_len();
    let nl = needle.unicode_len();
    if nl > hl {
        proof {
            assert(forall|i: int| !is_substring_at(hay@, needle@, i));
        }
        return false;
    }
    let bound = hl - nl;
    let mut i: usize = 0;
    loop
        invariant
            hl == hay@.len(),
            nl == needle@.len(),
            nl <= hl,
            bound == hl - nl,
            i <= bound,
            forall|j: int| 0 <= j < i ==> !is_substring_at(hay@, needle@, j),
        decreases bound - i,
    {
        if str_match_at(hay, needle, i) {
            return true;
        }
        if i == bound {
            proof {
                assert(forall|j: int|
                    is_substring_at(hay@, needle@, j) ==> 0 <= j <= hl - nl);
            }
            return false;
        }
        i += 1;
    }
}

/// Is `c` a path separator?
pub open spec fn is_path_sep(c: char) -> bool {
    c == '/' || c == '\\'
}

/// The part of a file path after the last path separator.
pub open spec fn file_subtitle(s: Seq<char>) -> Seq<char>
    decreases s.len(),
{
    if s.len() == 0 {
        s
    } else if is_path_sep(s.last()) {
        Seq::empty()
    } else {
        file_subtitle(s.drop_last()).push(s.last())
    }
}

proof fn lemma_file_subtitle_suffix(s: Seq<char>, k: int)
    requires
        0 <= k <= s.len(),
        forall|i: int| k <= i < s.len() ==> !is_path_sep(#[trigger] s[i]),
        k > 0 ==> is_path_sep(s[k - 1]),
    ensures
        file_subtitle(s) == s.subrange(k, s.len() as int),
    decreases s.len(),
{
    if s.len() == 0 {
        assert(file_subtitle(s) =~= s.subrange(0, 0));
    } else if k == s.len() {
        assert(is_path_sep(s.last()));
        assert(file_subtitle(s) =~= s.subrange(k, s.len() as int));
    } else {
        assert(!is_path_sep(s.last()));
        lemma_file_subtitle_suffix(s.drop_last(), k);
        assert(s.drop_last().subrange(k, s.len() - 1) =~= s.subrange(k, s.len() - 1));
        assert(file_subtitle(s) =~= s.subrange(k, s.len() as int));
    }
}

/// The file name without its directory part: everything after the last
/// `/` or `\` separator.
pub fn extract_file_subtitle(file: &str) -> (r: &str)
    ensures
        r@ == file_subtitle(file@),
{
    let len = file.unicode_len();
    let mut start: usize = 0;
    let mut i: usize = 0;
    while i < len
        invariant
            len == file@.len(),
            i <= len,
            start <= i,
            forall|j: int| start <= j < i ==> !is_path_sep(#[trigger] file@[j]),
            start > 0 ==> is_path_sep(file@[start as int - 1]),
        decreases len - i,
    {
        let c = file.get_char(i);
        if c == '/' || c == '\\' {
            start = i + 1;
        }
        i += 1;
    }
    proof {
        lemma_file_subtitle_suffix(file@, start as int);
    }
    file.substring_char(start, len)
}

/// The decimal digit character for `d`.
pub open spec fn spec_digit_char(d: int) -> char {
    if d == 0 { '0' }
    else if d == 1 { '1' }
    else if d == 2 { '2' }
    else if d == 3 { '3' }
    else if d == 4 { '4' }
    else if d == 5 { '5' }
    else if d == 6 { '6' }
    else if d == 7 { '7' }
    else if d == 8 { '8' }
    else { '9' }
}

/// The decimal digit string of `n`, most significant digit first.
pub open spec fn spec_decimal(n: int) -> Seq<char>
    decreases n,
{
    if n < 10 {
        seq![spec_digit_char(n)]
    } else {
        spec_decimal(n / 10).push(spec_digit_char(n % 10))
    }
}

fn digit_str(d: u64) -> (r: &'static str)
    requires
        d < 10,
    ensures
        r@ == seq![spec_digit_char(d as int)],
{
    proof {
        reveal_strlit("0");
        reveal_strlit("1");
        reveal_strlit("2");
        reveal_strlit("3");
        reveal_strlit("4");
        reveal_strlit("5");
        reveal_strlit("6");
        reveal_strlit("7");
        reveal_strlit("8");
        reveal_strlit("9");
    }
    if d == 0 { let r = "0"; proof { assert(r@ =~= seq![spec_digit_char(0)]); } r }
    else if d == 1 { let r = "1"; proof { assert(r@ =~= seq![spec_digit_char(1)]); } r }
    else if d == 2 { let r = "2"; proof { assert(r@ =~= seq![spec_digit_char(2)]); } r }
    else if d == 3 { let r = "3"; proof { assert(r@ =~= seq![spec_digit_char(3)]); } r }
    else if d == 4 { let r = "4"; proof { assert(r@ =~= seq![spec_digit_char(4)]); } r }
    else if d == 5 { let r = "5"; proof { assert(r@ =~= seq![spec_digit_char(5)]); } r }
    else if d == 6 { let r = "6"; proof { assert(r@ =~= seq![spec_digit_char(6)]); } r }
    else if d == 7 { let r = "7"; proof { assert(r@ =~= seq![spec_digit_char(7)]); } r }
    else if d == 8 { let r = "8"; proof { assert(r@ =~= seq![spec_digit_char(8)]); } r }
    else { let r = "9"; proof { assert(r@ =~= seq![spec_digit_char(9)]); } r }
}

/// Renders `n` in decimal.
pub fn u64_to_string(n: u64) -> (s: String)
    ensures
        s@ == spec_decimal(n as int),
    decreases n,
{
    if n < 10 {
        String::from_str(digit_str(n))
    } else {
        let mut s = u64_to_string(n / 10);
        s.append(digit_str(n % 10));
        proof {
            assert(s@ =~= spec_decimal(n as int / 10).push(spec_digit_char(n as int % 10)));
        }
        s
    }
}

/// Renders `n` in decimal.
pub fn usize_to_string(n: usize) -> (s: String)
    ensures
        s@ == spec_decimal(n as int),
{
    u64_to_string(n as u64)
}

/// `n` rendered in decimal and zero-padded on the left to three digits.
pub open spec fn spec_pad3(n: int) -> Seq<char> {
    if n < 10 {
        seq!['0', '0'] + spec_decimal(n)
    } else if n < 100 {
        seq!['0'] + spec_decimal(n)
    } else {
        spec_decimal(n)
    }
}

/// A duration in nanoseconds rendered as microseconds with three decimal
/// places.
pub open spec fn spec_micros_3dp(nanos: int) -> Seq<char> {
    spec_decimal(nanos / 1000) + seq!['.'] + spec_pad3(nanos % 1000)
}

/// Renders a nanosecond duration as microseconds with three decimals.
pub fn format_micros_3dp(nanos: u64) -> (s: String)
    ensures
        s@ == spec_micros_3dp(nanos as int),
{
    let mut s = u64_to_string(nanos / 1000);
    let frac = nanos % 1000;
    proof {
        reveal_strlit(".");
        reveal_strlit("0");
        reveal_strlit("00");
        assert("."@ =~= seq!['.']);
        assert("0"@ =~= seq!['0']);
        assert("00"@ =~= seq!['0', '0']);
    }
    s.append(".");
    if frac < 10 {
        s.append("00");
    } else if frac < 100 {
        s.append("0");
    }
    let digits = u64_to_string(frac);
    s.append(digits.as_str());
    proof {
        assert(s@ =~= spec_micros_3dp(nanos as int));
    }
    s
}

/// A duration in nanoseconds rendered as seconds with two decimal places,
/// rounded to the nearest hundredth.
pub open spec fn spec_secs_2dp(nanos: int) -> Seq<char> {
    let centis = (nanos + 5_000_000) / 10_000_000;
    spec_decimal(centis / 100) + seq!['.'] + (if centis % 100 < 10 {
        seq!['0'] + spec_decimal(centis % 100)
    } else {
        spec_decimal(centis % 100)
    })
}

/// Renders a nanosecond duration as seconds with two decimals.
pub fn format_secs_2dp(nanos: u64) -> (s: String)
    requires
        nanos + 5_000_000 <= u64::MAX,
    ensures
        s@ == spec_secs_2dp(nanos as int),
{
    let centis = (nanos + 5_000_000) / 10_000_000;
    let mut s = u64_to_string(centis / 100);
    let frac = centis % 100;
    proof {
        reveal_strlit(".");
        reveal_strlit("0");
        assert("."@ =~= seq!['.']);
        assert("0"@ =~= seq!['0']);
    }
    s.append(".");
    if frac < 10 {
        s.append("0");
    }
    let digits = u64_to_string(frac);
    s.append(digits.as_str());
    proof {
        assert(s@ =~= spec_secs_2dp(nanos as int));
    }
    s
}

/// `n` copies of the space character.
pub open spec fn spec_spaces(n: int) -> Seq<char> {
    Seq::new(n as nat, |i: int| ' ')
}

/// `s` centered in a field of `width` characters, padded with spaces; a
/// longer string is left as it is.
pub open spec fn spec_center(s: Seq<char>, width: int) -> Seq<char> {
    if s.len() >= width {
        s
    } else {
        let left = (width - s.len()) / 2;
        spec_spaces(left) + s + spec_spaces(width - s.len() - left)
    }
}

/// The parts joined with the separator between them.
pub open spec fn spec_join(parts: Seq<Seq<char>>, sep: Seq<char>) -> Seq<char>
    decreases parts.len(),
{
    if parts.len() == 0 {
        Seq::empty()
    } else if parts.len() == 1 {
        parts[0]
    } else {
        spec_join(parts.drop_last(), sep) + sep + parts.last()
    }
}

/// Centers a string in a field of `width` characters.
pub fn center(s: &str, width: usize) -> (r: String)
    ensures
        r@ == spec_center(s@, width as int),
{
    let len = s.unicode_len();
    if len >= width {
        return String::from_str(s);
    }
    let left = (width - len) / 2;
    let mut r = spaces(left);
    r.append(s);
    let right = spaces(width - len - left);
    r.append(right.as_str());
    r
}

/// Joins the parts with the separator between them.
pub fn join_strings(parts: &Vec<String>, sep: &str) -> (r: String)
    ensures
        r@ == spec_join(parts.deep_view(), sep@),
{
    let n = parts.len();
    if n == 0 {
        return String::new();
    }
    let mut r = String::from_str(parts[0].as_str());
    proof {
        assert(parts.deep_view()[0] == parts@[0]@);
        assert(parts.deep_view().take(1) =~= seq![parts.deep_view()[0]]);
    }
    let mut i: usize = 1;
    while i < n
        invariant
            1 <= i <= n,
            n == parts@.len(),
            r@ == spec_join(parts.deep_view().take(i as int), sep@),
        decreases n - i,
    {
        r.append(sep);
        r.append(parts[i].as_str());
        proof {
            assert(parts.deep_view()[i as int] == parts@[i as int]@);
            assert(parts.deep_view().take(i + 1).drop_last() =~= parts.deep_view().take(
                i as int,
            ));
            assert(parts.deep_view().take(i + 1).last() == parts.deep_view()[i as int]);
        }
        i += 1;
    }
    proof {
        assert(parts.deep_view().take(n as int) =~= parts.deep_view());
    }
    r
}

/// `n` copies of the space character.
pub fn spaces(n: usize) -> (s: String)
    ensures
        s@ == Seq::new(n as nat, |i: int| ' '),
{
    let mut s = String::new();
    let mut i: usize = 0;
    while i < n
        invariant
            i <= n,
            s@ =~= Seq::new(i as nat, |j: int| ' '),
        decreases n - i,
    {
        s.append(" ");
        i += 1;
        proof {
            reveal_strlit(" ");
            assert(" "@ =~= seq![' ']);
            assert(s@ =~= Seq::new(i as nat, |j: int| ' '));
        }
    }
    s
}

} // verus!
