//! Character and string primitives: whitespace trimming, ASCII case
//! mapping, and the topic-name normalization rule.

use vstd::prelude::*;
use vstd::string::StrSliceExecFns;

verus! {

// ---------- character classes ----------

/// The Unicode `White_Space` code points: the set that both `str::trim`
/// and the whitespace character class in topic normalization range over.
pub open spec fn is_space(c: char) -> bool {
    ||| c == ' '
    ||| ('\u{9}' <= c && c <= '\u{d}')
    ||| c == '\u{85}'
    ||| c == '\u{a0}'
    ||| c == '\u{1680}'
    ||| ('\u{2000}' <= c && c <= '\u{200a}')
    ||| c == '\u{2028}'
    ||| c == '\u{2029}'
    ||| c == '\u{202f}'
    ||| c == '\u{205f}'
    ||| c == '\u{3000}'
}

pub fn char_is_space(c: char) -> (r: bool)
    ensures
        r == is_space(c),
{
    c == ' ' || ('\u{9}' <= c && c <= '\u{d}') || c == '\u{85}' || c == '\u{a0}'
        || c == '\u{1680}' || ('\u{2000}' <= c && c <= '\u{200a}') || c == '\u{2028}'
        || c == '\u{2029}' || c == '\u{202f}' || c == '\u{205f}' || c == '\u{3000}'
}

pub open spec fn is_ascii_letter(c: char) -> bool {
    ('a' <= c && c <= 'z') || ('A' <= c && c <= 'Z')
}

pub fn char_is_ascii_letter(c: char) -> (r: bool)
    ensures
        r == is_ascii_letter(c),
{
    ('a' <= c && c <= 'z') || ('A' <= c && c <= 'Z')
}

/// Lower-cases one ASCII letter; every other character is unchanged.
pub open spec fn ascii_lower(c: char) -> char {
    if 'A' <= c && c <= 'Z' {
        ((c as u8) + 32) as char
    } else {
        c
    }
}

pub fn to_ascii_lower(c: char) -> (r: char)
    ensures
        r == ascii_lower(c),
{
    if 'A' <= c && c <= 'Z' {
        let b: u8 = c as u8;
        (b + 32) as char
    } else {
        c
    }
}

/// Upper-cases one ASCII letter; every other character is unchanged.
pub open spec fn ascii_upper(c: char) -> char {
    if 'a' <= c && c <= 'z' {
        ((c as u8) - 32) as char
    } else {
        c
    }
}

pub fn to_ascii_upper(c: char) -> (r: char)
    ensures
        r == ascii_upper(c),
{
    if 'a' <= c && c <= 'z' {
        let b: u8 = c as u8;
        (b - 32) as char
    } else {
        c
    }
}

// ---------- conversions between String and Vec<char> ----------

pub fn str_chars(s: &str) -> (r: Vec<char>)
    ensures
        r@ == s@,
{
    let n: usize = s.unicode_len();
    let mut v: Vec<char> = Vec::new();
    let mut i: usize = 0;
    while i < n
        invariant
            i <= n,
            n == s@.len(),
            v@ == s@.take(i as int),
        decreases n - i,
    {
        let c = s.get_char(i);
        v.push(c);
        assert(s@.take(i + 1 as int) =~= s@.take(i as int).push(s@[i as int]));
        i = i + 1;
    }
    assert(s@.take(n as int) =~= s@);
    v
}

/// Relies on `String`'s `FromIterator` impl: collecting an iterator of
/// characters yields the string of exactly those characters in order.
#[verifier::external_body]
pub fn chars_to_string(v: &Vec<char>) -> (r: String)
    ensures
        r@ == v@,
{
    v.iter().collect()
}

// ---------- trimming ----------

pub open spec fn trim_start_spec(s: Seq<char>) -> Seq<char>
    decreases s.len(),
{
    if s.len() > 0 && is_space(s.first()) {
        trim_start_spec(s.drop_first())
    } else {
        s
    }
}

pub open spec fn trim_end_spec(s: Seq<char>) -> Seq<char>
    decreases s.len(),
{
    if s.len() > 0 && is_space(s.last()) {
        trim_end_spec(s.drop_last())
    } else {
        s
    }
}

/// What `str::trim` returns: the input without leading and trailing
/// whitespace.
pub open spec fn trim_spec(s: Seq<char>) -> Seq<char> {
    trim_end_spec(trim_start_spec(s))
}

proof fn lemma_trim_start_range(s: Seq<char>, lo: int)
    requires
        0 <= lo <= s.len(),
        forall|j: int| 0 <= j < lo ==> is_space(s[j]),
        lo < s.len() ==> !is_space(s[lo]),
    ensures
        trim_start_spec(s) == s.subrange(lo, s.len() as int),
    decreases lo,
{
    if lo == 0 {
        assert(s.subrange(0, s.len() as int) =~= s);
    } else {
        let t = s.drop_first();
        lemma_trim_start_range(t, lo - 1);
        assert(t.subrange(lo - 1, t.len() as int) =~= s.subrange(lo, s.len() as int));
    }
}

proof fn lemma_trim_end_range(s: Seq<char>, hi: int)
    requires
        0 <= hi <= s.len(),
        forall|j: int| hi <= j < s.len() ==> is_space(s[j]),
        hi > 0 ==> !is_space(s[hi - 1]),
    ensures
        trim_end_spec(s) == s.subrange(0, hi),
    decreases s.len(),
{
    if s.len() > 0 && is_space(s.last()) {
        let t = s.drop_last();
        lemma_trim_end_range(t, hi);
        assert(t.subrange(0, hi) =~= s.subrange(0, hi));
    } else {
        assert(s.subrange(0, hi) =~= s);
    }
}

pub fn trim_chars(v: &Vec<char>) -> (r: Vec<char>)
    ensures
        r@ == trim_spec(v@),
{
    let n: usize = v.len();
    let mut lo: usize = 0;
    while lo < n && char_is_space(v[lo])
        invariant
            lo <= n,
            n == v@.len(),
            forall|j: int| 0 <= j < lo ==> is_space(v@[j]),
        decreases n - lo,
    {
        lo = lo + 1;
    }
    proof {
        lemma_trim_start_range(v@, lo as int);
    }
    if lo == n {
        let r: Vec<char> = Vec::new();
        proof {
            lemma_trim_end_range(v@.subrange(lo as int, n as int), 0);
            assert(v@.subrange(lo as int, n as int) =~= Seq::<char>::empty());
            assert(Seq::<char>::empty().subrange(0, 0) =~= Seq::<char>::empty());
        }
        return r;
    }
    let mut hi: usize = n;
    while hi > lo + 1 && char_is_space(v[hi - 1])
        invariant
            lo < hi <= n,
            n == v@.len(),
            forall|j: int| hi <= j < n ==> is_space(v@[j]),
        decreases hi,
    {
        hi = hi - 1;
    }
    // hi - 1 is either a non-space or the first kept character
    let mut out: Vec<char> = Vec::new();
    let mut i: usize = lo;
    while i < hi
        invariant
            lo <= i <= hi <= n,
            n == v@.len(),
            out@ == v@.subrange(lo as int, i as int),
        decreases hi - i,
    {
        out.push(v[i]);
        assert(v@.subrange(lo as int, i + 1 as int) =~= v@.subrange(lo as int, i as int).push(
            v@[i as int],
        ));
        i = i + 1;
    }
    proof {
        let t = v@.subrange(lo as int, n as int);
        let k = (hi - lo) as int;
        // v[hi - 1] is v[lo] (a non-space) when hi == lo + 1, and otherwise
        // the second loop stopped on a non-space
        assert(t[k - 1] == v@[hi - 1]);
        assert(!is_space(t[k - 1]));
        assert(forall|j: int| k <= j < t.len() ==> is_space(t[j]));
        lemma_trim_end_range(t, k);
        assert(t.subrange(0, k) =~= v@.subrange(lo as int, hi as int));
    }
    out
}

// ---------- topic-name normalization ----------

/// A character that normalization keeps: an ASCII letter or whitespace.
pub open spec fn is_kept(c: char) -> bool {
    is_ascii_letter(c) || is_space(c)
}

pub open spec fn lower_all(s: Seq<char>) -> Seq<char> {
    s.map_values(|c: char| ascii_lower(c))
}

pub open spec fn capitalize_first(s: Seq<char>) -> Seq<char> {
    if s.len() == 0 {
        s
    } else {
        seq![ascii_upper(s[0])] + s.drop_first()
    }
}

/// Topic-name normalization: trim whitespace, lower-case, capitalize the
/// first character, then strip every character that is neither an ASCII
/// letter nor whitespace.
pub open spec fn normalize_topic(s: Seq<char>) -> Seq<char> {
    capitalize_first(lower_all(trim_spec(s))).filter(|c: char| is_kept(c))
}

proof fn lemma_filter_take_step(s: Seq<char>, p: spec_fn(char) -> bool, i: int)
    requires
        0 <= i < s.len(),
    ensures
        s.take(i + 1).filter(p) == if p(s[i]) {
            s.take(i).filter(p).push(s[i])
        } else {
            s.take(i).filter(p)
        },
{
    reveal(Seq::filter);
    assert(s.take(i + 1).drop_last() =~= s.take(i));
    assert(s.take(i + 1).last() == s[i]);
}

pub fn normalize_topic_string(s: &String) -> (r: String)
    ensures
        r@ == normalize_topic(s@),
{
    let chars = str_chars(s.as_str());
    let t = trim_chars(&chars);
    let ghost mid = capitalize_first(lower_all(t@));
    let m: usize = t.len();
    let mut out: Vec<char> = Vec::new();
    let mut i: usize = 0;
    proof {
        assert(mid.len() == t@.len());
    }
    while i < m
        invariant
            i <= m,
            m == t@.len(),
            mid == capitalize_first(lower_all(t@)),
            mid.len() == m,
            out@ == mid.take(i as int).filter(|c: char| is_kept(c)),
        decreases m - i,
    {
        let c0 = t[i];
        let c1 = to_ascii_lower(c0);
        let c2 = if i == 0 {
            to_ascii_upper(c1)
        } else {
            c1
        };
        proof {
            assert(lower_all(t@)[i as int] == ascii_lower(t@[i as int]));
            if i == 0 {
                assert(mid[0] == ascii_upper(lower_all(t@)[0]));
            } else {
                assert(mid[i as int] == lower_all(t@)[i as int]);
            }
            assert(c2 == mid[i as int]);
            lemma_filter_take_step(mid, |c: char| is_kept(c), i as int);
        }
        if char_is_ascii_letter(c2) || char_is_space(c2) {
            out.push(c2);
        }
        i = i + 1;
    }
    proof {
        assert(mid.take(m as int) =~= mid);
    }
    chars_to_string(&out)
}

// ---------- decimal rendering ----------

pub open spec fn digit_char(d: nat) -> char {
    ((48 + d) as u8) as char
}

/// The decimal digits of a natural number, most significant first.
pub open spec fn dec_digits(n: nat) -> Seq<char>
    decreases n,
{
    if n < 10 {
        seq![digit_char(n)]
    } else {
        dec_digits(n / 10).push(digit_char(n % 10))
    }
}

/// The decimal rendering of a signed number.
pub open spec fn dec_i32(v: int) -> Seq<char> {
    if v < 0 {
        seq!['-'] + dec_digits((-v) as nat)
    } else {
        dec_digits(v as nat)
    }
}

fn u32_digits(n: u32) -> (r: Vec<char>)
    ensures
        r@ == dec_digits(n as nat),
    decreases n,
{
    if n < 10 {
        let d: u8 = (n as u8) + 48;
        let mut v: Vec<char> = Vec::new();
        v.push(d as char);
        proof {
            assert(v@ =~= seq![digit_char(n as nat)]);
        }
        v
    } else {
        let mut v = u32_digits(n / 10);
        let d: u8 = ((n % 10) as u8) + 48;
        v.push(d as char);
        v
    }
}

pub fn i32_to_string(v: i32) -> (r: String)
    ensures
        r@ == dec_i32(v as int),
{
    if v >= 0 {
        chars_to_string(&u32_digits(v as u32))
    } else {
        let m: u32 = ((-(v as i64)) as u32);
        let mut out: Vec<char> = Vec::new();
        out.push('-');
        let mut digits = u32_digits(m);
        proof {
            assert(out@ =~= seq!['-']);
        }
        out.append(&mut digits);
        chars_to_string(&out)
    }
}

// ---------- splitting on a colon ----------

/// The prefix before the first colon; the whole text when there is none.
pub open spec fn upto_colon(s: Seq<char>) -> Seq<char>
    decreases s.len(),
{
    if s.len() == 0 {
        s
    } else if s[0] == ':' {
        Seq::empty()
    } else {
        seq![s[0]] + upto_colon(s.drop_first())
    }
}

/// What follows the first colon; empty when there is none.
pub open spec fn after_colon(s: Seq<char>) -> Seq<char>
    decreases s.len(),
{
    if s.len() == 0 {
        s
    } else if s[0] == ':' {
        s.drop_first()
    } else {
        after_colon(s.drop_first())
    }
}

proof fn lemma_upto_colon_range(s: Seq<char>, k: int)
    requires
        0 <= k <= s.len(),
        forall|j: int| 0 <= j < k ==> s[j] != ':',
        k < s.len() ==> s[k] == ':',
    ensures
        upto_colon(s) == s.subrange(0, k),
        after_colon(s) == if k == s.len() {
            Seq::<char>::empty()
        } else {
            s.subrange(k + 1, s.len() as int)
        },
    decreases k,
{
    if s.len() == 0 {
        assert(s.subrange(0, 0) =~= s);
    } else if k == 0 {
        assert(s.subrange(0, 0) =~= Seq::<char>::empty());
        assert(s.subrange(1, s.len() as int) =~= s.drop_first());
    } else {
        let t = s.drop_first();
        lemma_upto_colon_range(t, k - 1);
        assert(seq![s[0]] + t.subrange(0, k - 1) =~= s.subrange(0, k));
        if k < s.len() {
            assert(t.subrange(k, t.len() as int) =~= s.subrange(k + 1, s.len() as int));
        }
    }
}

/// Splits `"name:color"` into the part before the first colon and the
/// part between the first and second colons; missing parts are empty.
pub fn split_colon_pair(s: &String) -> (r: (String, String))
    ensures
        r.0@ == upto_colon(s@),
        r.1@ == upto_colon(after_colon(s@)),
{
    let chars = str_chars(s.as_str());
    let n: usize = chars.len();
    let mut c1: usize = 0;
    while c1 < n && chars[c1] != ':'
        invariant
            c1 <= n,
            n == chars@.len(),
            forall|j: int| 0 <= j < c1 ==> chars@[j] != ':',
        decreases n - c1,
    {
        c1 = c1 + 1;
    }
    proof {
        lemma_upto_colon_range(chars@, c1 as int);
    }
    let mut first: Vec<char> = Vec::new();
    let mut i: usize = 0;
    while i < c1
        invariant
            i <= c1 <= n,
            n == chars@.len(),
            first@ == chars@.subrange(0, i as int),
        decreases c1 - i,
    {
        first.push(chars[i]);
        assert(chars@.subrange(0, i + 1 as int) =~= chars@.subrange(0, i as int).push(
            chars@[i as int],
        ));
        i = i + 1;
    }
    if c1 == n {
        let second: Vec<char> = Vec::new();
        proof {
            assert(upto_colon(after_colon(chars@)) =~= Seq::<char>::empty());
        }
        return (chars_to_string(&first), chars_to_string(&second));
    }
    let ghost rest = chars@.subrange(c1 + 1, n as int);
    let mut c2: usize = c1 + 1;
    while c2 < n && chars[c2] != ':'
        invariant
            c1 + 1 <= c2 <= n,
            n == chars@.len(),
            forall|j: int| c1 + 1 <= j < c2 ==> chars@[j] != ':',
        decreases n - c2,
    {
        c2 = c2 + 1;
    }
    proof {
        assert(forall|j: int| 0 <= j < c2 - c1 - 1 ==> rest[j] != ':');
        lemma_upto_colon_range(rest, c2 - c1 - 1);
    }
    let mut second: Vec<char> = Vec::new();
    let mut k: usize = c1 + 1;
    while k < c2
        invariant
            c1 + 1 <= k <= c2 <= n,
            n == chars@.len(),
            rest == chars@.subrange(c1 + 1, n as int),
            second@ == rest.subrange(0, k - c1 - 1),
        decreases c2 - k,
    {
        second.push(chars[k]);
        assert(rest.subrange(0, (k - c1) as int) =~= rest.subrange(0, (k - c1 - 1) as int).push(
            rest[(k - c1 - 1) as int],
        ));
        k = k + 1;
    }
    proof {
        assert(second@ =~= rest.subrange(0, c2 - c1 - 1));
    }
    (chars_to_string(&first), chars_to_string(&second))
}

// ---------- whitespace tokens ----------

/// The longest whitespace-free prefix.
pub open spec fn take_nonspace(s: Seq<char>) -> Seq<char>
    decreases s.len(),
{
    if s.len() > 0 && !is_space(s.first()) {
        seq![s.first()] + take_nonspace(s.drop_first())
    } else {
        Seq::empty()
    }
}

/// What remains after the longest whitespace-free prefix.
pub open spec fn drop_nonspace(s: Seq<char>) -> Seq<char>
    decreases s.len(),
{
    if s.len() > 0 && !is_space(s.first()) {
        drop_nonspace(s.drop_first())
    } else {
        s
    }
}

/// The second whitespace-separated token, as header splitting reads a
/// bearer credential; absent when there is no second token.
pub open spec fn second_token(s: Seq<char>) -> Option<Seq<char>> {
    let t = take_nonspace(trim_start_spec(drop_nonspace(trim_start_spec(s))));
    if t.len() == 0 {
        None
    } else {
        Some(t)
    }
}

proof fn lemma_nonspace_range(s: Seq<char>, k: int)
    requires
        0 <= k <= s.len(),
        forall|j: int| 0 <= j < k ==> !is_space(s[j]),
        k < s.len() ==> is_space(s[k]),
    ensures
        take_nonspace(s) == s.subrange(0, k),
        drop_nonspace(s) == s.subrange(k, s.len() as int),
    decreases k,
{
    if s.len() == 0 || k == 0 {
        assert(s.subrange(0, 0) =~= Seq::<char>::empty());
        assert(s.subrange(0, s.len() as int) =~= s);
    } else {
        let t = s.drop_first();
        lemma_nonspace_range(t, k - 1);
        assert(seq![s[0]] + t.subrange(0, k - 1) =~= s.subrange(0, k));
        assert(t.subrange(k - 1, t.len() as int) =~= s.subrange(k, s.len() as int));
    }
}

proof fn lemma_trim_start_range_pub(s: Seq<char>, lo: int)
    requires
        0 <= lo <= s.len(),
        forall|j: int| 0 <= j < lo ==> is_space(s[j]),
        lo < s.len() ==> !is_space(s[lo]),
    ensures
        trim_start_spec(s) == s.subrange(lo, s.len() as int),
    decreases lo,
{
    lemma_trim_start_range(s, lo);
}

/// Reads the second whitespace-separated token of a header value.
pub fn second_token_str(s: &str) -> (r: Option<String>)
    ensures
        match r {
            Some(t) => second_token(s@) matches Some(v) && t@ == v,
            None => second_token(s@) is None,
        },
{
    let chars = str_chars(s);
    let n: usize = chars.len();
    // skip leading whitespace
    let mut a: usize = 0;
    while a < n && char_is_space(chars[a])
        invariant
            a <= n,
            n == chars@.len(),
            forall|j: int| 0 <= j < a ==> is_space(chars@[j]),
        decreases n - a,
    {
        a = a + 1;
    }
    // skip the first token
    let mut b: usize = a;
    while b < n && !char_is_space(chars[b])
        invariant
            a <= b <= n,
            n == chars@.len(),
            forall|j: int| a <= j < b ==> !is_space(chars@[j]),
        decreases n - b,
    {
        b = b + 1;
    }
    // skip the whitespace between the tokens
    let mut c: usize = b;
    while c < n && char_is_space(chars[c])
        invariant
            b <= c <= n,
            n == chars@.len(),
            forall|j: int| b <= j < c ==> is_space(chars@[j]),
        decreases n - c,
    {
        c = c + 1;
    }
    // read the second token
    let mut d: usize = c;
    let mut tok: Vec<char> = Vec::new();
    while d < n && !char_is_space(chars[d])
        invariant
            c <= d <= n,
            n == chars@.len(),
            forall|j: int| c <= j < d ==> !is_space(chars@[j]),
            tok@ == chars@.subrange(c as int, d as int),
        decreases n - d,
    {
        tok.push(chars[d]);
        assert(chars@.subrange(c as int, d + 1 as int) =~= chars@.subrange(c as int, d as int).push(
            chars@[d as int],
        ));
        d = d + 1;
    }
    proof {
        let s0 = chars@;
        lemma_trim_start_range_pub(s0, a as int);
        let s1 = s0.subrange(a as int, n as int);
        assert(forall|j: int| 0 <= j < b - a ==> !is_space(s1[j]));
        lemma_nonspace_range(s1, b - a);
        let s2 = s1.subrange((b - a) as int, s1.len() as int);
        assert(s2 =~= s0.subrange(b as int, n as int));
        assert(forall|j: int| 0 <= j < c - b ==> is_space(s2[j]));
        lemma_trim_start_range_pub(s2, (c - b) as int);
        let s3 = s2.subrange((c - b) as int, s2.len() as int);
        assert(s3 =~= s0.subrange(c as int, n as int));
        assert(forall|j: int| 0 <= j < d - c ==> !is_space(s3[j]));
        lemma_nonspace_range(s3, (d - c) as int);
        assert(take_nonspace(s3) =~= s0.subrange(c as int, d as int));
    }
    if tok.len() == 0 {
        None
    } else {
        Some(chars_to_string(&tok))
    }
}

} // verus!
