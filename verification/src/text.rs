//! Character-level helpers over string views.

use vstd::prelude::*;
use vstd::string::*;
use vstd::utf8::encode_utf8;

verus! {

/// `c` is an ASCII character.
pub open spec fn is_ascii_char(c: char) -> bool {
    (c as u32) < 128
}

/// Every character of `s` is ASCII.
pub open spec fn is_ascii_text(s: Seq<char>) -> bool {
    forall|i: int| 0 <= i < s.len() ==> is_ascii_char(#[trigger] s[i])
}

/// `c` is an ASCII digit or an ASCII letter, small or capital.
pub open spec fn ascii_alphanumeric(c: char) -> bool {
    let n = c as u32;
    (48 <= n <= 57) || (65 <= n <= 90) || (97 <= n <= 122)
}

/// `c`, with an ASCII capital letter turned into its small letter.
pub open spec fn ascii_lower(c: char) -> char {
    let n = c as u32;
    if 65 <= n <= 90 {
        (n + 32) as char
    } else {
        c
    }
}

/// `s` with each ASCII capital letter turned into its small letter.
pub open spec fn ascii_lowercase(s: Seq<char>) -> Seq<char> {
    Seq::new(s.len(), |i: int| ascii_lower(s[i]))
}

/// The ASCII classes by character: the letters and digits are `0`..`9`,
/// `A`..`Z` and `a`..`z`; making a capital letter small maps `A`..`Z` onto
/// `a`..`z` in order and leaves every other character as it is.
pub proof fn lemma_ascii_classes(c: char)
    ensures
        ascii_alphanumeric(c) <==> ('0' <= c <= '9' || 'A' <= c <= 'Z' || 'a' <= c <= 'z'),
        ('A' <= c <= 'Z') ==> 'a' <= ascii_lower(c) <= 'z' && (ascii_lower(c) as u32) - ('a' as u32)
            == (c as u32) - ('A' as u32),
        !('A' <= c <= 'Z') ==> ascii_lower(c) == c,
        is_ascii_char(c) <==> (c as u32) <= 0x7f,
{
}

/// Whether `c` has the Unicode `Alphabetic` or `Numeric` property, as
/// `char::is_alphanumeric` decides it.
pub uninterp spec fn unicode_alphanumeric(c: char) -> bool;

/// Calls `char::is_alphanumeric`. The contract names the answer
/// [`unicode_alphanumeric`], and states that on an ASCII character it is
/// true exactly of the digits and letters (the only ASCII characters with
/// the `Alphabetic` or `Numeric` property); which other characters carry
/// the properties is the standard library's table, not stated here.
#[verifier::external_body]
pub(crate) fn char_is_alphanumeric(c: char) -> (r: bool)
    ensures
        r == unicode_alphanumeric(c),
        is_ascii_char(c) ==> (r == ascii_alphanumeric(c)),
{
    c.is_alphanumeric()
}

/// The lowercase of `s` as `str::to_lowercase` makes it.
pub uninterp spec fn unicode_lowercase(s: Seq<char>) -> Seq<char>;

/// Calls `str::to_lowercase`. The contract names the result
/// [`unicode_lowercase`] of the input, and states that an all-ASCII text
/// has its ASCII capital letters turned into small letters and nothing else
/// changed; the Unicode case mapping of other texts (including its context
/// rules) is not stated here.
#[verifier::external_body]
pub(crate) fn to_lowercase(s: &str) -> (r: String)
    ensures
        r@ == unicode_lowercase(s@),
        is_ascii_text(s@) ==> r@ == ascii_lowercase(s@),
{
    s.to_lowercase()
}

/// The length in bytes of the UTF-8 encoding of `s`, as `str::len` reports it.
pub open spec fn byte_len(s: Seq<char>) -> usize {
    encode_utf8(s).len() as usize
}

/// The characters of `s`, in order, as a vector.
pub fn chars_of(s: &str) -> (v: Vec<char>)
    ensures
        v@ == s@,
{
    let n = s.unicode_len();
    let mut v: Vec<char> = Vec::new();
    let mut i: usize = 0;
    while i < n
        invariant
            n == s@.len(),
            i <= n,
            v@ == s@.subrange(0, i as int),
        decreases n - i,
    {
        v.push(s.get_char(i));
        i += 1;
    }
    assert(v@ =~= s@);
    v
}

/// Whether `p` is a prefix of `s`.
pub fn has_prefix(s: &Vec<char>, p: &Vec<char>) -> (r: bool)
    ensures
        r == p@.is_prefix_of(s@),
{
    if p.len() > s.len() {
        return false;
    }
    let mut i: usize = 0;
    while i < p.len()
        invariant
            p.len() <= s.len(),
            i <= p.len(),
            forall|j: int| 0 <= j < i ==> s@[j] == p@[j],
        decreases p.len() - i,
    {
        if s[i] != p[i] {
            return false;
        }
        i += 1;
    }
    assert(p@ =~= s@.subrange(0, p@.len() as int));
    true
}

/// Whether `p` is a suffix of `s`.
pub fn has_suffix(s: &Vec<char>, p: &Vec<char>) -> (r: bool)
    ensures
        r == p@.is_suffix_of(s@),
{
    if p.len() > s.len() {
        return false;
    }
    let off = s.len() - p.len();
    let mut i: usize = 0;
    while i < p.len()
        invariant
            p.len() <= s.len(),
            off == s.len() - p.len(),
            i <= p.len(),
            forall|j: int| 0 <= j < i ==> s@[off + j] == p@[j],
        decreases p.len() - i,
    {
        if s[off + i] != p[i] {
            return false;
        }
        i += 1;
    }
    assert(p@ =~= s@.subrange(off as int, s@.len() as int));
    true
}


/// `t` occurs in `s` as a run of consecutive characters.
pub open spec fn contains_text(s: Seq<char>, t: Seq<char>) -> bool {
    exists|k: int| 0 <= k && k + t.len() <= s.len() && #[trigger] s.subrange(k, k + t.len()) == t
}

/// Whether `t` occurs in `s` (see [`contains_text`]).
pub fn has_infix(s: &Vec<char>, t: &Vec<char>) -> (r: bool)
    ensures
        r == contains_text(s@, t@),
{
    if t.len() > s.len() {
        return false;
    }
    if t.len() == 0 {
        assert(s@.subrange(0int, 0int + t@.len()) =~= t@);
        return true;
    }
    let last = s.len() - t.len();
    let mut k: usize = 0;
    while k <= last
        invariant
            last == s.len() - t.len(),
            t.len() <= s.len(),
            t.len() >= 1,
            k <= last + 1,
            forall|j: int| 0 <= j < k ==> #[trigger] s@.subrange(j, j + t@.len()) != t@,
        decreases last + 1 - k,
    {
        let mut i: usize = 0;
        let mut same = true;
        while i < t.len()
            invariant
                k <= last,
                last == s.len() - t.len(),
                i <= t.len(),
                same ==> forall|m: int| 0 <= m < i ==> s@[k + m] == t@[m],
                !same ==> s@.subrange(k as int, k + t@.len()) != t@,
            decreases t.len() - i,
        {
            if s[k + i] != t[i] {
                if same {
                    assert(s@.subrange(k as int, k + t@.len())[i as int] != t@[i as int]);
                }
                same = false;
            }
            i += 1;
        }
        if same {
            assert(s@.subrange(k as int, k + t@.len()) =~= t@);
            return true;
        }
        k += 1;
    }
    false
}

/// Whether the texts `a` and `b` are equal.
pub fn text_eq(a: &str, b: &str) -> (r: bool)
    ensures
        r == (a@ == b@),
{
    let x = chars_of(a);
    let y = chars_of(b);
    if x.len() != y.len() {
        return false;
    }
    let r = has_prefix(&x, &y);
    proof {
        if r {
            assert(x@ =~= y@);
        }
    }
    r
}

/// The texts of `segs` joined with `/` between each two.
pub open spec fn join_slash(segs: Seq<Seq<char>>) -> Seq<char>
    decreases segs.len(),
{
    if segs.len() == 0 {
        Seq::empty()
    } else if segs.len() == 1 {
        segs[0]
    } else {
        join_slash(segs.drop_last()) + seq!['/'] + segs.last()
    }
}

/// The texts of `segs` from index `from` on, joined with `/` between each two.
pub fn join_slash_from(segs: &Vec<String>, from: usize) -> (r: String)
    requires
        from <= segs.len(),
    ensures
        r@ == join_slash(segs.deep_view().skip(from as int)),
{
    let ghost dv = segs.deep_view();
    let mut s = String::new();
    if from >= segs.len() {
        assert(dv.skip(from as int) =~= Seq::<Seq<char>>::empty());
        return s;
    }
    let mut i: usize = from;
    while i < segs.len()
        invariant
            dv == segs.deep_view(),
            from < segs.len(),
            from <= i <= segs.len(),
            s@ == join_slash(dv.subrange(from as int, i as int)),
        decreases segs.len() - i,
    {
        proof {
            reveal_strlit("/");
        }
        let ghost prev = dv.subrange(from as int, i as int);
        let ghost next = dv.subrange(from as int, i + 1);
        assert(next.drop_last() =~= prev);
        assert(next.last() == segs[i as int]@);
        if i > from {
            s.append("/");
        } else {
            assert(next =~= seq![segs[i as int]@]);
        }
        s.append(segs[i].as_str());
        assert(s@ == join_slash(next));
        i += 1;
    }
    assert(dv.subrange(from as int, segs.len() as int) =~= dv.skip(from as int));
    s
}

/// The character of the decimal digit `d` (for `d < 10`).
pub open spec fn digit_char(d: nat) -> char {
    if d == 0 { '0' }
    else if d == 1 { '1' }
    else if d == 2 { '2' }
    else if d == 3 { '3' }
    else if d == 4 { '4' }
    else if d == 5 { '5' }
    else if d == 6 { '6' }
    else if d == 7 { '7' }
    else if d == 8 { '8' }
    else { '9' }
}

/// The decimal notation of `n`: no sign, no leading zeros, `"0"` for zero.
pub open spec fn decimal(n: nat) -> Seq<char>
    decreases n,
{
    if n < 10 {
        seq![digit_char(n)]
    } else {
        decimal(n / 10).push(digit_char(n % 10))
    }
}

/// The one-character text of the decimal digit `d`.
pub fn digit_text(d: u8) -> (s: &'static str)
    requires
        d < 10,
    ensures
        s@ == seq![digit_char(d as nat)],
{
    proof {
        reveal_strlit("0");
        reveal_strlit("1");
        reveal_strlit("2");
        reveal_strlit("3");
        reveal_strlit("4");
        reveal_strlit("5");
        reveal_strlit("6");
        reveal_strlit("7");
        reveal_strlit("8");
        reveal_strlit("9");
    }
    let s = if d == 0 { "0" }
    else if d == 1 { "1" }
    else if d == 2 { "2" }
    else if d == 3 { "3" }
    else if d == 4 { "4" }
    else if d == 5 { "5" }
    else if d == 6 { "6" }
    else if d == 7 { "7" }
    else if d == 8 { "8" }
    else { "9" };
    assert(s@ =~= seq![digit_char(d as nat)]);
    s
}

/// The decimal notation of `n`, as the `{}` format of an unsigned integer writes it.
pub fn decimal_text(n: u128) -> (s: String)
    ensures
        s@ == decimal(n as nat),
    decreases n,
{
    if n < 10 {
        String::from_str(digit_text(n as u8))
    } else {
        let mut s = decimal_text(n / 10);
        let d = digit_text((n % 10) as u8);
        s.append(d);
        assert(s@ =~= decimal(n as nat));
        s
    }
}

} // verus!
