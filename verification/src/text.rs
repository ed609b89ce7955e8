//! Character-level text helpers shared by the parsers and renderers.
//!
//! All protocol text is modelled as `Seq<char>`. The executable helpers work
//! on `&[char]` and are specified against the spec functions defined here.
use vstd::prelude::*;
use vstd::slice::slice_subrange;

verus! {

/// `String::push` appends one character to the end of the string.
pub assume_specification[ String::push ](s: &mut String, c: char)
    ensures
        final(s)@ == old(s)@.push(c),
;

/// The characters of `s`, in order.
pub fn to_chars(s: &str) -> (v: Vec<char>)
    ensures
        v@ == s@,
{
    let mut v: Vec<char> = Vec::new();
    for c in it: s.chars()
        invariant
            v@ == it.seq().take(it.index() as int),
            it.seq() == s@,
    {
        v.push(c);
    }
    v
}

/// Appends the characters of `v` to `s`.
pub fn push_chars(s: &mut String, v: &[char])
    ensures
        final(s)@ == old(s)@ + v@,
{
    let mut i: usize = 0;
    while i < v.len()
        invariant
            i <= v@.len(),
            s@ == old(s)@ + v@.take(i as int),
        decreases v@.len() - i,
    {
        s.push(v[i]);
        i += 1;
    }
}

/// A string holding exactly the characters of `v`.
pub fn to_string(v: &[char]) -> (s: String)
    ensures
        s@ == v@,
{
    let mut s = String::new();
    push_chars(&mut s, v);
    s
}

/// Whether two character slices hold the same text.
pub fn chars_eq(a: &[char], b: &[char]) -> (r: bool)
    ensures
        r == (a@ == b@),
{
    if a.len() != b.len() {
        return false;
    }
    let mut i: usize = 0;
    while i < a.len()
        invariant
            a@.len() == b@.len(),
            i <= a@.len(),
            a@.take(i as int) == b@.take(i as int),
        decreases a@.len() - i,
    {
        if a[i] != b[i] {
            return false;
        }
        assert(a@.take(i + 1) == a@.take(i as int).push(a@[i as int]));
        assert(b@.take(i + 1) == b@.take(i as int).push(b@[i as int]));
        i += 1;
    }
    assert(a@.take(i as int) == a@);
    assert(b@.take(i as int) == b@);
    true
}

/// Whether the slice holds exactly the text of `lit`.
pub fn is_text(v: &[char], lit: &str) -> (r: bool)
    ensures
        r == (v@ == lit@),
{
    let l = to_chars(lit);
    chars_eq(v, l.as_slice())
}

// ---------------------------------------------------------------------------
// Whitespace
// ---------------------------------------------------------------------------
/// The characters with the Unicode `White_Space` property.
pub open spec fn is_whitespace(c: char) -> bool {
    let u = c as u32;
    ||| 0x9 <= u <= 0xd
    ||| u == 0x20
    ||| u == 0x85
    ||| u == 0xa0
    ||| u == 0x1680
    ||| 0x2000 <= u <= 0x200a
    ||| u == 0x2028
    ||| u == 0x2029
    ||| u == 0x202f
    ||| u == 0x205f
    ||| u == 0x3000
}

/// Whether `c` is whitespace.
pub fn is_whitespace_char(c: char) -> (r: bool)
    ensures
        r == is_whitespace(c),
{
    let u: u32 = c as u32;
    (0x9 <= u && u <= 0xd) || u == 0x20 || u == 0x85 || u == 0xa0 || u == 0x1680 || (0x2000 <= u
        && u <= 0x200a) || u == 0x2028 || u == 0x2029 || u == 0x202f || u == 0x205f || u == 0x3000
}

/// `s` without its trailing whitespace.
pub open spec fn trimmed_end(s: Seq<char>) -> Seq<char>
    decreases s.len(),
{
    if s.len() > 0 && is_whitespace(s.last()) {
        trimmed_end(s.drop_last())
    } else {
        s
    }
}

/// Trimming takes a prefix that does not end in whitespace, and trimming
/// twice is trimming once.
pub proof fn lemma_trimmed_end_is_prefix(s: Seq<char>)
    ensures
        trimmed_end(s).len() <= s.len(),
        trimmed_end(s) == s.take(trimmed_end(s).len() as int),
        trimmed_end(s).len() > 0 ==> !is_whitespace(trimmed_end(s).last()),
        trimmed_end(trimmed_end(s)) == trimmed_end(s),
    decreases s.len(),
{
    if s.len() > 0 && is_whitespace(s.last()) {
        lemma_trimmed_end_is_prefix(s.drop_last());
        let t = trimmed_end(s.drop_last());
        assert(t == s.take(t.len() as int));
    } else {
        assert(s == s.take(s.len() as int));
    }
}

/// The length of `v` once trailing whitespace is dropped.
pub fn trim_end_len(v: &[char]) -> (n: usize)
    ensures
        n <= v@.len(),
        v@.take(n as int) == trimmed_end(v@),
{
    let mut n: usize = v.len();
    assert(v@.take(n as int) == v@);
    while n > 0 && is_whitespace_char(v[n - 1])
        invariant
            n <= v@.len(),
            trimmed_end(v@.take(n as int)) == trimmed_end(v@),
        decreases n,
    {
        assert(v@.take(n as int).drop_last() == v@.take(n - 1));
        n -= 1;
    }
    n
}

/// `v` without its trailing whitespace.
pub fn trim_end(v: &[char]) -> (t: &[char])
    ensures
        t@ == trimmed_end(v@),
{
    let n = trim_end_len(v);
    slice_subrange(v, 0, n)
}

// ---------------------------------------------------------------------------
// Searching
// ---------------------------------------------------------------------------
/// `i` is the index of the first `c` in `s`, or `s.len()` when there is none.
pub open spec fn is_first_index_of(s: Seq<char>, c: char, i: int) -> bool {
    &&& 0 <= i <= s.len()
    &&& forall|j: int| 0 <= j < i ==> s[j] != c
    &&& i < s.len() ==> s[i] == c
}

/// The index of the first `c` in `s`, or `s.len()` when there is none.
pub open spec fn first_index_of(s: Seq<char>, c: char) -> int {
    choose|i: int| is_first_index_of(s, c, i)
}

proof fn lemma_first_index_of_exists(s: Seq<char>, c: char, n: int)
    requires
        0 <= n <= s.len(),
        forall|j: int| 0 <= j < n ==> s[j] != c,
    ensures
        exists|i: int| is_first_index_of(s, c, i),
    decreases s.len() - n,
{
    if n == s.len() || s[n] == c {
        assert(is_first_index_of(s, c, n));
    } else {
        lemma_first_index_of_exists(s, c, n + 1);
    }
}

/// `first_index_of` meets its description, and nothing else does.
pub proof fn lemma_first_index_of(s: Seq<char>, c: char)
    ensures
        is_first_index_of(s, c, first_index_of(s, c)),
        forall|i: int| is_first_index_of(s, c, i) ==> i == first_index_of(s, c),
{
    lemma_first_index_of_exists(s, c, 0);
    let k = first_index_of(s, c);
    assert forall|i: int| is_first_index_of(s, c, i) implies i == k by {
        if i < k {
            assert(s[i] == c);
        } else if k < i {
            assert(s[k] == c);
        }
    }
}

/// The index of the first `c` in `v`, or the length of `v` when there is none.
pub fn find_char(v: &[char], c: char) -> (i: usize)
    ensures
        i == first_index_of(v@, c),
        is_first_index_of(v@, c, i as int),
{
    let mut i: usize = 0;
    while i < v.len() && v[i] != c
        invariant
            i <= v@.len(),
            forall|j: int| 0 <= j < i ==> v@[j] != c,
        decreases v@.len() - i,
    {
        i += 1;
    }
    proof {
        lemma_first_index_of(v@, c);
    }
    i
}

/// `pat` stands in `s` at index `i`.
pub open spec fn occurs_at(s: Seq<char>, pat: Seq<char>, i: int) -> bool {
    &&& 0 <= i
    &&& i + pat.len() <= s.len()
    &&& s.subrange(i, i + pat.len()) == pat
}

/// `i` is where `pat` first stands in `s`, or `s.len()` when it stands nowhere.
pub open spec fn is_first_occurrence(s: Seq<char>, pat: Seq<char>, i: int) -> bool {
    &&& 0 <= i <= s.len()
    &&& forall|j: int| 0 <= j < i ==> !occurs_at(s, pat, j)
    &&& i < s.len() ==> occurs_at(s, pat, i)
}

/// Where the non-empty `pat` first stands in `s`, or `s.len()` when it stands nowhere.
pub open spec fn first_occurrence(s: Seq<char>, pat: Seq<char>) -> int {
    choose|i: int| is_first_occurrence(s, pat, i)
}

proof fn lemma_first_occurrence_exists(s: Seq<char>, pat: Seq<char>, n: int)
    requires
        0 <= n <= s.len(),
        forall|j: int| 0 <= j < n ==> !occurs_at(s, pat, j),
    ensures
        exists|i: int| is_first_occurrence(s, pat, i),
    decreases s.len() - n,
{
    if n == s.len() || occurs_at(s, pat, n) {
        assert(is_first_occurrence(s, pat, n));
    } else {
        lemma_first_occurrence_exists(s, pat, n + 1);
    }
}

/// `first_occurrence` meets its description, and nothing else does.
pub proof fn lemma_first_occurrence(s: Seq<char>, pat: Seq<char>)
    ensures
        is_first_occurrence(s, pat, first_occurrence(s, pat)),
        forall|i: int| is_first_occurrence(s, pat, i) ==> i == first_occurrence(s, pat),
{
    lemma_first_occurrence_exists(s, pat, 0);
    let k = first_occurrence(s, pat);
    assert forall|i: int| is_first_occurrence(s, pat, i) implies i == k by {
        if i < k {
            assert(occurs_at(s, pat, i));
        } else if k < i {
            assert(occurs_at(s, pat, k));
        }
    }
}

/// Whether `pat` stands in `s` somewhere.
pub open spec fn contains(s: Seq<char>, pat: Seq<char>) -> bool {
    exists|i: int| occurs_at(s, pat, i)
}

/// Whether `s` begins with `p`.
pub open spec fn has_prefix(s: Seq<char>, p: Seq<char>) -> bool {
    occurs_at(s, p, 0)
}

/// Whether `pat` stands in `v` at index `i`.
pub fn occurs_here(v: &[char], pat: &[char], i: usize) -> (r: bool)
    ensures
        r == occurs_at(v@, pat@, i as int),
{
    if pat.len() > v.len() || i > v.len() - pat.len() {
        return false;
    }
    chars_eq(slice_subrange(v, i, i + pat.len()), pat)
}

/// Whether `v` begins with the text of `lit`.
pub fn starts_with(v: &[char], lit: &str) -> (r: bool)
    ensures
        r == has_prefix(v@, lit@),
{
    let p = to_chars(lit);
    occurs_here(v, p.as_slice(), 0)
}

/// Where `pat` first stands in `v`, or the length of `v` when it stands nowhere.
pub fn find_sub(v: &[char], pat: &[char]) -> (i: usize)
    requires
        pat@.len() > 0,
    ensures
        i == first_occurrence(v@, pat@),
        is_first_occurrence(v@, pat@, i as int),
        i < v@.len() <==> contains(v@, pat@),
{
    let mut i: usize = 0;
    while i < v.len() && !occurs_here(v, pat, i)
        invariant
            i <= v@.len(),
            forall|j: int| 0 <= j < i ==> !occurs_at(v@, pat@, j),
        decreases v@.len() - i,
    {
        i += 1;
    }
    proof {
        lemma_first_occurrence(v@, pat@);
        if i < v@.len() {
            assert(occurs_at(v@, pat@, i as int));
        } else {
            assert forall|j: int| !occurs_at(v@, pat@, j) by {
                if occurs_at(v@, pat@, j) {
                    assert(j < v@.len());
                }
            }
        }
    }
    i
}

// ---------------------------------------------------------------------------
// Decimal numbers
// ---------------------------------------------------------------------------
/// Whether `c` is one of the digits `0` to `9`.
pub open spec fn is_digit(c: char) -> bool {
    0x30 <= c as u32 <= 0x39
}

/// The number that the digit `c` writes.
pub open spec fn digit_value(c: char) -> nat {
    (c as u32 - 0x30) as nat
}

/// Whether `s` holds digits only.
pub open spec fn all_digits(s: Seq<char>) -> bool {
    forall|i: int| 0 <= i < s.len() ==> is_digit(#[trigger] s[i])
}

/// The number that the decimal digits `s` write, most significant first.
pub open spec fn decimal_value(s: Seq<char>) -> nat
    decreases s.len(),
{
    if s.len() == 0 {
        0
    } else {
        decimal_value(s.drop_last()) * 10 + digit_value(s.last())
    }
}

/// `s` without one leading `+`.
pub open spec fn without_plus(s: Seq<char>) -> Seq<char> {
    if s.len() > 0 && s[0] == '+' {
        s.drop_first()
    } else {
        s
    }
}

/// The unsigned number `s` writes: an optional `+`, then one or more decimal
/// digits, with a value of at most `max`.
pub open spec fn unsigned_value(s: Seq<char>, max: nat) -> Option<nat> {
    let d = without_plus(s);
    if d.len() > 0 && all_digits(d) && decimal_value(d) <= max {
        Some(decimal_value(d))
    } else {
        None
    }
}

/// The signed number `s` writes: an optional `+` or `-`, then one or more
/// decimal digits, with a value between `min` and `max`.
pub open spec fn signed_value(s: Seq<char>, min: int, max: int) -> Option<int> {
    if s.len() > 0 && s[0] == '-' {
        let d = s.drop_first();
        if d.len() > 0 && all_digits(d) && -(decimal_value(d) as int) >= min {
            Some(-(decimal_value(d) as int))
        } else {
            None
        }
    } else {
        let d = without_plus(s);
        if d.len() > 0 && all_digits(d) && decimal_value(d) <= max {
            Some(decimal_value(d) as int)
        } else {
            None
        }
    }
}

/// A longer run of digits never writes a smaller number than its prefix.
pub proof fn lemma_decimal_value_grows(s: Seq<char>, n: int)
    requires
        0 <= n <= s.len(),
    ensures
        decimal_value(s.take(n)) <= decimal_value(s),
    decreases s.len() - n,
{
    if n == s.len() {
        assert(s.take(n) == s);
    } else {
        lemma_decimal_value_grows(s, n + 1);
        assert(s.take(n + 1).drop_last() == s.take(n));
    }
}

/// The value of the digits `v`, unless there is none, one is no digit, or the
/// value is above `max`.
pub fn parse_digits(v: &[char], max: u64) -> (r: Option<u64>)
    ensures
        r is Some <==> (v@.len() > 0 && all_digits(v@) && decimal_value(v@) <= max),
        r is Some ==> r->0 == decimal_value(v@),
{
    if v.len() == 0 {
        return None;
    }
    let mut acc: u64 = 0;
    let mut i: usize = 0;
    while i < v.len()
        invariant
            i <= v@.len(),
            all_digits(v@.take(i as int)),
            acc == decimal_value(v@.take(i as int)),
            acc <= max,
        decreases v@.len() - i,
    {
        let c = v[i];
        let u: u32 = c as u32;
        if u < 0x30 || u > 0x39 {
            assert(!is_digit(v@[i as int]));
            return None;
        }
        let d: u64 = (u - 0x30) as u64;
        proof {
            assert(v@.take(i + 1).drop_last() == v@.take(i as int));
            assert(v@.take(i + 1).last() == c);
            assert(digit_value(c) == d);
            assert(decimal_value(v@.take(i + 1)) == acc * 10 + d);
            assert forall|j: int| 0 <= j < i + 1 implies is_digit(#[trigger] v@.take(i + 1)[j]) by {
                if j < i {
                    assert(v@.take(i as int)[j] == v@.take(i + 1)[j]);
                }
            }
        }
        if d > max || acc > (max - d) / 10 {
            proof {
                lemma_decimal_value_grows(v@, i + 1);
            }
            return None;
        }
        acc = acc * 10 + d;
        i += 1;
    }
    assert(v@.take(i as int) == v@);
    Some(acc)
}

/// Reads an unsigned decimal number of at most `max`.
pub fn parse_unsigned(v: &[char], max: u64) -> (r: Option<u64>)
    ensures
        r is Some <==> unsigned_value(v@, max as nat) is Some,
        r is Some ==> r->0 == unsigned_value(v@, max as nat)->0,
{
    if v.len() > 0 && v[0] == '+' {
        parse_digits(slice_subrange(v, 1, v.len()), max)
    } else {
        parse_digits(v, max)
    }
}

/// Reads a signed decimal number that fits an `i32`.
pub fn parse_i32(v: &[char]) -> (r: Option<i32>)
    ensures
        r is Some <==> signed_value(v@, i32::MIN as int, i32::MAX as int) is Some,
        r is Some ==> r->0 == signed_value(v@, i32::MIN as int, i32::MAX as int)->0,
{
    if v.len() > 0 && v[0] == '-' {
        match parse_digits(slice_subrange(v, 1, v.len()), 0x8000_0000) {
            Some(n) => Some((0 - (n as i64)) as i32),
            None => None,
        }
    } else {
        match parse_unsigned(v, 0x7fff_ffff) {
            Some(n) => Some(n as i32),
            None => None,
        }
    }
}

/// The character that writes the digit `d`.
pub open spec fn digit_char(d: nat) -> char
    recommends
        d < 10,
{
    (d + 0x30) as u8 as char
}

/// The decimal digits of `n`, most significant first, without leading zeros.
pub open spec fn decimal_digits(n: nat) -> Seq<char>
    decreases n,
{
    if n < 10 {
        seq![digit_char(n)]
    } else {
        decimal_digits(n / 10).push(digit_char(n % 10))
    }
}

/// Writing a number in decimal and reading it back gives the number.
pub proof fn lemma_decimal_round_trip(n: nat)
    ensures
        decimal_digits(n).len() > 0,
        all_digits(decimal_digits(n)),
        decimal_value(decimal_digits(n)) == n,
        decimal_digits(n)[0] != '+',
        decimal_digits(n)[0] != '-',
    decreases n,
{
    let s = decimal_digits(n);
    if n < 10 {
        assert(s.drop_last() == Seq::<char>::empty());
        assert(decimal_value(s.drop_last()) == 0);
        assert(decimal_value(s) == 0 * 10 + digit_value(s.last()));
    } else {
        lemma_decimal_round_trip(n / 10);
        let p = decimal_digits(n / 10);
        assert(s.drop_last() == p);
        assert(s[0] == p[0]);
        assert forall|i: int| 0 <= i < s.len() implies is_digit(#[trigger] s[i]) by {
            if i < p.len() {
                assert(s[i] == p[i]);
            }
        }
    }
}

/// Appends the decimal digits of `n` to `s`.
pub fn push_decimal(s: &mut String, n: u64)
    ensures
        final(s)@ == old(s)@ + decimal_digits(n as nat),
    decreases n,
{
    if n >= 10 {
        push_decimal(s, n / 10);
    }
    let d: u8 = (n % 10) as u8;
    s.push((d + 0x30) as char);
    proof {
        if n >= 10 {
            assert(old(s)@ + decimal_digits(n as nat) == (old(s)@ + decimal_digits((n / 10) as nat)).push(
                digit_char((n % 10) as nat),
            ));
        } else {
            assert(old(s)@ + decimal_digits(n as nat) == old(s)@.push(digit_char(n as nat)));
        }
    }
}

} // verus!
