//! Character classes, trimming and decimal formatting over `Seq<char>`.
use vstd::prelude::*;

verus! {

broadcast use vstd::string::group_string_axioms;

/// `char::is_control`: the characters of general category Cc.
pub open spec fn is_control(c: char) -> bool {
    (c as u32) <= 0x1F || (0x7F <= (c as u32) && (c as u32) <= 0x9F)
}

/// `char::is_whitespace`: the characters with the Unicode White_Space property.
pub open spec fn is_whitespace(c: char) -> bool {
    let u = c as u32;
    ||| 0x09 <= u <= 0x0D
    ||| u == 0x20
    ||| u == 0x85
    ||| u == 0xA0
    ||| u == 0x1680
    ||| 0x2000 <= u <= 0x200A
    ||| u == 0x2028
    ||| u == 0x2029
    ||| u == 0x202F
    ||| u == 0x205F
    ||| u == 0x3000
}

/// `char::is_control`.
pub fn char_is_control(c: char) -> (r: bool)
    ensures
        r == is_control(c),
{
    let u = c as u32;
    u <= 0x1F || (0x7F <= u && u <= 0x9F)
}

/// `char::is_whitespace`.
pub fn char_is_whitespace(c: char) -> (r: bool)
    ensures
        r == is_whitespace(c),
{
    let u = c as u32;
    (0x09 <= u && u <= 0x0D) || u == 0x20 || u == 0x85 || u == 0xA0 || u == 0x1680 || (0x2000
        <= u && u <= 0x200A) || u == 0x2028 || u == 0x2029 || u == 0x202F || u == 0x205F || u
        == 0x3000
}

/// The characters that a trim removes: whitespace, or dots.
pub open spec fn trimmed_char(dots: bool, c: char) -> bool {
    if dots {
        c == '.'
    } else {
        is_whitespace(c)
    }
}

/// `s` without its leading characters of the trimmed class.
pub open spec fn trim_start(s: Seq<char>, dots: bool) -> Seq<char>
    decreases s.len(),
{
    if s.len() > 0 && trimmed_char(dots, s[0]) {
        trim_start(s.drop_first(), dots)
    } else {
        s
    }
}

/// `s` without its trailing characters of the trimmed class.
pub open spec fn trim_end(s: Seq<char>, dots: bool) -> Seq<char>
    decreases s.len(),
{
    if s.len() > 0 && trimmed_char(dots, s.last()) {
        trim_end(s.drop_last(), dots)
    } else {
        s
    }
}

/// `str::trim` (`dots == false`) and `str::trim_matches('.')` (`dots == true`).
pub open spec fn trim(s: Seq<char>, dots: bool) -> Seq<char> {
    trim_end(trim_start(s, dots), dots)
}

proof fn lemma_trim_start_skip(s: Seq<char>, dots: bool, k: int)
    requires
        0 <= k <= s.len(),
        forall|i: int| 0 <= i < k ==> trimmed_char(dots, #[trigger] s[i]),
    ensures
        trim_start(s, dots) == trim_start(s.subrange(k, s.len() as int), dots),
    decreases k,
{
    if k > 0 {
        assert(s.drop_first() == s.subrange(1, s.len() as int));
        let t = s.drop_first();
        assert forall|i: int| 0 <= i < k - 1 implies trimmed_char(dots, #[trigger] t[i]) by {
            assert(t[i] == s[i + 1]);
        }
        lemma_trim_start_skip(t, dots, k - 1);
        assert(t.subrange(k - 1, t.len() as int) == s.subrange(k, s.len() as int));
    } else {
        assert(s.subrange(0, s.len() as int) == s);
    }
}

proof fn lemma_trim_end_skip(s: Seq<char>, dots: bool, k: int)
    requires
        0 <= k <= s.len(),
        forall|i: int| k <= i < s.len() ==> trimmed_char(dots, #[trigger] s[i]),
    ensures
        trim_end(s, dots) == trim_end(s.subrange(0, k), dots),
    decreases s.len() - k,
{
    if k < s.len() {
        let t = s.drop_last();
        assert forall|i: int| k <= i < t.len() implies trimmed_char(dots, #[trigger] t[i]) by {
            assert(t[i] == s[i]);
        }
        assert(trimmed_char(dots, s[s.len() - 1]));
        lemma_trim_end_skip(t, dots, k);
        assert(t.subrange(0, k) == s.subrange(0, k));
    } else {
        assert(s.subrange(0, s.len() as int) == s);
    }
}

/// Whether `c` is of the trimmed class.
fn is_trimmed_char(dots: bool, c: char) -> (r: bool)
    ensures
        r == trimmed_char(dots, c),
{
    if dots {
        c == '.'
    } else {
        char_is_whitespace(c)
    }
}

/// The characters of `s` between its leading and trailing runs of the trimmed class.
pub fn trim_chars(s: &Vec<char>, dots: bool) -> (r: Vec<char>)
    ensures
        r@ == trim(s@, dots),
{
    let n = s.len();
    let mut start: usize = 0;
    while start < n && is_trimmed_char(dots, s[start])
        invariant
            start <= n == s@.len(),
            forall|i: int| 0 <= i < start ==> trimmed_char(dots, #[trigger] s@[i]),
        decreases n - start,
    {
        start = start + 1;
    }
    proof {
        lemma_trim_start_skip(s@, dots, start as int);
    }
    let ghost front = s@.subrange(start as int, n as int);
    assert(start < n ==> !trimmed_char(dots, front[0]));
    assert(trim_start(front, dots) == front);
    let mut end: usize = n;
    while end > start && is_trimmed_char(dots, s[end - 1])
        invariant
            start <= end <= n == s@.len(),
            forall|i: int| end <= i < n ==> trimmed_char(dots, #[trigger] s@[i]),
        decreases end - start,
    {
        end = end - 1;
    }
    let ghost fl = front.len() as int;
    assert forall|i: int| end - start <= i < fl implies trimmed_char(dots, #[trigger] front[i]) by {
        assert(front[i] == s@[i + start]);
    }
    proof {
        lemma_trim_end_skip(front, dots, end - start);
    }
    let mut out: Vec<char> = Vec::new();
    let mut i = start;
    while i < end
        invariant
            start <= i <= end <= n == s@.len(),
            out@ == s@.subrange(start as int, i as int),
        decreases end - i,
    {
        out.push(s[i]);
        assert(out@ == s@.subrange(start as int, i + 1));
        i = i + 1;
    }
    let ghost mid = front.subrange(0, end - start);
    assert(mid == out@);
    assert(end > start ==> mid.last() == s@[end - 1]);
    assert(trim_end(mid, dots) == mid);
    out
}

/// The characters of `s`.
pub fn str_to_chars(s: &str) -> (r: Vec<char>)
    ensures
        r@ == s@,
{
    let mut out: Vec<char> = Vec::new();
    for c in it: s.chars()
        invariant
            out@ == it.seq().take(it.index() as int),
    {
        out.push(c);
    }
    out
}

/// The string made of the characters of `v`.
///
/// Trusted: `Iterator::collect` into a `String`, which appends the characters
/// in order.
#[verifier::external_body]
pub(crate) fn chars_to_string(v: &Vec<char>) -> (r: String)
    ensures
        r@ == v@,
{
    v.iter().collect()
}

/// Appends the characters of `s` to `out`.
pub fn push_str_chars(out: &mut Vec<char>, s: &str)
    ensures
        final(out)@ == old(out)@ + s@,
{
    let cs = str_to_chars(s);
    let ghost start = out@;
    let mut i: usize = 0;
    while i < cs.len()
        invariant
            i <= cs@.len(),
            out@ == start + cs@.take(i as int),
        decreases cs.len() - i,
    {
        out.push(cs[i]);
        assert(cs@.take(i + 1) == cs@.take(i as int).push(cs@[i as int]));
        i = i + 1;
    }
    assert(cs@.take(cs@.len() as int) == cs@);
}

/// The ASCII digit for `d`.
pub open spec fn digit_char(d: int) -> char {
    (48 + d) as char
}

/// Decimal digits of `n`, most significant first, without leading zeros.
pub open spec fn decimal(n: nat) -> Seq<char>
    decreases n,
{
    if n < 10 {
        seq![digit_char(n as int)]
    } else {
        decimal(n / 10).push(digit_char((n % 10) as int))
    }
}

/// Whether `c` is an ASCII digit `0`..=`9`.
pub open spec fn is_ascii_digit(c: char) -> bool {
    '0' <= c && c <= '9'
}

/// The number that a text of ASCII digits reads as, most significant first.
pub open spec fn digits_value(s: Seq<char>) -> int
    decreases s.len(),
{
    if s.len() == 0 {
        0
    } else {
        digits_value(s.drop_last()) * 10 + ((s.last() as u32) - ('0' as u32))
    }
}

/// The decimal form of `n` is a non-empty run of ASCII digits, without a
/// leading zero unless `n` is zero, that reads back as `n`.
pub proof fn law_decimal_reads_back(n: nat)
    ensures
        decimal(n).len() >= 1,
        forall|i: int| 0 <= i < decimal(n).len() ==> is_ascii_digit(#[trigger] decimal(n)[i]),
        n == 0 || decimal(n)[0] != '0',
        digits_value(decimal(n)) == n,
    decreases n,
{
    let d = decimal(n);
    assert(((48 + (n % 10)) as char) as u32 == 48 + (n % 10));
    if n < 10 {
        assert(d.drop_last().len() == 0);
        assert(digits_value(d.drop_last()) == 0);
        assert(('0' as u32) == 48);
    }
    if n >= 10 {
        law_decimal_reads_back(n / 10);
        assert(d.drop_last() == decimal(n / 10));
        assert(d.last() == digit_char((n % 10) as int));
        assert(('0' as u32) == 48);
        assert(digits_value(d) == digits_value(decimal(n / 10)) * 10 + (n % 10));
        assert(d[0] == decimal(n / 10)[0]);
        assert forall|i: int| 0 <= i < d.len() implies is_ascii_digit(#[trigger] d[i]) by {
            if i < d.len() - 1 {
                assert(d[i] == decimal(n / 10)[i]);
            }
        }
    }
}

/// Distinct numbers have distinct decimal forms.
pub proof fn law_decimal_injective(m: nat, n: nat)
    ensures
        decimal(m) == decimal(n) ==> m == n,
{
    law_decimal_reads_back(m);
    law_decimal_reads_back(n);
}

/// Decimal form of a signed integer, as `Display` writes it.
pub open spec fn signed_decimal(v: int) -> Seq<char> {
    if v < 0 {
        seq!['-'] + decimal((-v) as nat)
    } else {
        decimal(v as nat)
    }
}

fn digit(d: u64) -> (c: char)
    requires
        d < 10,
    ensures
        c == digit_char(d as int),
{
    let b: u8 = 48u8 + (d as u8);
    b as char
}

/// Appends the decimal digits of `n` to `out`.
pub fn push_decimal(out: &mut Vec<char>, n: u64)
    ensures
        final(out)@ == old(out)@ + decimal(n as nat),
    decreases n,
{
    if n >= 10 {
        push_decimal(out, n / 10);
    }
    out.push(digit(n % 10));
}

/// Appends the decimal form of `v` to `out`.
pub fn push_signed_decimal(out: &mut Vec<char>, v: i64)
    ensures
        final(out)@ == old(out)@ + signed_decimal(v as int),
{
    if v < 0 {
        let ghost before = out@;
        out.push('-');
        let mag: u64 = if v == i64::MIN {
            0x8000_0000_0000_0000u64
        } else {
            (-v) as u64
        };
        push_decimal(out, mag);
        assert(out@ == before + (seq!['-'] + decimal((-v) as nat)));
    } else {
        push_decimal(out, v as u64);
    }
}

/// `char::to_ascii_lowercase`: `A`..=`Z` become `a`..=`z`, every other character stays.
pub open spec fn ascii_lower(c: char) -> char {
    if 'A' <= c && c <= 'Z' {
        ((c as u32) + 32) as char
    } else {
        c
    }
}

/// `char::to_ascii_lowercase`.
pub fn char_to_ascii_lowercase(c: char) -> (r: char)
    ensures
        r == ascii_lower(c),
{
    if 'A' <= c && c <= 'Z' {
        let b: u8 = (c as u8) + 32;
        b as char
    } else {
        c
    }
}

/// `str::to_ascii_lowercase`, on characters.
pub fn chars_to_ascii_lowercase(s: &Vec<char>) -> (r: Vec<char>)
    ensures
        r@ == s@.map_values(|c: char| ascii_lower(c)),
{
    let mut out: Vec<char> = Vec::new();
    let mut i: usize = 0;
    while i < s.len()
        invariant
            i <= s@.len(),
            out@ == s@.take(i as int).map_values(|c: char| ascii_lower(c)),
        decreases s.len() - i,
    {
        out.push(char_to_ascii_lowercase(s[i]));
        assert(s@.take(i + 1) == s@.take(i as int).push(s@[i as int]));
        assert(out@ =~= s@.take(i + 1).map_values(|c: char| ascii_lower(c)));
        i = i + 1;
    }
    assert(s@.take(s@.len() as int) == s@);
    out
}

/// A trim keeps a contiguous part of its input, which neither starts nor ends
/// with a trimmed character.
pub proof fn lemma_trim_shape(s: Seq<char>, dots: bool)
    ensures
        exists|a: int, b: int| 0 <= a <= b <= s.len() && trim(s, dots) == s.subrange(a, b),
        trim(s, dots).len() > 0 ==> !trimmed_char(dots, trim(s, dots)[0]) && !trimmed_char(
            dots,
            trim(s, dots).last(),
        ),
{
    let a = lemma_trim_start_shape(s, dots);
    let t = trim_start(s, dots);
    let b = lemma_trim_end_shape(t, dots);
    assert(trim(s, dots) == s.subrange(a, a + b));
    if trim(s, dots).len() > 0 {
        assert(trim(s, dots)[0] == t[0]);
    }
}

proof fn lemma_trim_start_shape(s: Seq<char>, dots: bool) -> (a: int)
    ensures
        0 <= a <= s.len(),
        trim_start(s, dots) == s.skip(a),
        trim_start(s, dots).len() > 0 ==> !trimmed_char(dots, trim_start(s, dots)[0]),
    decreases s.len(),
{
    if s.len() > 0 && trimmed_char(dots, s[0]) {
        let a = lemma_trim_start_shape(s.drop_first(), dots);
        assert(s.drop_first().skip(a) == s.skip(a + 1));
        a + 1
    } else {
        assert(s.skip(0) == s);
        0
    }
}

proof fn lemma_trim_end_shape(s: Seq<char>, dots: bool) -> (b: int)
    ensures
        0 <= b <= s.len(),
        trim_end(s, dots) == s.take(b),
        trim_end(s, dots).len() > 0 ==> !trimmed_char(dots, trim_end(s, dots).last()),
    decreases s.len(),
{
    if s.len() > 0 && trimmed_char(dots, s.last()) {
        let b = lemma_trim_end_shape(s.drop_last(), dots);
        assert(s.drop_last().take(b) == s.take(b));
        b
    } else {
        assert(s.take(s.len() as int) == s);
        s.len() as int
    }
}

} // verus!
