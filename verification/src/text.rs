//! Character-level text helpers shared by the rest of the library.

use vstd::prelude::*;
use vstd::string::StrSliceExecFns;
use vstd::string::StringExecFns;

verus! {

/// The character for a decimal digit.
pub open spec fn digit_char(d: int) -> char {
    ((d + 48) as u8) as char
}

/// Decimal text of a natural number, without leading zeros.
pub open spec fn decimal_text(n: nat) -> Seq<char>
    decreases n,
{
    if n < 10 {
        seq![digit_char(n as int)]
    } else {
        decimal_text(n / 10).push(digit_char((n % 10) as int))
    }
}

/// Decimal text of an integer, with a leading `-` when it is negative.
pub open spec fn signed_text(n: int) -> Seq<char> {
    if n < 0 {
        seq!['-'] + decimal_text((-n) as nat)
    } else {
        decimal_text(n as nat)
    }
}

/// `s` followed by spaces up to `width` characters (left alignment).
pub open spec fn padded(s: Seq<char>, width: nat) -> Seq<char> {
    if s.len() < width {
        s + Seq::new((width - s.len()) as nat, |i: int| ' ')
    } else {
        s
    }
}

/// The first `n` characters of `s` (all of it when it is shorter).
pub open spec fn prefix_chars(s: Seq<char>, n: nat) -> Seq<char> {
    if s.len() <= n {
        s
    } else {
        s.take(n as int)
    }
}

/// `needle` occurs in `hay` as a contiguous run of characters.
pub open spec fn has_substring(hay: Seq<char>, needle: Seq<char>) -> bool {
    exists|i: int| 0 <= i <= hay.len() - needle.len() && #[trigger] hay.subrange(i, i + needle.len()) == needle
}

/// Appends one character to a string.
///
/// Calls `String::push`, which the standard library documents as appending
/// the character to the end of the string.
#[verifier::external_body]
pub(crate) fn push_char(s: &mut String, c: char)
    ensures
        final(s)@ == old(s)@.push(c),
{
    s.push(c);
}

/// Appends the decimal digits of `n`.
pub fn push_decimal(s: &mut String, n: u64)
    ensures
        final(s)@ == old(s)@ + decimal_text(n as nat),
    decreases n,
{
    if n >= 10 {
        push_decimal(s, n / 10);
    }
    let d: u8 = (n % 10) as u8;
    push_char(s, (d + 48) as char);
    proof {
        assert(decimal_text(n as nat) == if n < 10 {
            seq![digit_char(n as int)]
        } else {
            decimal_text((n / 10) as nat).push(digit_char((n % 10) as int))
        });
    }
}


/// Appends the decimal text of `n`, with a `-` in front when it is negative.
pub fn push_signed(s: &mut String, n: i64)
    ensures
        final(s)@ == old(s)@ + signed_text(n as int),
{
    if n < 0 {
        push_char(s, '-');
        let m: u64 = if n == i64::MIN {
            9223372036854775808u64
        } else {
            (-n) as u64
        };
        push_decimal(s, m);
        assert(final(s)@ =~= old(s)@ + signed_text(n as int));
    } else {
        push_decimal(s, n as u64);
    }
}

/// Appends a string slice.
pub fn push_str(s: &mut String, t: &str)
    ensures
        final(s)@ == old(s)@ + t@,
{
    s.append(t);
}

/// Appends spaces until the string is at least `width` characters long.
pub fn pad_to(s: &mut String, width: usize)
    ensures
        final(s)@ == padded(old(s)@, width as nat),
{
    let len = s.as_str().unicode_len();
    let ghost start = s@;
    let mut k = len;
    while k < width
        invariant
            len == start.len(),
            len <= k || width <= k,
            k <= width || k == len,
            k >= len,
            s@ == start + Seq::new((k - len) as nat, |i: int| ' '),
        decreases width - k,
    {
        push_char(s, ' ');
        k = k + 1;
        assert(s@ =~= start + Seq::new((k - len) as nat, |i: int| ' '));
    }
    assert(s@ =~= padded(start, width as nat));
}

/// A new string holding `t`.
pub fn string_of(t: &str) -> (r: String)
    ensures
        r@ == t@,
{
    String::from_str(t)
}

/// The first `n` characters of `s`.
pub fn take_chars(s: &str, n: usize) -> (r: String)
    ensures
        r@ == prefix_chars(s@, n as nat),
{
    let len = s.unicode_len();
    if len <= n {
        String::from_str(s)
    } else {
        String::from_str(s.substring_char(0, n))
    }
}

/// Whether two string slices hold the same characters.
pub fn same_text(a: &str, b: &str) -> (r: bool)
    ensures
        r == (a@ == b@),
{
    let la = a.unicode_len();
    let lb = b.unicode_len();
    if la != lb {
        return false;
    }
    let mut i: usize = 0;
    while i < la
        invariant
            la == a@.len(),
            lb == b@.len(),
            la == lb,
            i <= la,
            forall|j: int| 0 <= j < i ==> a@[j] == b@[j],
        decreases la - i,
    {
        if a.get_char(i) != b.get_char(i) {
            return false;
        }
        i = i + 1;
    }
    assert(a@ =~= b@);
    true
}

/// Whether `needle` occurs in `hay` at position `at`.
fn occurs_at(hay: &str, needle: &str, at: usize) -> (r: bool)
    requires
        at + needle@.len() <= hay@.len(),
    ensures
        r == (hay@.subrange(at as int, at + needle@.len()) == needle@),
{
    let n = needle.unicode_len();
    let hl = hay.unicode_len();
    let mut j: usize = 0;
    while j < n
        invariant
            n == needle@.len(),
            hl == hay@.len(),
            at + n <= hay@.len(),
            j <= n,
            forall|k: int| 0 <= k < j ==> hay@[at + k] == needle@[k],
        decreases n - j,
    {
        if hay.get_char(at + j) != needle.get_char(j) {
            assert(hay@.subrange(at as int, at + needle@.len())[j as int] != needle@[j as int]);
            return false;
        }
        j = j + 1;
    }
    assert(hay@.subrange(at as int, at + needle@.len()) =~= needle@);
    true
}

/// Whether `needle` occurs in `hay` (as `str::contains` with a string
/// pattern answers it).
pub fn contains_text(hay: &str, needle: &str) -> (r: bool)
    ensures
        r == has_substring(hay@, needle@),
{
    let h = hay.unicode_len();
    let n = needle.unicode_len();
    if n > h {
        return false;
    }
    let last = h - n;
    let mut i: usize = 0;
    loop
        invariant
            h == hay@.len(),
            n == needle@.len(),
            n <= h,
            last == h - n,
            i <= last,
            forall|k: int| 0 <= k < i ==> #[trigger] hay@.subrange(k, k + n) != needle@,
        decreases last - i,
    {
        if occurs_at(hay, needle, i) {
            return true;
        }
        if i == last {
            return false;
        }
        i = i + 1;
    }
}

/// The lower-case form of a text, as `str::to_lowercase` computes it
/// (full Unicode case mapping).
pub uninterp spec fn lowercase(s: Seq<char>) -> Seq<char>;

/// A white-space character, as `char::is_whitespace` defines it (the
/// Unicode `White_Space` property).
pub open spec fn is_white_space(c: char) -> bool {
    let n = c as u32;
    ||| 9 <= n <= 13
    ||| n == 32
    ||| n == 0x85
    ||| n == 0xA0
    ||| n == 0x1680
    ||| 0x2000 <= n <= 0x200A
    ||| n == 0x2028
    ||| n == 0x2029
    ||| n == 0x202F
    ||| n == 0x205F
    ||| n == 0x3000
}

/// The text without its leading white space.
pub open spec fn trim_start_chars(s: Seq<char>) -> Seq<char>
    decreases s.len(),
{
    if s.len() > 0 && is_white_space(s[0]) {
        trim_start_chars(s.drop_first())
    } else {
        s
    }
}

/// The text without its trailing white space.
pub open spec fn trim_end_chars(s: Seq<char>) -> Seq<char>
    decreases s.len(),
{
    if s.len() > 0 && is_white_space(s.last()) {
        trim_end_chars(s.drop_last())
    } else {
        s
    }
}

/// The text without leading and trailing white space, as `str::trim`
/// computes it.
pub open spec fn trimmed(s: Seq<char>) -> Seq<char> {
    trim_end_chars(trim_start_chars(s))
}

/// Lower-cases a text.
///
/// Calls `str::to_lowercase`; the result is named `lowercase`, and the one
/// fact claimed of it is that the empty text lower-cases to the empty text
/// (each character maps to one or more characters, so nothing comes of
/// nothing). The Unicode case mapping itself is left unstated.
#[verifier::external_body]
pub(crate) fn to_lowercase(s: &str) -> (r: String)
    ensures
        r@ == lowercase(s@),
        s@.len() == 0 ==> r@.len() == 0,
{
    s.to_lowercase()
}

/// Trims white space from both ends of a text.
///
/// Calls `str::trim`, which its documentation defines as removing leading
/// and trailing characters with the Unicode `White_Space` property; the
/// contract states that result (`trimmed`).
#[verifier::external_body]
pub(crate) fn trim(s: &str) -> (r: &str)
    ensures
        r@ == trimmed(s@),
{
    s.trim()
}


/// An ASCII decimal digit.
pub open spec fn is_digit_byte(b: u8) -> bool {
    48 <= b <= 57
}

/// The value of a run of ASCII decimal digits.
pub open spec fn digits_value(d: Seq<u8>) -> int
    decreases d.len(),
{
    if d.len() == 0 {
        0
    } else {
        digits_value(d.drop_last()) * 10 + (d.last() - 48)
    }
}

/// Every byte is an ASCII decimal digit.
pub open spec fn all_digits(d: Seq<u8>) -> bool {
    forall|i: int| 0 <= i < d.len() ==> is_digit_byte(#[trigger] d[i])
}

/// The bytes after an optional leading `+` or `-`.
pub open spec fn unsigned_part(b: Seq<u8>) -> Seq<u8> {
    if b.len() > 0 && (b[0] == 43 || b[0] == 45) {
        b.drop_first()
    } else {
        b
    }
}

/// What `str::parse::<i64>` reads from these bytes: an optional `+` or `-`,
/// then one or more ASCII digits, whose value must fit in an `i64`.
pub open spec fn parsed_i64(b: Seq<u8>) -> Option<i64> {
    let d = unsigned_part(b);
    if d.len() == 0 || !all_digits(d) {
        None
    } else {
        let v = if b[0] == 45 { -digits_value(d) } else { digits_value(d) };
        if i64::MIN <= v <= i64::MAX {
            Some(v as i64)
        } else {
            None
        }
    }
}

proof fn lemma_digits_step(d: Seq<u8>, i: int)
    requires
        0 <= i < d.len(),
    ensures
        digits_value(d.take(i + 1)) == digits_value(d.take(i)) * 10 + (d[i] - 48),
{
    assert(d.take(i + 1).drop_last() =~= d.take(i));
}

proof fn lemma_digits_grow(d: Seq<u8>, i: int)
    requires
        0 <= i <= d.len(),
        forall|k: int| 0 <= k < d.len() ==> is_digit_byte(#[trigger] d[k]),
    ensures
        digits_value(d.take(i)) <= digits_value(d),
        0 <= digits_value(d.take(i)),
    decreases d.len() - i,
{
    if i < d.len() {
        lemma_digits_step(d, i);
        lemma_digits_grow(d, i + 1);
    } else {
        assert(d.take(i) =~= d);
        lemma_digits_nonneg(d);
    }
}

proof fn lemma_digits_nonneg(d: Seq<u8>)
    requires
        forall|k: int| 0 <= k < d.len() ==> is_digit_byte(#[trigger] d[k]),
    ensures
        0 <= digits_value(d),
    decreases d.len(),
{
    if d.len() > 0 {
        lemma_digits_nonneg(d.drop_last());
    }
}

/// Reads an `i64` from the first `end` bytes, as `str::parse::<i64>` does.
pub fn parse_i64(b: &[u8], end: usize) -> (r: Option<i64>)
    requires
        end <= b@.len(),
    ensures
        r == parsed_i64(b@.take(end as int)),
{
    let ghost t = b@.take(end as int);
    if end == 0 {
        return None;
    }
    let signed = b[0] == 43u8 || b[0] == 45u8;
    let negative = b[0] == 45u8;
    let start: usize = if signed { 1 } else { 0 };
    let ghost d = if signed { t.drop_first() } else { t };
    assert(d =~= t.subrange(start as int, end as int));
    if start == end {
        return None;
    }
    let limit: u64 = 9223372036854775808u64;
    let mut acc: u64 = 0;
    let mut i: usize = start;
    while i < end
        invariant
            start <= i <= end,
            0 < end <= b@.len(),
            limit == 9223372036854775808u64,
            signed == (b@[0] == 43 || b@[0] == 45),
            negative == (b@[0] == 45),
            d == (if signed { t.drop_first() } else { t }),
            t == b@.take(end as int),
            d == t.subrange(start as int, end as int),
            start == (if signed { 1usize } else { 0usize }),
            forall|k: int| start <= k < i ==> is_digit_byte(#[trigger] b@[k]),
            acc as int == digits_value(d.take(i - start)),
            acc <= limit,
        decreases end - i,
    {
        let c = b[i];
        if c < 48u8 || c > 57u8 {
            assert(t[0] == b@[0]);
            assert(d[i - start] == b@[i as int]);
            assert(!is_digit_byte(d[i - start]));
            assert(unsigned_part(t) == d);
            return None;
        }
        proof {
            lemma_digits_step(d, i - start);
            assert(d.take(i - start + 1) =~= d.take(i + 1 - start));
        }
        let digit: u64 = (c - 48u8) as u64;
        if acc > (limit - digit) / 10 {
            proof {
                assert(t[0] == b@[0]);
                assert(unsigned_part(t) == d);
                if all_digits(d) {
                    lemma_digits_grow(d, i - start + 1);
                    assert(digits_value(d) > limit);
                    assert(d.len() > 0);
                }
            }
            return None;
        }
        acc = acc * 10 + digit;
        i = i + 1;
    }
    assert(d.take(end - start) =~= d);
    assert(t[0] == b@[0]);
    assert(unsigned_part(t) == d);
    if negative {
        if acc == limit {
            Some(i64::MIN)
        } else {
            Some(-(acc as i64))
        }
    } else if acc == limit {
        None
    } else {
        Some(acc as i64)
    }
}

} // verus!
