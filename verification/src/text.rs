//! Character-level text helpers shared by the rest of the library.
//!
//! Every helper is specified over the character sequence (`Seq<char>`) that a
//! `str` or `String` views as.
use vstd::prelude::*;

verus! {

/// Appends one character to a string (std `String::push`).
///
/// Trusted: the std documentation states that `push` appends the character to
/// the end of the string; nothing else is claimed.
#[verifier::external_body]
pub(crate) fn push_char(s: &mut String, c: char)
    ensures
        final(s)@ == old(s)@.push(c),
{
    s.push(c);
}

/// A new string holding the characters of `s`.
pub fn to_owned_string(s: &str) -> (r: String)
    ensures
        r@ == s@,
{
    String::from_str(s)
}

/// Appends all characters of `t` to `s`.
pub fn push_str(s: &mut String, t: &str)
    ensures
        final(s)@ == old(s)@ + t@,
{
    s.append(t);
}

/// Unicode `White_Space` property, as `char::is_whitespace` documents it.
pub open spec fn is_whitespace_spec(c: char) -> bool {
    let v = c as u32;
    ||| 0x09 <= v <= 0x0D
    ||| v == 0x20
    ||| v == 0x85
    ||| v == 0xA0
    ||| v == 0x1680
    ||| 0x2000 <= v <= 0x200A
    ||| v == 0x2028
    ||| v == 0x2029
    ||| v == 0x202F
    ||| v == 0x205F
    ||| v == 0x3000
}

/// Whether `c` has the Unicode `White_Space` property.
pub fn is_whitespace(c: char) -> (b: bool)
    ensures
        b == is_whitespace_spec(c),
{
    let v = c as u32;
    (0x09 <= v && v <= 0x0D) || v == 0x20 || v == 0x85 || v == 0xA0 || v == 0x1680 || (0x2000
        <= v && v <= 0x200A) || v == 0x2028 || v == 0x2029 || v == 0x202F || v == 0x205F || v
        == 0x3000
}

/// ASCII whitespace as `char::is_ascii_whitespace` documents it.
pub open spec fn is_ascii_whitespace_spec(c: char) -> bool {
    c == ' ' || c == '\t' || c == '\n' || c == '\x0C' || c == '\r'
}

/// Whether `c` is ASCII whitespace.
pub fn is_ascii_whitespace(c: char) -> (b: bool)
    ensures
        b == is_ascii_whitespace_spec(c),
{
    c == ' ' || c == '\t' || c == '\n' || c == '\x0C' || c == '\r'
}

/// Lower-cases an ASCII letter and leaves every other character unchanged.
pub open spec fn ascii_lower_spec(c: char) -> char {
    if 'A' <= c && c <= 'Z' {
        ((c as u32) + 32) as char
    } else {
        c
    }
}

/// Upper-cases an ASCII letter and leaves every other character unchanged.
pub open spec fn ascii_upper_spec(c: char) -> char {
    if 'a' <= c && c <= 'z' {
        ((c as u32) - 32) as char
    } else {
        c
    }
}

/// `char::to_ascii_lowercase`.
pub fn ascii_lower(c: char) -> (r: char)
    ensures
        r == ascii_lower_spec(c),
{
    if 'A' <= c && c <= 'Z' {
        let v = (c as u32) + 32;
        proof {
            vstd::utf8::char_u32_cast(c, c as u32);
        }
        char_from_ascii_code(v)
    } else {
        c
    }
}

/// `char::to_ascii_uppercase`.
pub fn ascii_upper(c: char) -> (r: char)
    ensures
        r == ascii_upper_spec(c),
{
    if 'a' <= c && c <= 'z' {
        let v = (c as u32) - 32;
        char_from_ascii_code(v)
    } else {
        c
    }
}

/// The ASCII character with code `v`.
fn char_from_ascii_code(v: u32) -> (c: char)
    requires
        v < 128,
    ensures
        c == v as char,
        c as u32 == v,
{
    let b = v as u8;
    let c = b as char;
    assert(b as u32 == v);
    c
}

/// The sequence with every ASCII letter lower-cased.
pub open spec fn ascii_lower_seq(s: Seq<char>) -> Seq<char> {
    s.map_values(|c: char| ascii_lower_spec(c))
}

/// Equality of two character sequences ignoring ASCII case.
pub open spec fn eq_ignore_ascii_case_spec(a: Seq<char>, b: Seq<char>) -> bool {
    ascii_lower_seq(a) == ascii_lower_seq(b)
}


/// The sequence without its leading whitespace (`str::trim_start`).
pub open spec fn trim_start_spec(s: Seq<char>) -> Seq<char>
    decreases s.len(),
{
    if s.len() > 0 && is_whitespace_spec(s[0]) {
        trim_start_spec(s.drop_first())
    } else {
        s
    }
}

/// The sequence without its trailing whitespace (`str::trim_end`).
pub open spec fn trim_end_spec(s: Seq<char>) -> Seq<char>
    decreases s.len(),
{
    if s.len() > 0 && is_whitespace_spec(s.last()) {
        trim_end_spec(s.drop_last())
    } else {
        s
    }
}

/// The sequence without leading and trailing whitespace (`str::trim`).
pub open spec fn trim_spec(s: Seq<char>) -> Seq<char> {
    trim_end_spec(trim_start_spec(s))
}

/// Index of the first character that is not whitespace, or the length.
fn trim_start_index(s: &str) -> (i: usize)
    ensures
        i <= s@.len(),
        trim_start_spec(s@) == s@.subrange(i as int, s@.len() as int),
{
    let n = s.unicode_len();
    let mut i: usize = 0;
    assert(s@.subrange(0, n as int) =~= s@);
    while i < n
        invariant
            i <= n,
            n == s@.len(),
            trim_start_spec(s@) == trim_start_spec(s@.subrange(i as int, n as int)),
        decreases n - i,
    {
        let c = s.get_char(i);
        if !is_whitespace(c) {
            return i;
        }
        assert(s@.subrange(i as int, n as int).drop_first() =~= s@.subrange(
            i + 1,
            n as int,
        ));
        i = i + 1;
    }
    i
}

/// Index just past the last character of `s@[from..]` that is not whitespace.
fn trim_end_index(s: &str, from: usize) -> (j: usize)
    requires
        from <= s@.len(),
    ensures
        from <= j <= s@.len(),
        trim_end_spec(s@.subrange(from as int, s@.len() as int)) == s@.subrange(
            from as int,
            j as int,
        ),
{
    let n = s.unicode_len();
    let mut j: usize = n;
    while j > from
        invariant
            from <= j <= n,
            n == s@.len(),
            trim_end_spec(s@.subrange(from as int, n as int)) == trim_end_spec(
                s@.subrange(from as int, j as int),
            ),
        decreases j,
    {
        let c = s.get_char(j - 1);
        if !is_whitespace(c) {
            return j;
        }
        assert(s@.subrange(from as int, j as int).drop_last() =~= s@.subrange(
            from as int,
            j - 1,
        ));
        j = j - 1;
    }
    j
}

/// `str::trim`: the slice without leading and trailing whitespace.
pub fn trim(s: &str) -> (r: &str)
    ensures
        r@ == trim_spec(s@),
{
    let i = trim_start_index(s);
    let j = trim_end_index(s, i);
    s.substring_char(i, j)
}

/// Whether two strings hold the same characters.
pub fn str_eq(a: &str, b: &str) -> (r: bool)
    ensures
        r == (a@ == b@),
{
    let n = a.unicode_len();
    let m = b.unicode_len();
    if n != m {
        return false;
    }
    let mut i: usize = 0;
    while i < n
        invariant
            i <= n,
            n == a@.len(),
            m == b@.len(),
            n == m,
            forall|k: int| 0 <= k < i ==> a@[k] == b@[k],
        decreases n - i,
    {
        if a.get_char(i) != b.get_char(i) {
            return false;
        }
        i = i + 1;
    }
    assert(a@ =~= b@);
    true
}

/// Whether two strings are equal ignoring ASCII case (`str::eq_ignore_ascii_case`).
pub fn eq_ignore_ascii_case(a: &str, b: &str) -> (r: bool)
    ensures
        r == eq_ignore_ascii_case_spec(a@, b@),
{
    let n = a.unicode_len();
    let m = b.unicode_len();
    if n != m {
        assert(ascii_lower_seq(a@).len() != ascii_lower_seq(b@).len());
        return false;
    }
    let mut i: usize = 0;
    while i < n
        invariant
            i <= n,
            n == a@.len(),
            m == b@.len(),
            n == m,
            forall|k: int| 0 <= k < i ==> ascii_lower_spec(a@[k]) == ascii_lower_spec(b@[k]),
        decreases n - i,
    {
        if ascii_lower(a.get_char(i)) != ascii_lower(b.get_char(i)) {
            assert(ascii_lower_seq(a@)[i as int] != ascii_lower_seq(b@)[i as int]);
            return false;
        }
        i = i + 1;
    }
    assert(ascii_lower_seq(a@) =~= ascii_lower_seq(b@));
    true
}

/// Whether `s` begins with the characters of `p`.
pub fn starts_with(s: &str, p: &str) -> (r: bool)
    ensures
        r == (p@.len() <= s@.len() && s@.subrange(0, p@.len() as int) == p@),
{
    let n = s.unicode_len();
    let m = p.unicode_len();
    if m > n {
        return false;
    }
    let mut i: usize = 0;
    while i < m
        invariant
            i <= m <= n,
            n == s@.len(),
            m == p@.len(),
            forall|k: int| 0 <= k < i ==> s@[k] == p@[k],
        decreases m - i,
    {
        if s.get_char(i) != p.get_char(i) {
            assert(s@.subrange(0, m as int)[i as int] != p@[i as int]);
            return false;
        }
        i = i + 1;
    }
    assert(s@.subrange(0, m as int) =~= p@);
    true
}


/// The ASCII character of decimal digit `d`.
pub open spec fn digit_char(d: nat) -> char {
    ((('0' as u32) + d) as u32) as char
}

/// The decimal representation of `n`, as `{}` formats an unsigned integer.
pub open spec fn decimal_spec(n: nat) -> Seq<char>
    decreases n,
{
    if n < 10 {
        seq![digit_char(n)]
    } else {
        decimal_spec(n / 10).push(digit_char(n % 10))
    }
}

/// The character of a decimal digit.
fn digit(d: u64) -> (c: char)
    requires
        d < 10,
    ensures
        c == digit_char(d as nat),
{
    char_from_ascii_code(48 + d as u32)
}

/// Appends the decimal representation of `n` to `s`.
pub fn write_decimal(s: &mut String, n: u64)
    ensures
        final(s)@ == old(s)@ + decimal_spec(n as nat),
    decreases n,
{
    if n >= 10 {
        write_decimal(s, n / 10);
    }
    push_char(s, digit(n % 10));
    proof {
        if n >= 10 {
            assert(decimal_spec(n as nat) == decimal_spec((n / 10) as nat).push(
                digit_char((n % 10) as nat),
            ));
        }
    }
    assert(final(s)@ =~= old(s)@ + decimal_spec(n as nat));
}

/// The decimal representation of `n` as a new string.
pub fn u64_to_decimal(n: u64) -> (r: String)
    ensures
        r@ == decimal_spec(n as nat),
{
    let mut s = String::new();
    write_decimal(&mut s, n);
    assert(s@ =~= decimal_spec(n as nat));
    s
}

/// The hexadecimal digit for `d` (lower or upper case letters).
pub open spec fn hex_digit_char(d: nat, upper: bool) -> char {
    if d < 10 {
        digit_char(d)
    } else if upper {
        ((('A' as u32) + (d - 10)) as u32) as char
    } else {
        ((('a' as u32) + (d - 10)) as u32) as char
    }
}

/// The last `width` hexadecimal digits of `n`, zero padded (`{:0width$x}` of
/// a value below `16^width`).
pub open spec fn hex_spec(n: nat, width: nat, upper: bool) -> Seq<char>
    decreases width,
{
    if width == 0 {
        seq![]
    } else {
        hex_spec(n / 16, (width - 1) as nat, upper).push(hex_digit_char(n % 16, upper))
    }
}

/// The character of a hexadecimal digit.
fn hex_digit(d: u64, upper: bool) -> (c: char)
    requires
        d < 16,
    ensures
        c == hex_digit_char(d as nat, upper),
{
    if d < 10 {
        digit(d)
    } else if upper {
        char_from_ascii_code(65 + (d - 10) as u32)
    } else {
        char_from_ascii_code(97 + (d - 10) as u32)
    }
}

/// Appends the last `width` hexadecimal digits of `n` to `s`.
pub fn write_hex(s: &mut String, n: u64, width: usize, upper: bool)
    ensures
        final(s)@ == old(s)@ + hex_spec(n as nat, width as nat, upper),
    decreases width,
{
    if width > 0 {
        write_hex(s, n / 16, width - 1, upper);
        push_char(s, hex_digit(n % 16, upper));
    }
    assert(final(s)@ =~= old(s)@ + hex_spec(n as nat, width as nat, upper));
}

/// Whether every character is an ASCII decimal digit.
pub open spec fn all_digits(s: Seq<char>) -> bool {
    forall|i: int| 0 <= i < s.len() ==> '0' <= #[trigger] s[i] && s[i] <= '9'
}

/// The value of a string of decimal digits.
pub open spec fn digits_value(s: Seq<char>) -> nat
    decreases s.len(),
{
    if s.len() == 0 {
        0
    } else {
        digits_value(s.drop_last()) * 10 + ((s.last() as u32) - ('0' as u32)) as nat
    }
}

/// The result of `str::parse::<u32>`: an optional `+` followed by at least one
/// decimal digit, with a value that fits in 32 bits.
pub open spec fn parse_u32_spec(s: Seq<char>) -> Option<u32> {
    let body = if s.len() > 0 && s[0] == '+' {
        s.drop_first()
    } else {
        s
    };
    if body.len() > 0 && all_digits(body) && digits_value(body) <= u32::MAX {
        Some(digits_value(body) as u32)
    } else {
        None
    }
}

/// A longer prefix of a digit string never has a smaller value.
proof fn lemma_digits_value_monotone(s: Seq<char>, i: int, j: int)
    requires
        0 <= i <= j <= s.len(),
        all_digits(s),
    ensures
        digits_value(s.subrange(0, i)) <= digits_value(s.subrange(0, j)),
    decreases j - i,
{
    if i < j {
        lemma_digits_value_monotone(s, i, j - 1);
        assert(s.subrange(0, j).drop_last() =~= s.subrange(0, j - 1));
    }
}

/// `str::parse::<u32>`.
pub fn parse_u32(s: &str) -> (r: Option<u32>)
    ensures
        r == parse_u32_spec(s@),
{
    let n = s.unicode_len();
    let mut i: usize = 0;
    if n > 0 && s.get_char(0) == '+' {
        i = 1;
    }
    let start = i;
    let ghost body = if s@.len() > 0 && s@[0] == '+' {
        s@.drop_first()
    } else {
        s@
    };
    assert(body =~= s@.subrange(start as int, n as int));
    if start == n {
        return None;
    }
    let mut value: u64 = 0;
    while i < n
        invariant
            start <= i <= n,
            n == s@.len(),
            body == s@.subrange(start as int, n as int),
            body == (if s@.len() > 0 && s@[0] == '+' {
                s@.drop_first()
            } else {
                s@
            }),
            all_digits(s@.subrange(start as int, i as int)),
            value == digits_value(s@.subrange(start as int, i as int)),
            value <= u32::MAX,
        decreases n - i,
    {
        let c = s.get_char(i);
        if !('0' <= c && c <= '9') {
            proof {
                let k = i - start;
                assert(body[k] == c);
                assert(!all_digits(body));
            }
            return None;
        }
        let d = (c as u32 - '0' as u32) as u64;
        let next = value * 10 + d;
        proof {
            let pre = s@.subrange(start as int, i + 1);
            assert(pre.drop_last() =~= s@.subrange(start as int, i as int));
            assert(pre.last() == c);
            assert(all_digits(pre));
            assert(digits_value(pre) == value * 10 + d);
        }
        if next > u32::MAX as u64 {
            proof {
                let pre = s@.subrange(start as int, i + 1);
                if all_digits(body) {
                    lemma_digits_value_monotone(body, i + 1 - start, body.len() as int);
                    assert(body.subrange(0, i + 1 - start) =~= pre);
                    assert(body.subrange(0, body.len() as int) =~= body);
                }
            }
            return None;
        }
        value = next;
        i = i + 1;
    }
    Some(value as u32)
}


/// Length of the UTF-8 encoding of `s`, in bytes.
pub fn byte_len(s: &str) -> (n: usize)
    ensures
        n == utf8_len(s@),
{
    s.as_bytes().len()
}

/// Whether `s` begins with `p` (see [`has_prefix`]).
pub fn begins_with(s: &str, p: &str) -> (r: bool)
    ensures
        r == has_prefix(s@, p@),
{
    let r = starts_with(s, p);
    proof {
        if p@.len() <= s@.len() {
            assert(s@.take(p@.len() as int) =~= s@.subrange(0, p@.len() as int));
        }
    }
    r
}

/// The result of `str::parse::<usize>`: an optional `+` followed by at least
/// one decimal digit, with a value that fits in a `usize`.
pub open spec fn parse_usize_spec(s: Seq<char>) -> Option<usize> {
    let body = if s.len() > 0 && s[0] == '+' {
        s.drop_first()
    } else {
        s
    };
    if body.len() > 0 && all_digits(body) && digits_value(body) <= usize::MAX {
        Some(digits_value(body) as usize)
    } else {
        None
    }
}

/// `str::parse::<usize>`.
pub fn parse_usize(s: &str) -> (r: Option<usize>)
    ensures
        r == parse_usize_spec(s@),
{
    let n = s.unicode_len();
    let mut i: usize = 0;
    if n > 0 && s.get_char(0) == '+' {
        i = 1;
    }
    let start = i;
    let ghost body = if s@.len() > 0 && s@[0] == '+' {
        s@.drop_first()
    } else {
        s@
    };
    assert(body =~= s@.subrange(start as int, n as int));
    if start == n {
        return None;
    }
    let mut value: u128 = 0;
    while i < n
        invariant
            start <= i <= n,
            n == s@.len(),
            body == s@.subrange(start as int, n as int),
            body == (if s@.len() > 0 && s@[0] == '+' {
                s@.drop_first()
            } else {
                s@
            }),
            all_digits(s@.subrange(start as int, i as int)),
            value == digits_value(s@.subrange(start as int, i as int)),
            value <= usize::MAX,
        decreases n - i,
    {
        let c = s.get_char(i);
        if !('0' <= c && c <= '9') {
            proof {
                let k = i - start;
                assert(body[k] == c);
                assert(!all_digits(body));
            }
            return None;
        }
        let d = (c as u32 - '0' as u32) as u128;
        let next = value * 10 + d;
        proof {
            let pre = s@.subrange(start as int, i + 1);
            assert(pre.drop_last() =~= s@.subrange(start as int, i as int));
            assert(pre.last() == c);
            assert(all_digits(pre));
            assert(digits_value(pre) == value * 10 + d);
        }
        if next > usize::MAX as u128 {
            proof {
                let pre = s@.subrange(start as int, i + 1);
                if all_digits(body) {
                    lemma_digits_value_monotone(body, i + 1 - start, body.len() as int);
                    assert(body.subrange(0, i + 1 - start) =~= pre);
                    assert(body.subrange(0, body.len() as int) =~= body);
                }
            }
            return None;
        }
        value = next;
        i = i + 1;
    }
    Some(value as usize)
}

/// Number of bytes in the UTF-8 encoding of a character sequence.
pub open spec fn utf8_len(s: Seq<char>) -> nat {
    vstd::utf8::encode_utf8(s).len()
}

/// Whether the first `n` UTF-8 bytes of `s` end on a character boundary.
pub open spec fn is_byte_boundary(s: Seq<char>, n: nat) -> bool {
    exists|k: int| 0 <= k <= s.len() && #[trigger] utf8_len(s.take(k)) == n
}

/// Number of bytes in the UTF-8 encoding of one character.
pub open spec fn char_width(c: char) -> nat {
    vstd::utf8::encode_scalar(c as u32).len()
}

/// Encoding a sequence extended by one character appends that character's encoding.
pub proof fn lemma_encode_utf8_push(a: Seq<char>, c: char)
    ensures
        vstd::utf8::encode_utf8(a.push(c)) == vstd::utf8::encode_utf8(a)
            + vstd::utf8::encode_scalar(c as u32),
    decreases a.len(),
{
    if a.len() == 0 {
        assert(a.push(c).drop_first() =~= Seq::<char>::empty());
        assert(a.push(c)[0] == c);
        assert(vstd::utf8::encode_utf8(Seq::<char>::empty()) =~= Seq::<u8>::empty());
        assert(vstd::utf8::encode_utf8(a.push(c)) =~= vstd::utf8::encode_scalar(c as u32));
    } else {
        assert(a.push(c).drop_first() =~= a.drop_first().push(c));
        lemma_encode_utf8_push(a.drop_first(), c);
        assert(vstd::utf8::encode_utf8(a.push(c)) =~= vstd::utf8::encode_utf8(a)
            + vstd::utf8::encode_scalar(c as u32));
    }
}

/// A character's encoding is one to four bytes long.
pub proof fn lemma_char_width_bounds(c: char)
    ensures
        1 <= char_width(c) <= 4,
{
    vstd::utf8::char_is_scalar(c);
}

/// Taking one more character adds that character's width.
pub proof fn lemma_utf8_len_take_step(s: Seq<char>, i: int)
    requires
        0 <= i < s.len(),
    ensures
        utf8_len(s.take(i + 1)) == utf8_len(s.take(i)) + char_width(s[i]),
{
    assert(s.take(i + 1) =~= s.take(i).push(s[i]));
    lemma_encode_utf8_push(s.take(i), s[i]);
}

/// The encoding of a longer prefix is never shorter.
pub proof fn lemma_utf8_len_take_monotone(s: Seq<char>, i: int, j: int)
    requires
        0 <= i <= j <= s.len(),
    ensures
        utf8_len(s.take(i)) <= utf8_len(s.take(j)),
    decreases j - i,
{
    if i < j {
        lemma_utf8_len_take_monotone(s, i, j - 1);
        lemma_utf8_len_take_step(s, j - 1);
    }
}

/// Number of bytes that `char::len_utf8` reports.
pub fn char_utf8_width(c: char) -> (w: usize)
    ensures
        w == char_width(c),
        1 <= w <= 4,
{
    proof {
        vstd::utf8::char_is_scalar(c);
    }
    let v = c as u32;
    if v <= 0x7F {
        1
    } else if v <= 0x7FF {
        2
    } else if v <= 0xFFFF {
        3
    } else {
        4
    }
}


/// Whether `p` occurs in `s` starting at character index `i`.
pub open spec fn matches_at(s: Seq<char>, p: Seq<char>, i: int) -> bool {
    0 <= i && i + p.len() <= s.len() && s.subrange(i, i + p.len()) == p
}

/// Index of the first occurrence of `p` in `s` at or after `i`, or -1.
pub open spec fn find_from_spec(s: Seq<char>, p: Seq<char>, i: int) -> int
    decreases s.len() - i,
{
    if i < 0 || i + p.len() > s.len() {
        -1
    } else if matches_at(s, p, i) {
        i
    } else {
        proof {
            if p.len() == 0 {
                assert(s.subrange(i, i) =~= p);
            }
        }
        find_from_spec(s, p, i + 1)
    }
}

/// Index of the first occurrence of `p` in `s`, or -1 (`str::find`, counted in characters).
pub open spec fn find_spec(s: Seq<char>, p: Seq<char>) -> int {
    find_from_spec(s, p, 0)
}

/// Facts about [`find_from_spec`].
pub proof fn lemma_find_from_bounds(s: Seq<char>, p: Seq<char>, i: int)
    requires
        0 <= i,
    ensures
        find_from_spec(s, p, i) == -1 || (i <= find_from_spec(s, p, i) && matches_at(
            s,
            p,
            find_from_spec(s, p, i),
        )),
        forall|k: int| i <= k < find_from_spec(s, p, i) ==> !matches_at(s, p, k),
        find_from_spec(s, p, i) == -1 ==> forall|k: int| i <= k ==> !#[trigger] matches_at(s, p, k),
    decreases s.len() - i,
{
    if p.len() == 0 && i <= s.len() {
        assert(s.subrange(i, i) =~= p);
    }
    if i + p.len() <= s.len() && !matches_at(s, p, i) {
        lemma_find_from_bounds(s, p, i + 1);
    }
}

/// Whether `p` occurs in `s` at character index `i`.
fn matches_at_exec(s: &str, p: &str, i: usize) -> (r: bool)
    requires
        i + p@.len() <= s@.len(),
        s@.len() <= usize::MAX,
    ensures
        r == matches_at(s@, p@, i as int),
{
    let m = p.unicode_len();
    let mut j: usize = 0;
    while j < m
        invariant
            j <= m,
            m == p@.len(),
            i + m <= s@.len(),
            s@.len() <= usize::MAX,
            forall|k: int| 0 <= k < j ==> s@[i + k] == p@[k],
        decreases m - j,
    {
        if s.get_char(i + j) != p.get_char(j) {
            assert(s@.subrange(i as int, i + m)[j as int] != p@[j as int]);
            return false;
        }
        j = j + 1;
    }
    assert(s@.subrange(i as int, i + m) =~= p@);
    true
}

/// `str::find`: character index of the first occurrence of `p` in `s`.
pub fn find(s: &str, p: &str) -> (r: Option<usize>)
    ensures
        r is None <==> find_spec(s@, p@) == -1,
        r matches Some(i) ==> i == find_spec(s@, p@),
{
    let n = s.unicode_len();
    let m = p.unicode_len();
    if m > n {
        return None;
    }
    let mut i: usize = 0;
    while i <= n - m
        invariant
            i <= n - m + 1,
            n == s@.len(),
            m == p@.len(),
            m <= n,
            find_spec(s@, p@) == find_from_spec(s@, p@, i as int),
        decreases n + 1 - i,
    {
        if matches_at_exec(s, p, i) {
            return Some(i);
        }
        proof {
            if m == 0 {
                assert(s@.subrange(i as int, i as int) =~= p@);
            }
        }
        i = i + 1;
    }
    None
}

/// `&s[from..to]` counted in characters.
pub fn substring(s: &str, from: usize, to: usize) -> (r: &str)
    requires
        from <= to <= s@.len(),
    ensures
        r@ == s@.subrange(from as int, to as int),
{
    s.substring_char(from, to)
}

/// Whether `p` occurs somewhere in `s`.
pub open spec fn contains_spec(s: Seq<char>, p: Seq<char>) -> bool {
    exists|i: int| #[trigger] matches_at(s, p, i)
}

/// `str::contains`: whether `p` occurs in `s`.
pub fn contains(s: &str, p: &str) -> (r: bool)
    ensures
        r == contains_spec(s@, p@),
{
    let r = find(s, p);
    proof {
        lemma_find_from_bounds(s@, p@, 0);
        if r is None {
            assert forall|i: int| !#[trigger] matches_at(s@, p@, i) by {
                if i >= 0 {
                    assert(!matches_at(s@, p@, i));
                }
            }
        } else {
            assert(matches_at(s@, p@, find_spec(s@, p@)));
        }
    }
    r.is_some()
}

/// `dir` joined with the file name `name` as a path: `name` alone when it
/// is absolute or `dir` is empty, else the two with one `/` between them.
pub open spec fn join_path_spec(dir: Seq<char>, name: Seq<char>) -> Seq<char> {
    if name.len() > 0 && name[0] == '/' {
        name
    } else if dir.len() == 0 {
        name
    } else if dir.last() == '/' {
        dir + name
    } else {
        dir + "/"@ + name
    }
}

/// Joins a directory and a file name as `Path::join` does on Unix: an
/// absolute name replaces the directory.
pub fn join_path(dir: &str, name: &str) -> (r: String)
    ensures
        r@ == join_path_spec(dir@, name@),
{
    let n = dir.unicode_len();
    if name.unicode_len() > 0 && name.get_char(0) == '/' {
        return to_owned_string(name);
    }
    if n == 0 {
        return to_owned_string(name);
    }
    let mut out = to_owned_string(dir);
    if dir.get_char(n - 1) != '/' {
        push_char(&mut out, '/');
        proof {
            reveal_strlit("/");
            assert(out@ =~= dir@ + "/"@);
        }
    }
    push_str(&mut out, name);
    out
}

/// The whitespace-separated words of `s[i..]`, given the word `cur` being
/// read and the words `acc` read before.
pub open spec fn words_acc(s: Seq<char>, i: int, cur: Seq<char>, acc: Seq<Seq<char>>) -> Seq<Seq<char>>
    decreases s.len() - i,
{
    if i < 0 || i >= s.len() {
        if cur.len() > 0 {
            acc.push(cur)
        } else {
            acc
        }
    } else if is_whitespace_spec(s[i]) {
        words_acc(s, i + 1, Seq::empty(), if cur.len() > 0 { acc.push(cur) } else { acc })
    } else {
        words_acc(s, i + 1, cur.push(s[i]), acc)
    }
}

/// The maximal runs of non-whitespace characters of `s` (`str::split_whitespace`).
pub open spec fn words(s: Seq<char>) -> Seq<Seq<char>> {
    words_acc(s, 0, Seq::empty(), Seq::empty())
}

/// Whether no character of `w` is whitespace.
pub open spec fn no_whitespace(w: Seq<char>) -> bool {
    forall|i: int| 0 <= i < w.len() ==> !is_whitespace_spec(#[trigger] w[i])
}

/// The words read so far only come before the words still to read.
pub proof fn lemma_words_acc_prefix(s: Seq<char>, i: int, cur: Seq<char>, acc: Seq<Seq<char>>)
    ensures
        words_acc(s, i, cur, acc) == acc + words_acc(s, i, cur, Seq::empty()),
    decreases s.len() - i,
{
    if i < 0 || i >= s.len() {
        assert(acc + Seq::<Seq<char>>::empty() =~= acc);
        if cur.len() > 0 {
            assert(acc.push(cur) =~= acc + Seq::<Seq<char>>::empty().push(cur));
        }
    } else if is_whitespace_spec(s[i]) {
        let a2 = if cur.len() > 0 { acc.push(cur) } else { acc };
        let e2 = if cur.len() > 0 { Seq::<Seq<char>>::empty().push(cur) } else { Seq::<Seq<char>>::empty() };
        lemma_words_acc_prefix(s, i + 1, Seq::empty(), a2);
        lemma_words_acc_prefix(s, i + 1, Seq::empty(), e2);
        assert(a2 =~= acc + e2);
        assert(acc + e2 + words_acc(s, i + 1, Seq::empty(), Seq::empty()) =~= acc + (e2 + words_acc(
            s,
            i + 1,
            Seq::empty(),
            Seq::empty(),
        )));
    } else {
        lemma_words_acc_prefix(s, i + 1, cur.push(s[i]), acc);
        lemma_words_acc_prefix(s, i + 1, cur.push(s[i]), Seq::empty());
    }
}

/// Reading the characters of `b` after those of `p` is reading `b`.
pub proof fn lemma_words_acc_shift(p: Seq<char>, b: Seq<char>, j: int, cur: Seq<char>, acc: Seq<Seq<char>>)
    requires
        0 <= j,
    ensures
        words_acc(p + b, p.len() + j, cur, acc) == words_acc(b, j, cur, acc),
    decreases b.len() - j,
{
    if j < b.len() {
        assert((p + b)[p.len() + j] == b[j]);
        if is_whitespace_spec(b[j]) {
            lemma_words_acc_shift(p, b, j + 1, Seq::empty(), if cur.len() > 0 { acc.push(cur) } else { acc });
        } else {
            lemma_words_acc_shift(p, b, j + 1, cur.push(b[j]), acc);
        }
    }
}

proof fn lemma_words_concat_from(a: Seq<char>, b: Seq<char>, i: int, cur: Seq<char>, acc: Seq<Seq<char>>)
    requires
        0 <= i <= a.len(),
        b.len() == 0 || is_whitespace_spec(b[0]),
    ensures
        words_acc(a + b, i, cur, acc) == words_acc(a, i, cur, acc) + words(b),
    decreases a.len() - i,
{
    if i == a.len() {
        let a2 = if cur.len() > 0 { acc.push(cur) } else { acc };
        if b.len() == 0 {
            assert(a + b =~= a);
            assert(words(b) == Seq::<Seq<char>>::empty());
            assert(a2 + Seq::<Seq<char>>::empty() =~= a2);
        } else {
            assert((a + b)[i] == b[0]);
            lemma_words_acc_shift(a, b, 1, Seq::empty(), a2);
            lemma_words_acc_prefix(b, 1, Seq::empty(), a2);
            assert(words(b) == words_acc(b, 1, Seq::empty(), Seq::empty()));
        }
    } else {
        assert((a + b)[i] == a[i]);
        if is_whitespace_spec(a[i]) {
            lemma_words_concat_from(a, b, i + 1, Seq::empty(), if cur.len() > 0 { acc.push(cur) } else { acc });
        } else {
            lemma_words_concat_from(a, b, i + 1, cur.push(a[i]), acc);
        }
    }
}

/// The words of `a` followed by text that starts with whitespace (or by
/// nothing) are the words of `a` and then those of the text.
pub proof fn lemma_words_concat(a: Seq<char>, b: Seq<char>)
    requires
        b.len() == 0 || is_whitespace_spec(b[0]),
    ensures
        words(a + b) == words(a) + words(b),
{
    lemma_words_concat_from(a, b, 0, Seq::empty(), Seq::empty());
}

proof fn lemma_words_acc_run(s: Seq<char>, i: int, cur: Seq<char>, acc: Seq<Seq<char>>)
    requires
        0 <= i <= s.len(),
        no_whitespace(s.skip(i)),
        cur.len() + s.len() - i > 0,
    ensures
        words_acc(s, i, cur, acc) == acc.push(cur + s.skip(i)),
    decreases s.len() - i,
{
    if i == s.len() {
        assert(cur + s.skip(i) =~= cur);
    } else {
        assert(s.skip(i)[0] == s[i]);
        assert(no_whitespace(s.skip(i + 1))) by {
            assert forall|k: int| 0 <= k < s.skip(i + 1).len() implies !is_whitespace_spec(#[trigger] s.skip(i + 1)[k]) by {
                assert(s.skip(i + 1)[k] == s.skip(i)[k + 1]);
            }
        }
        lemma_words_acc_run(s, i + 1, cur.push(s[i]), acc);
        assert(cur.push(s[i]) + s.skip(i + 1) =~= cur + s.skip(i));
    }
}

/// A space followed by a non-empty word without whitespace is that one word.
pub proof fn lemma_words_single(w: Seq<char>)
    requires
        w.len() > 0,
        no_whitespace(w),
    ensures
        words(seq![' '] + w) == seq![w],
{
    let s = seq![' '] + w;
    assert(s[0] == ' ');
    assert(is_whitespace_spec(' '));
    assert(s.skip(1) =~= w);
    lemma_words_acc_run(s, 1, Seq::empty(), Seq::empty());
    assert(Seq::<char>::empty() + w =~= w);
    assert(Seq::<Seq<char>>::empty().push(w) =~= seq![w]);
}

/// The items, each after one space.
pub open spec fn spaced(items: Seq<Seq<char>>) -> Seq<char>
    decreases items.len(),
{
    if items.len() == 0 {
        Seq::empty()
    } else {
        spaced(items.drop_last()) + seq![' '] + items.last()
    }
}

/// Spacing two lists of items one after the other spaces their concatenation.
pub proof fn lemma_spaced_concat(a: Seq<Seq<char>>, b: Seq<Seq<char>>)
    ensures
        spaced(a + b) == spaced(a) + spaced(b),
    decreases b.len(),
{
    if b.len() == 0 {
        assert(a + b =~= a);
        assert(spaced(a) + Seq::<char>::empty() =~= spaced(a));
    } else {
        lemma_spaced_concat(a, b.drop_last());
        assert((a + b).drop_last() =~= a + b.drop_last());
        assert((a + b).last() == b.last());
        assert(spaced(a) + (spaced(b.drop_last()) + seq![' '] + b.last()) =~= spaced(a) + spaced(b.drop_last()) + seq![' ']
            + b.last());
    }
}

/// The words of non-empty whitespace-free items, each after one space, are
/// those items.
pub proof fn lemma_words_spaced(items: Seq<Seq<char>>)
    requires
        forall|i: int| 0 <= i < items.len() ==> (#[trigger] items[i]).len() > 0 && no_whitespace(items[i]),
    ensures
        words(spaced(items)) == items,
    decreases items.len(),
{
    if items.len() == 0 {
        assert(words(Seq::<char>::empty()) == Seq::<Seq<char>>::empty());
    } else {
        let init = items.drop_last();
        let last = items.last();
        assert forall|i: int| 0 <= i < init.len() implies (#[trigger] init[i]).len() > 0 && no_whitespace(init[i]) by {
            assert(init[i] == items[i]);
        }
        lemma_words_spaced(init);
        let tail = seq![' '] + last;
        assert(items[items.len() - 1] == last);
        assert(tail[0] == ' ');
        assert(is_whitespace_spec(' '));
        lemma_words_concat(spaced(init), tail);
        assert(spaced(items) =~= spaced(init) + tail);
        lemma_words_single(last);
        assert(init + seq![last] =~= items);
    }
}

/// The character views of a sequence of strings.
pub open spec fn string_views(v: Seq<String>) -> Seq<Seq<char>> {
    v.map_values(|x: String| x@)
}

/// Whether `s` begins with `p`.
pub open spec fn has_prefix(s: Seq<char>, p: Seq<char>) -> bool {
    p.len() <= s.len() && s.take(p.len() as int) == p
}

/// The view of an optional string.
pub open spec fn opt_view(o: Option<String>) -> Option<Seq<char>> {
    match o {
        Some(s) => Some(s@),
        None => None,
    }
}

/// Whether `v` holds a string equal to `t`.
pub fn holds_text(v: &Vec<String>, t: &str) -> (r: bool)
    ensures
        r == exists|j: int| 0 <= j < v@.len() && #[trigger] v@[j]@ == t@,
{
    let mut k: usize = 0;
    while k < v.len()
        invariant
            k <= v@.len(),
            forall|j: int| 0 <= j < k ==> #[trigger] v@[j]@ != t@,
        decreases v@.len() - k,
    {
        if str_eq(v[k].as_str(), t) {
            return true;
        }
        k = k + 1;
    }
    false
}

/// `str::split_whitespace`, collected.
pub fn split_whitespace(s: &str) -> (r: Vec<String>)
    ensures
        string_views(r@) == words(s@),
{
    let n = s.unicode_len();
    let mut out: Vec<String> = Vec::new();
    let mut cur = String::new();
    let mut i: usize = 0;
    assert(string_views(out@) =~= Seq::<Seq<char>>::empty());
    while i < n
        invariant
            i <= n,
            n == s@.len(),
            words(s@) == words_acc(s@, i as int, cur@, string_views(out@)),
        decreases n - i,
    {
        let c = s.get_char(i);
        let ghost acc0 = string_views(out@);
        let ghost cur0 = cur@;
        assert(words_acc(s@, i as int, cur0, acc0) == if is_whitespace_spec(c) {
            words_acc(s@, i + 1, Seq::empty(), if cur0.len() > 0 { acc0.push(cur0) } else { acc0 })
        } else {
            words_acc(s@, i + 1, cur0.push(c), acc0)
        });
        if is_whitespace(c) {
            if cur.as_str().unicode_len() > 0 {
                let ghost before = out@;
                out.push(cur);
                assert(string_views(out@) =~= string_views(before).push(out@.last()@));
                cur = String::new();
            } else {
                cur = String::new();
            }
        } else {
            push_char(&mut cur, c);
        }
        i = i + 1;
    }
    if cur.as_str().unicode_len() > 0 {
        let ghost before = out@;
        out.push(cur);
        assert(string_views(out@) =~= string_views(before).push(out@.last()@));
    }
    out
}

/// The Unicode lower-case form of a string, as `str::to_lowercase` computes it.
pub uninterp spec fn lowercase_spec(s: Seq<char>) -> Seq<char>;

/// `str::to_lowercase`.
///
/// Trusted: the result is named, not described; the std documentation defines
/// it from the Unicode case tables, by the characters of `s` alone.
#[verifier::external_body]
pub(crate) fn to_lowercase(s: &str) -> (r: String)
    ensures
        r@ == lowercase_spec(s@),
{
    s.to_lowercase()
}

/// Whether a character has the Unicode `Alphabetic` property, as
/// `char::is_alphabetic` decides it.
pub uninterp spec fn alphabetic_spec(c: char) -> bool;

/// `char::is_alphabetic`.
///
/// Trusted: the result is named, not described; the std documentation defines
/// it by the Unicode `Alphabetic` property of the character alone.
#[verifier::external_body]
pub(crate) fn is_alphabetic(c: char) -> (r: bool)
    ensures
        r == alphabetic_spec(c),
{
    c.is_alphabetic()
}

/// `str::to_ascii_lowercase`.
pub fn to_ascii_lowercase(s: &str) -> (r: String)
    ensures
        r@ == ascii_lower_seq(s@),
{
    let n = s.unicode_len();
    let mut out = String::new();
    let mut i: usize = 0;
    while i < n
        invariant
            i <= n,
            n == s@.len(),
            out@ == ascii_lower_seq(s@.take(i as int)),
        decreases n - i,
    {
        push_char(&mut out, ascii_lower(s.get_char(i)));
        i = i + 1;
        proof {
            assert(out@ =~= ascii_lower_seq(s@.take(i as int)));
        }
    }
    proof {
        assert(s@.take(n as int) =~= s@);
    }
    out
}

/// The Unicode upper-case form of a string, as `str::to_uppercase` computes it.
pub uninterp spec fn uppercase_spec(s: Seq<char>) -> Seq<char>;

/// `str::to_uppercase`.
///
/// Trusted: the result is named, not described; the std documentation defines
/// it from the Unicode case tables, by the characters of `s` alone.
#[verifier::external_body]
pub(crate) fn to_uppercase(s: &str) -> (r: String)
    ensures
        r@ == uppercase_spec(s@),
{
    s.to_uppercase()
}

/// The pieces of `s[i..]` between occurrences of `sep`, given the piece
/// `cur` being read and the pieces `acc` before it.
pub open spec fn split_acc(s: Seq<char>, sep: char, i: int, cur: Seq<char>, acc: Seq<Seq<char>>) -> Seq<Seq<char>>
    decreases s.len() - i,
{
    if i < 0 || i >= s.len() {
        acc.push(cur)
    } else if s[i] == sep {
        split_acc(s, sep, i + 1, Seq::empty(), acc.push(cur))
    } else {
        split_acc(s, sep, i + 1, cur.push(s[i]), acc)
    }
}

/// The pieces of `s` between occurrences of `sep` (`str::split` with a
/// character): one more than the number of separators.
pub open spec fn split_char_spec(s: Seq<char>, sep: char) -> Seq<Seq<char>> {
    split_acc(s, sep, 0, Seq::empty(), Seq::empty())
}

/// `str::split` with a character, collected.
pub fn split_char(s: &str, sep: char) -> (r: Vec<String>)
    ensures
        string_views(r@) == split_char_spec(s@, sep),
{
    let n = s.unicode_len();
    let mut out: Vec<String> = Vec::new();
    let mut cur = String::new();
    let mut i: usize = 0;
    assert(string_views(out@) =~= Seq::<Seq<char>>::empty());
    while i < n
        invariant
            i <= n,
            n == s@.len(),
            split_char_spec(s@, sep) == split_acc(s@, sep, i as int, cur@, string_views(out@)),
        decreases n - i,
    {
        let c = s.get_char(i);
        let ghost acc0 = string_views(out@);
        let ghost cur0 = cur@;
        assert(split_acc(s@, sep, i as int, cur0, acc0) == if c == sep {
            split_acc(s@, sep, i + 1, Seq::empty(), acc0.push(cur0))
        } else {
            split_acc(s@, sep, i + 1, cur0.push(c), acc0)
        });
        if c == sep {
            out.push(cur);
            assert(string_views(out@) =~= acc0.push(cur0));
            cur = String::new();
        } else {
            push_char(&mut cur, c);
        }
        i = i + 1;
    }
    let ghost acc0 = string_views(out@);
    let ghost cur0 = cur@;
    out.push(cur);
    assert(string_views(out@) =~= acc0.push(cur0));
    out
}

} // verus!
