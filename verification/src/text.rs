//! Text helpers: decimal and hexadecimal digits, case folding and substring search.

use vstd::prelude::*;

verus! {

/// The character of a digit below 16, lowercase for the letters.
pub open spec fn spec_digit_char(d: int) -> char {
    if d < 10 {
        (('0' as int) + d) as char
    } else {
        (('a' as int) + d - 10) as char
    }
}

/// The decimal digits of `n`, most significant first, without leading zeros.
pub open spec fn decimal_chars(n: nat) -> Seq<char>
    decreases n,
{
    if n < 10 {
        seq![spec_digit_char(n as int)]
    } else {
        decimal_chars(n / 10).push(spec_digit_char((n % 10) as int))
    }
}

/// The last `width` hexadecimal digits of `n`, lowercase, most significant first.
pub open spec fn hex_chars(n: nat, width: nat) -> Seq<char>
    decreases width,
{
    if width == 0 {
        Seq::empty()
    } else {
        hex_chars(n / 16, (width - 1) as nat).push(spec_digit_char((n % 16) as int))
    }
}

/// The number of hexadecimal digits of `n`, without leading zeros (1 for 0).
pub open spec fn hex_digit_count(n: nat) -> nat
    decreases n,
{
    if n < 16 {
        1
    } else {
        1 + hex_digit_count(n / 16)
    }
}

/// `n` in lowercase hexadecimal, padded with zeros to at least `width` digits.
pub open spec fn padded_hex(n: nat, width: nat) -> Seq<char> {
    if hex_digit_count(n) > width {
        hex_chars(n, hex_digit_count(n))
    } else {
        hex_chars(n, width)
    }
}

/// The number of hexadecimal digits of `n`.
pub fn count_hex_digits(n: usize) -> (r: usize)
    ensures
        r == hex_digit_count(n as nat),
        r <= 16,
{
    proof {
        lemma_hex_digit_count_bound(n as nat);
    }
    let mut m = n;
    let mut count: usize = 1;
    while m >= 16
        invariant
            count + hex_digit_count(m as nat) == 1 + hex_digit_count(n as nat),
            hex_digit_count(n as nat) <= 16,
            1 <= count <= 16,
            count + hex_digit_count(m as nat) <= 17,
        decreases m,
    {
        m = m / 16;
        count = count + 1;
    }
    count
}

/// Appends `n` in lowercase hexadecimal, padded with zeros to at least `width` digits.
pub fn push_padded_hex(s: &mut String, n: usize, width: usize)
    ensures
        final(s)@ == old(s)@ + padded_hex(n as nat, width as nat),
{
    proof {
        lemma_hex_digit_count_bound(n as nat);
    }
    let digits = count_hex_digits(n);
    if digits > width {
        push_hex(s, n, digits);
    } else {
        push_hex(s, n, width);
    }
}

/// `16^k`.
pub open spec fn pow16(k: nat) -> nat
    decreases k,
{
    if k == 0 {
        1
    } else {
        16 * pow16((k - 1) as nat)
    }
}

/// Every `usize` has at most 16 hexadecimal digits.
pub proof fn lemma_hex_digit_count_bound(n: nat)
    requires
        n <= usize::MAX,
    ensures
        hex_digit_count(n) <= 16,
{
    assert(pow16(16) == 0x1_0000_0000_0000_0000) by {
        reveal_with_fuel(pow16, 17);
    }
    lemma_digit_count_below(n, 16);
}

/// A number below `16^k`, `k >= 1`, has at most `k` digits.
proof fn lemma_digit_count_below(n: nat, k: nat)
    requires
        k >= 1,
        n < pow16(k),
    ensures
        hex_digit_count(n) <= k,
    decreases k,
{
    if n >= 16 {
        assert(k > 1) by {
            if k == 1 {
                assert(pow16(1) == 16 * pow16(0));
            }
        }
        assert(n / 16 < pow16((k - 1) as nat)) by (nonlinear_arith)
            requires
                n < 16 * pow16((k - 1) as nat),
        ;
        lemma_digit_count_below(n / 16, (k - 1) as nat);
    }
}

/// The character of a digit below 16.
pub fn digit_char(d: u8) -> (c: char)
    requires
        d < 16,
    ensures
        c == spec_digit_char(d as int),
{
    if d == 0 {
        '0'
    } else if d == 1 {
        '1'
    } else if d == 2 {
        '2'
    } else if d == 3 {
        '3'
    } else if d == 4 {
        '4'
    } else if d == 5 {
        '5'
    } else if d == 6 {
        '6'
    } else if d == 7 {
        '7'
    } else if d == 8 {
        '8'
    } else if d == 9 {
        '9'
    } else if d == 10 {
        'a'
    } else if d == 11 {
        'b'
    } else if d == 12 {
        'c'
    } else if d == 13 {
        'd'
    } else if d == 14 {
        'e'
    } else {
        'f'
    }
}

/// The characters of `s`, in order.
pub fn chars_of(s: &str) -> (r: Vec<char>)
    ensures
        r@ == s@,
{
    let n = s.unicode_len();
    let mut out: Vec<char> = Vec::new();
    let mut i: usize = 0;
    while i < n
        invariant
            n == s@.len(),
            i <= n,
            out@ == s@.take(i as int),
        decreases n - i,
    {
        out.push(s.get_char(i));
        i = i + 1;
        assert(out@ =~= s@.take(i as int));
    }
    assert(out@ =~= s@);
    out
}

/// Appends a character, with `String::push`, which the standard library documents as
/// appending the character to the end of the string.
#[verifier::external_body]
pub(crate) fn push_char(s: &mut String, c: char)
    ensures
        final(s)@ == old(s)@.push(c),
{
    s.push(c);
}

/// Appends the decimal form of `n`.
pub fn push_decimal(s: &mut String, n: usize)
    ensures
        final(s)@ == old(s)@ + decimal_chars(n as nat),
    decreases n,
{
    if n >= 10 {
        push_decimal(s, n / 10);
    }
    push_char(s, digit_char((n % 10) as u8));
    assert(final(s)@ =~= old(s)@ + decimal_chars(n as nat));
}

/// Appends the last `width` hexadecimal digits of `n`, lowercase.
pub fn push_hex(s: &mut String, n: usize, width: usize)
    ensures
        final(s)@ == old(s)@ + hex_chars(n as nat, width as nat),
    decreases width,
{
    if width == 0 {
        assert(final(s)@ =~= old(s)@ + hex_chars(n as nat, width as nat));
        return;
    }
    push_hex(s, n / 16, width - 1);
    push_char(s, digit_char((n % 16) as u8));
    assert(final(s)@ =~= old(s)@ + hex_chars(n as nat, width as nat));
}

/// The lowercase form of a string, as `str::to_lowercase` computes it from the Unicode tables.
pub uninterp spec fn spec_to_lowercase(s: Seq<char>) -> Seq<char>;

/// Calls `str::to_lowercase`, whose result depends on the string alone.
#[verifier::external_body]
pub(crate) fn to_lowercase(s: &str) -> (r: String)
    ensures
        r@ == spec_to_lowercase(s@),
{
    s.to_lowercase()
}

/// `needle` occurs as a contiguous part of `haystack`.
pub open spec fn contains_subseq(haystack: Seq<char>, needle: Seq<char>) -> bool {
    exists|i: int|
        0 <= i && i + needle.len() <= haystack.len() && #[trigger] haystack.subrange(
            i,
            i + needle.len(),
        ) == needle
}

/// Whether the characters of `needle` occur, in order and next to each other, in `haystack`.
pub fn str_contains(haystack: &str, needle: &str) -> (r: bool)
    ensures
        r == contains_subseq(haystack@, needle@),
{
    let h = chars_of(haystack);
    let n = chars_of(needle);
    if n.len() > h.len() {
        return false;
    }
    let m = n.len();
    let mut i: usize = 0;
    while i <= h.len() - m
        invariant
            h@ == haystack@,
            n@ == needle@,
            m == n@.len(),
            m <= h@.len(),
            i <= h@.len() - m + 1,
            forall|k: int| 0 <= k < i ==> #[trigger] h@.subrange(k, k + m) != n@,
        decreases h@.len() - m + 1 - i,
    {
        let mut j: usize = 0;
        let mut eq = true;
        while j < m
            invariant
                h@ == haystack@,
                n@ == needle@,
                m == n@.len(),
                i + m <= h.len(),
                j <= m,
                eq == (forall|t: int| 0 <= t < j ==> h@[i + t] == n@[t]),
            decreases m - j,
        {
            if h[i + j] != n[j] {
                eq = false;
            }
            j = j + 1;
        }
        if eq {
            assert(h@.subrange(i as int, i + m) =~= n@);
            return true;
        }
        proof {
            let t = choose|t: int| 0 <= t < m && h@[i + t] != n@[t];
            assert(h@.subrange(i as int, i + m)[t] == h@[i + t]);
        }
        i = i + 1;
    }
    proof {
        assert forall|k: int|
            0 <= k && k + needle@.len() <= haystack@.len() implies #[trigger] haystack@.subrange(
            k,
            k + needle@.len(),
        ) != needle@ by {
            assert(k < i);
        }
    }
    false
}

/// How `char::escape_debug` writes a character: the character itself where it is printable,
/// else a backslash escape.
pub uninterp spec fn spec_escape_debug_char(c: char) -> Seq<char>;

/// Calls `char::escape_debug` and collects what it yields; the result depends on the character
/// alone, through the standard library's Unicode tables. Nothing more is stated: the library
/// calls it for characters beyond ASCII only, and writes ASCII escapes itself.
#[verifier::external_body]
pub(crate) fn escape_debug_char(c: char) -> (r: String)
    ensures
        r@ == spec_escape_debug_char(c),
{
    c.escape_debug().to_string()
}

/// How the `Debug` form of a string writes the character `c`: backslash escapes for NUL, tab,
/// carriage return, line feed, the double quote and the backslash, `\u{..}` for the other ASCII
/// control characters, other ASCII characters as they are, and the rest as `char::escape_debug`
/// writes them.
pub open spec fn debug_char_text(c: char) -> Seq<char> {
    if c == '\0' {
        "\\0"@
    } else if c == '\t' {
        "\\t"@
    } else if c == '\r' {
        "\\r"@
    } else if c == '\n' {
        "\\n"@
    } else if c == '"' {
        "\\\""@
    } else if c == '\\' {
        "\\\\"@
    } else if (c as u32) < 0x20 || (c as u32) == 0x7f {
        "\\u{"@ + padded_hex(c as nat, 1) + "}"@
    } else if (c as u32) < 0x80 {
        seq![c]
    } else {
        spec_escape_debug_char(c)
    }
}

/// The characters of `s`, each as the `Debug` form of a string writes it.
pub open spec fn debug_escaped(s: Seq<char>) -> Seq<char>
    decreases s.len(),
{
    if s.len() == 0 {
        Seq::empty()
    } else {
        debug_escaped(s.drop_last()) + debug_char_text(s.last())
    }
}

/// The `Debug` form of a string: its characters escaped, between double quotes.
pub open spec fn debug_str(s: Seq<char>) -> Seq<char> {
    "\""@ + debug_escaped(s) + "\""@
}

/// Appends one character as the `Debug` form of a string writes it.
fn push_debug_char(s: &mut String, c: char)
    ensures
        final(s)@ == old(s)@ + debug_char_text(c),
{
    let code = c as u32;
    if c == '\0' {
        s.append("\\0");
    } else if c == '\t' {
        s.append("\\t");
    } else if c == '\r' {
        s.append("\\r");
    } else if c == '\n' {
        s.append("\\n");
    } else if c == '"' {
        s.append("\\\"");
    } else if c == '\\' {
        s.append("\\\\");
    } else if code < 0x20 || code == 0x7f {
        s.append("\\u{");
        push_padded_hex(s, code as usize, 1);
        s.append("}");
    } else if code < 0x80 {
        push_char(s, c);
    } else {
        let e = escape_debug_char(c);
        s.append(e.as_str());
    }
    assert(final(s)@ =~= old(s)@ + debug_char_text(c));
}

/// Appends the `Debug` form of `t`.
pub fn push_debug_str(s: &mut String, t: &str)
    ensures
        final(s)@ == old(s)@ + debug_str(t@),
{
    let chars = chars_of(t);
    push_char(s, '"');
    proof {
        reveal_strlit("\"");
        assert(debug_escaped(t@.take(0)) =~= Seq::<char>::empty());
        assert(s@ =~= old(s)@ + "\""@ + debug_escaped(t@.take(0)));
    }
    let mut i: usize = 0;
    while i < chars.len()
        invariant
            i <= chars@.len(),
            chars@ == t@,
            s@ == old(s)@ + "\""@ + debug_escaped(t@.take(i as int)),
        decreases chars@.len() - i,
    {
        proof {
            assert(t@.take(i as int + 1).drop_last() =~= t@.take(i as int));
        }
        push_debug_char(s, chars[i]);
        i = i + 1;
        assert(s@ =~= old(s)@ + "\""@ + debug_escaped(t@.take(i as int)));
    }
    assert(t@.take(t@.len() as int) =~= t@);
    push_char(s, '"');
    proof {
        reveal_strlit("\"");
    }
    assert(final(s)@ =~= old(s)@ + debug_str(t@));
}

} // verus!
