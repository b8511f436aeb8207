//! Character-level text handling shared by the commands.

use vstd::prelude::*;

verus! {

/// Appends one character to a string (`String::push`).
#[verifier::external_body]
pub(crate) fn push_char(s: &mut String, c: char)
    ensures
        final(s)@ == old(s)@.push(c),
{
    s.push(c);
}

/// The characters of a string slice, in order.
pub fn to_chars(s: &str) -> (r: Vec<char>)
    ensures
        r@ == s@,
{
    let mut r: Vec<char> = Vec::new();
    for c in it: s.chars()
        invariant
            it.seq() == s@,
            r@ == it.seq().take(it.index() as int),
    {
        r.push(c);
    }
    r
}

/// Builds a string from characters.
pub fn from_chars(v: &Vec<char>) -> (r: String)
    ensures
        r@ == v@,
{
    let mut r = String::new();
    for i in 0..v.len()
        invariant
            r@ == v@.take(i as int),
    {
        push_char(&mut r, v[i]);
        assert(v@.take(i + 1) == v@.take(i as int).push(v@[i as int]));
    }
    assert(v@.take(v.len() as int) == v@);
    r
}

} // verus!

verus! {

/// The digit character of a value below ten.
pub open spec fn digit_char(d: nat) -> char {
    if d == 0 { '0' } else if d == 1 { '1' } else if d == 2 { '2' } else if d == 3 { '3' }
    else if d == 4 { '4' } else if d == 5 { '5' } else if d == 6 { '6' } else if d == 7 { '7' }
    else if d == 8 { '8' } else { '9' }
}

/// The lower-case hexadecimal digit character of a value below sixteen.
pub open spec fn hex_char(d: nat) -> char {
    if d < 10 { digit_char(d) } else if d == 10 { 'a' } else if d == 11 { 'b' }
    else if d == 12 { 'c' } else if d == 13 { 'd' } else if d == 14 { 'e' } else { 'f' }
}

/// Decimal notation of a natural number, without leading zeros.
pub open spec fn decimal(n: nat) -> Seq<char>
    decreases n,
{
    if n < 10 { seq![digit_char(n)] } else { decimal(n / 10).push(digit_char(n % 10)) }
}

/// Decimal notation of an integer, with a leading `-` when it is negative.
pub open spec fn signed_decimal(i: int) -> Seq<char> {
    if i < 0 { seq!['-'] + decimal((-i) as nat) } else { decimal(i as nat) }
}

/// Lower-case hexadecimal notation of a natural number, without leading zeros.
pub open spec fn lower_hex(n: nat) -> Seq<char>
    decreases n,
{
    if n < 16 { seq![hex_char(n)] } else { lower_hex(n / 16).push(hex_char(n % 16)) }
}

/// The last `width` decimal digits of `n`, with leading zeros.
pub open spec fn fixed_digits(n: nat, width: nat) -> Seq<char>
    decreases width,
{
    if width == 0 { seq![] } else { fixed_digits(n / 10, (width - 1) as nat).push(digit_char(n % 10)) }
}

fn digit_of(d: u64) -> (c: char)
    requires
        d < 10,
    ensures
        c == digit_char(d as nat),
{
    if d == 0 { '0' } else if d == 1 { '1' } else if d == 2 { '2' } else if d == 3 { '3' }
    else if d == 4 { '4' } else if d == 5 { '5' } else if d == 6 { '6' } else if d == 7 { '7' }
    else if d == 8 { '8' } else { '9' }
}

fn hex_digit_of(d: u64) -> (c: char)
    requires
        d < 16,
    ensures
        c == hex_char(d as nat),
{
    if d < 10 { digit_of(d) } else if d == 10 { 'a' } else if d == 11 { 'b' }
    else if d == 12 { 'c' } else if d == 13 { 'd' } else if d == 14 { 'e' } else { 'f' }
}

fn reversed(v: &Vec<char>) -> (r: Vec<char>)
    ensures
        r@ == v@.reverse(),
{
    let mut r: Vec<char> = Vec::new();
    let mut i = v.len();
    while i > 0
        invariant
            i <= v.len(),
            r@ == v@.subrange(i as int, v.len() as int).reverse(),
        decreases i,
    {
        i = i - 1;
        r.push(v[i]);
        assert(v@.subrange(i as int, v.len() as int) =~= seq![v@[i as int]] + v@.subrange(i + 1, v.len() as int));
        assert(r@ =~= v@.subrange(i as int, v.len() as int).reverse());
    }
    assert(v@.subrange(0, v.len() as int) == v@);
    r
}

proof fn lemma_decimal_step(n: nat)
    requires
        n >= 10,
    ensures
        decimal(n) == decimal(n / 10).push(digit_char(n % 10)),
{
}

/// Decimal digits of `n` as characters.
pub fn decimal_chars(n: u64) -> (r: Vec<char>)
    ensures
        r@ == decimal(n as nat),
{
    // Collect digits least significant first, then reverse.
    let mut rev: Vec<char> = Vec::new();
    let mut m = n;
    loop
        invariant_except_break
            decimal(n as nat) == decimal(m as nat) + rev@.reverse(),
        ensures
            decimal(n as nat) == rev@.reverse(),
        decreases m,
    {
        let c = digit_of(m % 10);
        proof {
            if m >= 10 {
                lemma_decimal_step(m as nat);
            }
            assert(rev@.push(c).reverse() =~= seq![c] + rev@.reverse());
        }
        rev.push(c);
        if m < 10 {
            break;
        }
        m = m / 10;
    }
    reversed(&rev)
}

proof fn lemma_hex_step(n: nat)
    requires
        n >= 16,
    ensures
        lower_hex(n) == lower_hex(n / 16).push(hex_char(n % 16)),
{
}

/// Lower-case hexadecimal digits of `n` as characters.
pub fn lower_hex_chars(n: u64) -> (r: Vec<char>)
    ensures
        r@ == lower_hex(n as nat),
{
    let mut rev: Vec<char> = Vec::new();
    let mut m = n;
    loop
        invariant_except_break
            lower_hex(n as nat) == lower_hex(m as nat) + rev@.reverse(),
        ensures
            lower_hex(n as nat) == rev@.reverse(),
        decreases m,
    {
        let c = hex_digit_of(m % 16);
        proof {
            if m >= 16 {
                lemma_hex_step(m as nat);
            }
            assert(rev@.push(c).reverse() =~= seq![c] + rev@.reverse());
        }
        rev.push(c);
        if m < 16 {
            break;
        }
        m = m / 16;
    }
    reversed(&rev)
}

/// The last `width` decimal digits of `n`, zero-padded.
pub fn fixed_digit_chars(n: u64, width: usize) -> (r: Vec<char>)
    ensures
        r@ == fixed_digits(n as nat, width as nat),
{
    let mut rev: Vec<char> = Vec::new();
    let mut m = n;
    let mut k: usize = 0;
    while k < width
        invariant
            k <= width,
            fixed_digits(n as nat, width as nat) == fixed_digits(m as nat, (width - k) as nat)
                + rev@.reverse(),
        decreases width - k,
    {
        let c = digit_of(m % 10);
        assert(rev@.push(c).reverse() =~= seq![c] + rev@.reverse());
        rev.push(c);
        m = m / 10;
        k = k + 1;
    }
    reversed(&rev)
}

/// Appends the characters of `v` to `s`.
pub fn push_chars(s: &mut String, v: &Vec<char>)
    ensures
        final(s)@ == old(s)@ + v@,
{
    for i in 0..v.len()
        invariant
            s@ == old(s)@ + v@.take(i as int),
    {
        push_char(s, v[i]);
        assert(v@.take(i + 1) == v@.take(i as int).push(v@[i as int]));
    }
    assert(v@.take(v.len() as int) == v@);
}

/// Decimal notation of an unsigned number.
pub fn u64_to_string(n: u64) -> (r: String)
    ensures
        r@ == decimal(n as nat),
{
    from_chars(&decimal_chars(n))
}

/// Decimal notation of a signed number.
pub fn i64_to_string(i: i64) -> (r: String)
    ensures
        r@ == signed_decimal(i as int),
{
    let mut r = String::new();
    if i < 0 {
        push_char(&mut r, '-');
        let a: u64 = (0i128 - i as i128) as u64;
        push_chars(&mut r, &decimal_chars(a));
    } else {
        push_chars(&mut r, &decimal_chars(i as u64));
    }
    r
}

/// An integer divided by `unit`, written with `width` digits after the
/// point: a `-` for a negative value, the whole part, the point and the
/// remainder zero-padded.
pub open spec fn decimal_point(i: int, unit: nat, width: nat) -> Seq<char> {
    let a: nat = if i < 0 { (-i) as nat } else { i as nat };
    (if i < 0 { "-"@ } else { ""@ }) + decimal(a / unit) + "."@ + fixed_digits(a % unit, width)
}

/// Writes `i / unit` with `width` digits after the point.
pub fn decimal_point_text(i: i64, unit: u64, width: usize) -> (r: String)
    requires
        unit > 0,
    ensures
        r@ == decimal_point(i as int, unit as nat, width as nat),
{
    let mut r = String::new();
    let a: u64 = if i < 0 { (0i128 - i as i128) as u64 } else { i as u64 };
    if i < 0 {
        r.append("-");
    }
    push_chars(&mut r, &decimal_chars(a / unit));
    r.append(".");
    push_chars(&mut r, &fixed_digit_chars(a % unit, width));
    proof {
        reveal_strlit("-");
        reveal_strlit("");
        reveal_strlit(".");
    }
    r
}

/// Integer division rounded toward zero, as Rust's `/` on signed numbers.
pub open spec fn div_toward_zero(a: int, d: nat) -> int {
    if a >= 0 { a / (d as int) } else { -((-a) / (d as int)) }
}

/// `a / d` on signed numbers, rounded toward zero.
pub fn i64_div_toward_zero(a: i64, d: u64) -> (r: i64)
    requires
        d > 0,
    ensures
        r == div_toward_zero(a as int, d as nat),
{
    if a >= 0 {
        ((a as u64) / d) as i64
    } else {
        let m: u64 = (0i128 - a as i128) as u64;
        let q = m / d;
        (0i128 - q as i128) as i64
    }
}

/// What `str::to_lowercase` returns for a string: its Unicode lower-case mapping.
pub uninterp spec fn unicode_lowercase(s: Seq<char>) -> Seq<char>;

/// What `str::to_uppercase` returns for a string: its Unicode upper-case mapping.
pub uninterp spec fn unicode_uppercase(s: Seq<char>) -> Seq<char>;

/// What `char::is_alphabetic` returns: whether the character has the Unicode
/// `Alphabetic` property.
pub uninterp spec fn unicode_alphabetic(c: char) -> bool;

/// What `char::is_whitespace` returns: whether the character has the Unicode
/// `White_Space` property.
pub uninterp spec fn unicode_white_space(c: char) -> bool;

/// `str::to_lowercase`. Its result is the named lower-case mapping of the
/// argument; on ASCII text that mapping turns `A`-`Z` into `a`-`z` and keeps
/// every other character. Beyond ASCII nothing of it is stated here.
#[verifier::external_body]
pub(crate) fn lowercase(s: &str) -> (r: String)
    ensures
        r@ == unicode_lowercase(s@),
        is_ascii_text(s@) ==> r@ == ascii_lower(s@),
{
    s.to_lowercase()
}

/// `str::to_uppercase`. Its result is the named upper-case mapping of the
/// argument; on ASCII text that mapping turns `a`-`z` into `A`-`Z` and keeps
/// every other character. Beyond ASCII nothing of it is stated here.
#[verifier::external_body]
pub(crate) fn uppercase(s: &str) -> (r: String)
    ensures
        r@ == unicode_uppercase(s@),
        is_ascii_text(s@) ==> r@ == ascii_upper(s@),
{
    s.to_uppercase()
}

/// `char::is_alphabetic`. On ASCII characters the `Alphabetic` property holds
/// exactly of the letters `A`-`Z` and `a`-`z`.
#[verifier::external_body]
pub(crate) fn is_alphabetic(c: char) -> (b: bool)
    ensures
        b == unicode_alphabetic(c),
        (c as u32) < 128 ==> (b <==> is_ascii_letter(c)),
{
    c.is_alphabetic()
}

/// `char::is_whitespace`. On ASCII characters the `White_Space` property holds
/// exactly of tab, line feed, vertical tab, form feed, carriage return and space.
#[verifier::external_body]
pub(crate) fn is_whitespace(c: char) -> (b: bool)
    ensures
        b == unicode_white_space(c),
        (c as u32) < 128 ==> (b <==> is_ascii_white_space(c)),
{
    c.is_whitespace()
}

/// Text made of ASCII characters only.
pub open spec fn is_ascii_text(s: Seq<char>) -> bool {
    forall|i: int| 0 <= i < s.len() ==> (#[trigger] s[i] as u32) < 128
}

/// The lower-case letter of an ASCII capital; any other character unchanged.
pub open spec fn ascii_lower_char(c: char) -> char {
    if 'A' <= c && c <= 'Z' { ((c as u32) + 32) as char } else { c }
}

/// The capital of an ASCII lower-case letter; any other character unchanged.
pub open spec fn ascii_upper_char(c: char) -> char {
    if 'a' <= c && c <= 'z' { ((c as u32) - 32) as char } else { c }
}

/// ASCII lower-casing, character by character.
pub open spec fn ascii_lower(s: Seq<char>) -> Seq<char> {
    s.map_values(|c: char| ascii_lower_char(c))
}

/// ASCII upper-casing, character by character.
pub open spec fn ascii_upper(s: Seq<char>) -> Seq<char> {
    s.map_values(|c: char| ascii_upper_char(c))
}

/// An ASCII letter.
pub open spec fn is_ascii_letter(c: char) -> bool {
    ('a' <= c && c <= 'z') || ('A' <= c && c <= 'Z')
}

/// An ASCII character with the Unicode `White_Space` property.
pub open spec fn is_ascii_white_space(c: char) -> bool {
    c == ' ' || ('\t' <= c && c <= '\r')
}

/// An ASCII decimal digit.
pub open spec fn is_ascii_digit(c: char) -> bool {
    '0' <= c && c <= '9'
}

/// Value of an ASCII decimal digit.
pub open spec fn digit_value(c: char) -> nat {
    ((c as int) - ('0' as int)) as nat
}

/// Every character is an ASCII decimal digit.
pub open spec fn all_ascii_digits(s: Seq<char>) -> bool {
    forall|i: int| 0 <= i < s.len() ==> #[trigger] is_ascii_digit(s[i])
}

/// The number that a string of decimal digits denotes.
pub open spec fn digits_value(s: Seq<char>) -> nat
    decreases s.len(),
{
    if s.len() == 0 { 0 } else { digits_value(s.drop_last()) * 10 + digit_value(s.last()) }
}

/// Decimal notation is read back as the number it writes: its digits are
/// ASCII digits, and their value is the number.
pub proof fn decimal_reads_back(n: nat)
    ensures
        decimal(n).len() > 0,
        all_ascii_digits(decimal(n)),
        digits_value(decimal(n)) == n,
    decreases n,
{
    let d = digit_char(n % 10);
    assert(is_ascii_digit(d) && digit_value(d) == n % 10);
    if n >= 10 {
        decimal_reads_back(n / 10);
        let p = decimal(n / 10);
        assert(decimal(n) == p.push(d));
        assert(decimal(n).drop_last() =~= p);
        assert(decimal(n).last() == d);
        assert(digits_value(decimal(n)) == digits_value(p) * 10 + digit_value(d));
        assert(n == (n / 10) * 10 + n % 10);
        assert forall|i: int| 0 <= i < decimal(n).len() implies #[trigger] is_ascii_digit(decimal(n)[i]) by {
            if i < p.len() {
                assert(decimal(n)[i] == p[i]);
            }
        }
    } else {
        assert(decimal(n).drop_last() =~= Seq::<char>::empty());
        assert(decimal(n).last() == d);
        assert(digits_value(decimal(n)) == digits_value(Seq::<char>::empty()) * 10 + digit_value(d));
    }
}

/// What `str::parse::<u64>` accepts: an optional `+`, then one or more ASCII
/// digits whose value fits in 64 bits.
pub open spec fn parse_u64_spec(s: Seq<char>) -> Option<u64> {
    let d = if s.len() > 0 && s[0] == '+' { s.drop_first() } else { s };
    if d.len() > 0 && all_ascii_digits(d) && digits_value(d) <= u64::MAX {
        Some(digits_value(d) as u64)
    } else {
        None
    }
}

proof fn lemma_digits_value_monotone(s: Seq<char>, j: int, k: int)
    requires
        0 <= j <= k <= s.len(),
        all_ascii_digits(s),
    ensures
        digits_value(s.take(j)) <= digits_value(s.take(k)),
    decreases k - j,
{
    if j < k {
        lemma_digits_value_monotone(s, j, k - 1);
        assert(s.take(k).drop_last() == s.take(k - 1));
        assert(is_ascii_digit(s[k - 1]));
    }
}

/// Parses a decimal number the way `str::parse::<u64>` does.
pub fn parse_u64_chars(s: &Vec<char>) -> (r: Option<u64>)
    ensures
        r == parse_u64_spec(s@),
{
    let start: usize = if s.len() > 0 && s[0] == '+' { 1 } else { 0 };
    let ghost d = if s@.len() > 0 && s@[0] == '+' { s@.drop_first() } else { s@ };
    assert(d == s@.skip(start as int));
    assert(parse_u64_spec(s@) == (if d.len() > 0 && all_ascii_digits(d) && digits_value(d) <= u64::MAX {
        Some(digits_value(d) as u64)
    } else {
        None
    }));
    if start >= s.len() {
        return None;
    }
    let mut acc: u64 = 0;
    let mut i = start;
    while i < s.len()
        invariant
            start <= i <= s.len(),
            d == s@.skip(start as int),
            parse_u64_spec(s@) == (if d.len() > 0 && all_ascii_digits(d) && digits_value(d) <= u64::MAX {
                Some(digits_value(d) as u64)
            } else {
                None
            }),
            all_ascii_digits(d.take(i - start)),
            acc as nat == digits_value(d.take(i - start)),
        decreases s.len() - i,
    {
        let c = s[i];
        assert(d[i - start] == c);
        if !(c >= '0' && c <= '9') {
            assert(!is_ascii_digit(d[i - start]));
            assert(!all_ascii_digits(d));
            return None;
        }
        let v = (c as u32 - '0' as u32) as u64;
        assert(d.take(i + 1 - start).drop_last() == d.take(i - start));
        assert(d.take(i + 1 - start).last() == c);
        assert(v as nat == digit_value(c));
        assert forall|j: int| 0 <= j < i + 1 - start implies #[trigger] is_ascii_digit(d.take(i + 1 - start)[j]) by {
            if j < i - start {
                assert(d.take(i + 1 - start)[j] == d.take(i - start)[j]);
            }
        }
        match acc.checked_mul(10) {
            None => {
                proof {
                    if all_ascii_digits(d) {
                        lemma_digits_value_monotone(d, i + 1 - start, d.len() as int);
                        assert(d.take(d.len() as int) == d);
                    }
                }
                return None;
            },
            Some(t) => match t.checked_add(v) {
                None => {
                    proof {
                        if all_ascii_digits(d) {
                            lemma_digits_value_monotone(d, i + 1 - start, d.len() as int);
                            assert(d.take(d.len() as int) == d);
                        }
                    }
                    return None;
                },
                Some(u) => {
                    acc = u;
                },
            },
        }
        i = i + 1;
    }
    assert(d.take(s.len() - start) == d);
    assert(d.len() > 0);
    Some(acc)
}

/// Leading characters with the `White_Space` property removed.
pub open spec fn trim_start(s: Seq<char>) -> Seq<char>
    decreases s.len(),
{
    if s.len() > 0 && unicode_white_space(s[0]) { trim_start(s.drop_first()) } else { s }
}

/// Trailing characters with the `White_Space` property removed.
pub open spec fn trim_end(s: Seq<char>) -> Seq<char>
    decreases s.len(),
{
    if s.len() > 0 && unicode_white_space(s.last()) { trim_end(s.drop_last()) } else { s }
}

/// What `str::trim` returns: leading and trailing white space removed.
pub open spec fn trim(s: Seq<char>) -> Seq<char> {
    trim_end(trim_start(s))
}

/// The characters of `v` from `i` up to `j`.
pub fn sub_chars(v: &Vec<char>, i: usize, j: usize) -> (r: Vec<char>)
    requires
        i <= j <= v.len(),
    ensures
        r@ == v@.subrange(i as int, j as int),
{
    let mut r: Vec<char> = Vec::new();
    let mut k = i;
    while k < j
        invariant
            i <= k <= j <= v.len(),
            r@ == v@.subrange(i as int, k as int),
        decreases j - k,
    {
        r.push(v[k]);
        assert(v@.subrange(i as int, k + 1) == v@.subrange(i as int, k as int).push(v@[k as int]));
        k = k + 1;
    }
    r
}

proof fn lemma_trim_end_take(s: Seq<char>, j: int)
    requires
        0 <= j <= s.len(),
        forall|k: int| j <= k < s.len() ==> unicode_white_space(#[trigger] s[k]),
    ensures
        trim_end(s) == trim_end(s.take(j)),
    decreases s.len() - j,
{
    if j < s.len() {
        assert(s.drop_last() == s.take(s.len() - 1));
        assert(s.take(s.len() - 1).take(j) == s.take(j));
        lemma_trim_end_take(s.take(s.len() - 1), j);
    } else {
        assert(s.take(j) == s);
    }
}

/// Removes leading and trailing white space, as `str::trim` does.
pub fn trim_chars(v: &Vec<char>) -> (r: Vec<char>)
    ensures
        r@ == trim(v@),
{
    let n = v.len();
    let mut i: usize = 0;
    assert(v@.skip(0) == v@);
    while i < n && is_whitespace(v[i])
        invariant
            i <= n == v.len(),
            trim_start(v@) == trim_start(v@.skip(i as int)),
        decreases n - i,
    {
        assert(v@.skip(i as int).drop_first() == v@.skip(i + 1));
        i = i + 1;
    }
    assert(trim_start(v@.skip(i as int)) == v@.skip(i as int));
    let mut j: usize = n;
    while j > i && is_whitespace(v[j - 1])
        invariant
            i <= j <= n == v.len(),
            forall|k: int| j - i <= k < n - i ==> unicode_white_space(#[trigger] v@.skip(i as int)[k]),
        decreases j,
    {
        j = j - 1;
    }
    proof {
        lemma_trim_end_take(v@.skip(i as int), j - i);
        assert(v@.skip(i as int).take(j - i) == v@.subrange(i as int, j as int));
    }
    sub_chars(v, i, j)
}

/// `n` occurs in `h` starting at position `i`.
pub open spec fn occurs_at(h: Seq<char>, n: Seq<char>, i: int) -> bool {
    0 <= i && i + n.len() <= h.len() && h.subrange(i, i + n.len()) == n
}

/// `n` occurs somewhere in `h` (`str::contains`).
pub open spec fn has_infix(h: Seq<char>, n: Seq<char>) -> bool {
    exists|i: int| #[trigger] occurs_at(h, n, i)
}

/// `h` begins with `n` (`str::starts_with`).
pub open spec fn has_prefix(h: Seq<char>, n: Seq<char>) -> bool {
    occurs_at(h, n, 0)
}

/// Whether `n` occurs in `h` at position `i`.
pub fn matches_at(h: &Vec<char>, n: &Vec<char>, i: usize) -> (b: bool)
    ensures
        b == occurs_at(h@, n@, i as int),
{
    if i > h.len() || n.len() > h.len() - i {
        return false;
    }
    let mut k: usize = 0;
    while k < n.len()
        invariant
            i + n.len() <= h.len(),
            k <= n.len(),
            forall|m: int| 0 <= m < k ==> h@[i + m] == n@[m],
        decreases n.len() - k,
    {
        if h[i + k] != n[k] {
            assert(h@.subrange(i as int, i + n.len())[k as int] != n@[k as int]);
            return false;
        }
        k = k + 1;
    }
    assert(h@.subrange(i as int, i + n.len()) =~= n@);
    true
}

/// Whether `n` occurs somewhere in `h`.
pub fn contains_chars(h: &Vec<char>, n: &Vec<char>) -> (b: bool)
    ensures
        b == has_infix(h@, n@),
{
    if n.len() > h.len() {
        assert forall|i: int| !occurs_at(h@, n@, i) by {}
        return false;
    }
    let last = h.len() - n.len();
    let mut i: usize = 0;
    loop
        invariant
            last == h.len() - n.len(),
            i <= last,
            forall|k: int| 0 <= k < i ==> !occurs_at(h@, n@, k),
        ensures
            forall|k: int| 0 <= k <= last ==> !occurs_at(h@, n@, k),
        decreases last - i,
    {
        if matches_at(h, n, i) {
            return true;
        }
        if i == last {
            break;
        }
        i = i + 1;
    }
    assert forall|k: int| !occurs_at(h@, n@, k) by {}
    false
}

/// Whether `s` contains the string `n`.
pub fn str_contains(s: &str, n: &str) -> (b: bool)
    ensures
        b == has_infix(s@, n@),
{
    contains_chars(&to_chars(s), &to_chars(n))
}

/// Whether `s` begins with `n`.
pub fn str_starts_with(s: &str, n: &str) -> (b: bool)
    ensures
        b == has_prefix(s@, n@),
{
    matches_at(&to_chars(s), &to_chars(n), 0)
}

/// Whether two character sequences are equal.
pub fn eq_chars(a: &Vec<char>, b: &Vec<char>) -> (r: bool)
    ensures
        r == (a@ == b@),
{
    if a.len() != b.len() {
        return false;
    }
    let r = matches_at(a, b, 0);
    assert(a@.subrange(0, a@.len() as int) == a@);
    r
}

/// Whether a string equals another.
pub fn str_eq(a: &str, b: &str) -> (r: bool)
    ensures
        r == (a@ == b@),
{
    eq_chars(&to_chars(a), &to_chars(b))
}

/// What `str::split` with a character separator yields.
pub open spec fn split_on(s: Seq<char>, sep: char) -> Seq<Seq<char>>
    decreases s.len(),
{
    if s.len() == 0 {
        seq![seq![]]
    } else {
        let prev = split_on(s.drop_last(), sep);
        if s.last() == sep {
            prev.push(seq![])
        } else {
            prev.update(prev.len() - 1, prev.last().push(s.last()))
        }
    }
}

pub proof fn lemma_split_on_nonempty(s: Seq<char>, sep: char)
    ensures
        split_on(s, sep).len() >= 1,
    decreases s.len(),
{
    if s.len() > 0 {
        lemma_split_on_nonempty(s.drop_last(), sep);
    }
}

/// The views of a vector of character vectors.
pub open spec fn views(v: Seq<Vec<char>>) -> Seq<Seq<char>> {
    v.map_values(|p: Vec<char>| p@)
}

/// Splits at every occurrence of `sep`, as `str::split` does.
pub fn split_chars(v: &Vec<char>, sep: char) -> (r: Vec<Vec<char>>)
    ensures
        views(r@) == split_on(v@, sep),
{
    let mut done: Vec<Vec<char>> = Vec::new();
    let mut cur: Vec<char> = Vec::new();
    for i in 0..v.len()
        invariant
            views(done@).push(cur@) == split_on(v@.take(i as int), sep),
    {
        let c = v[i];
        proof {
            assert(v@.take(i + 1).drop_last() == v@.take(i as int));
            assert(v@.take(i + 1).last() == c);
            lemma_split_on_nonempty(v@.take(i as int), sep);
        }
        if c == sep {
            let ghost dv = views(done@);
            let ghost cv = cur@;
            let piece = cur;
            done.push(piece);
            cur = Vec::new();
            assert(views(done@) =~= dv.push(cv));
            assert(views(done@).push(cur@) =~= split_on(v@.take(i + 1), sep));
        } else {
            let ghost before = views(done@).push(cur@);
            cur.push(c);
            assert(views(done@).push(cur@) =~= before.update(before.len() - 1, before.last().push(c)));
        }
    }
    assert(v@.take(v.len() as int) == v@);
    let ghost dv = views(done@);
    let ghost cv = cur@;
    done.push(cur);
    assert(views(done@) =~= dv.push(cv));
    done
}

/// What `str::replace` returns for a non-empty pattern: every
/// non-overlapping occurrence, scanning from the left, replaced.
pub open spec fn replace_all(s: Seq<char>, from: Seq<char>, to: Seq<char>) -> Seq<char>
    recommends
        from.len() > 0,
    decreases s.len(),
{
    if from.len() == 0 || s.len() < from.len() {
        s
    } else if s.take(from.len() as int) == from {
        to + replace_all(s.skip(from.len() as int), from, to)
    } else {
        seq![s[0]] + replace_all(s.drop_first(), from, to)
    }
}

/// Replaces every occurrence of `from` in `s` by `to`.
pub fn replace_chars(s: &Vec<char>, from: &Vec<char>, to: &Vec<char>) -> (r: Vec<char>)
    requires
        from.len() > 0,
    ensures
        r@ == replace_all(s@, from@, to@),
{
    let mut out: Vec<char> = Vec::new();
    let mut i: usize = 0;
    assert(s@.skip(0) == s@);
    assert(out@ + replace_all(s@, from@, to@) =~= replace_all(s@, from@, to@));
    while i < s.len()
        invariant
            i <= s.len(),
            from.len() > 0,
            out@ + replace_all(s@.skip(i as int), from@, to@) == replace_all(s@, from@, to@),
        decreases s.len() - i,
    {
        let ghost rest = s@.skip(i as int);
        if matches_at(s, from, i) {
            assert(rest.take(from@.len() as int) == from@);
            assert(rest.skip(from@.len() as int) == s@.skip(i + from.len()));
            let ghost before = out@;
            for k in 0..to.len()
                invariant
                    out@ == before + to@.take(k as int),
            {
                out.push(to[k]);
                assert(to@.take(k + 1) == to@.take(k as int).push(to@[k as int]));
            }
            assert(to@.take(to.len() as int) == to@);
            assert(out@ + replace_all(s@.skip(i + from.len()), from@, to@)
                =~= before + replace_all(rest, from@, to@));
            i = i + from.len();
        } else {
            proof {
                if rest.len() >= from@.len() {
                    assert(rest.take(from@.len() as int) == s@.subrange(i as int, i + from@.len()));
                }
                assert(rest.drop_first() == s@.skip(i + 1));
            }
            let ghost before = out@;
            out.push(s[i]);
            assert(out@ + replace_all(s@.skip(i + 1), from@, to@)
                =~= before + replace_all(rest, from@, to@));
            i = i + 1;
        }
    }
    assert(s@.skip(i as int).len() == 0);
    assert(out@ + replace_all(s@.skip(i as int), from@, to@) == out@ + seq![]);
    assert(out@ + seq![] =~= out@);
    out
}

/// `s` padded on the right with `fill` up to `width` characters.
pub open spec fn pad_right(s: Seq<char>, width: nat, fill: char) -> Seq<char> {
    if s.len() >= width { s } else { s + Seq::new((width - s.len()) as nat, |_i: int| fill) }
}

/// `s` padded on the left with `fill` up to `width` characters.
pub open spec fn pad_left(s: Seq<char>, width: nat, fill: char) -> Seq<char> {
    if s.len() >= width { s } else { Seq::new((width - s.len()) as nat, |_i: int| fill) + s }
}

/// `n` copies of `c`.
pub fn repeat_char(c: char, n: usize) -> (r: Vec<char>)
    ensures
        r@ == Seq::new(n as nat, |_i: int| c),
{
    let mut r: Vec<char> = Vec::new();
    for i in 0..n
        invariant
            r@ == Seq::new(i as nat, |_i: int| c),
    {
        r.push(c);
        assert(r@ =~= Seq::new((i + 1) as nat, |_i: int| c));
    }
    r
}

/// Pads `v` on the right up to `width` characters, as `format!("{:<width$}")` does.
pub fn pad_right_chars(v: &Vec<char>, width: usize, fill: char) -> (r: Vec<char>)
    ensures
        r@ == pad_right(v@, width as nat, fill),
{
    let mut r = v.clone();
    assert(r@ =~= v@);
    if v.len() < width {
        let tail = repeat_char(fill, width - v.len());
        for k in 0..tail.len()
            invariant
                r@ == v@ + tail@.take(k as int),
        {
            r.push(tail[k]);
            assert(tail@.take(k + 1) == tail@.take(k as int).push(tail@[k as int]));
        }
        assert(tail@.take(tail.len() as int) == tail@);
    }
    r
}

/// Pads `v` on the left up to `width` characters, as `format!("{:>width$}")` does.
pub fn pad_left_chars(v: &Vec<char>, width: usize, fill: char) -> (r: Vec<char>)
    ensures
        r@ == pad_left(v@, width as nat, fill),
{
    if v.len() >= width {
        let r = v.clone();
        assert(r@ =~= v@);
        return r;
    }
    let mut r = repeat_char(fill, width - v.len());
    let ghost head = r@;
    for k in 0..v.len()
        invariant
            r@ == head + v@.take(k as int),
    {
        r.push(v[k]);
        assert(v@.take(k + 1) == v@.take(k as int).push(v@[k as int]));
    }
    assert(v@.take(v.len() as int) == v@);
    r
}

/// The code of a character after ASCII lower-casing (`char::to_ascii_lowercase`).
pub open spec fn ascii_fold(c: char) -> u32 {
    if 'A' <= c && c <= 'Z' { (c as u32 + 32) as u32 } else { c as u32 }
}

/// Equality up to ASCII case (`str::eq_ignore_ascii_case`).
pub open spec fn eq_ignore_ascii_case(a: Seq<char>, b: Seq<char>) -> bool {
    a.len() == b.len() && forall|i: int| 0 <= i < a.len() ==> ascii_fold(#[trigger] a[i]) == ascii_fold(b[i])
}

fn fold_char(c: char) -> (r: u32)
    ensures
        r == ascii_fold(c),
{
    if c >= 'A' && c <= 'Z' { c as u32 + 32 } else { c as u32 }
}

/// Whether two character sequences are equal up to ASCII case.
pub fn eq_ignore_ascii_case_chars(a: &Vec<char>, b: &Vec<char>) -> (r: bool)
    ensures
        r == eq_ignore_ascii_case(a@, b@),
{
    if a.len() != b.len() {
        return false;
    }
    for i in 0..a.len()
        invariant
            a.len() == b.len(),
            forall|k: int| 0 <= k < i ==> ascii_fold(#[trigger] a@[k]) == ascii_fold(b@[k]),
    {
        if fold_char(a[i]) != fold_char(b[i]) {
            return false;
        }
    }
    true
}

} // verus!
