use vstd::prelude::*;

verus! {

// ---------------------------------------------------------------------------
// Decimal rendering of integers, as `{}` and `{:0w}` print them.
// ---------------------------------------------------------------------------

/// The ASCII digit for `d` (0..=9).
pub open spec fn digit_char(d: nat) -> char {
    if d == 0 { '0' }
    else if d == 1 { '1' }
    else if d == 2 { '2' }
    else if d == 3 { '3' }
    else if d == 4 { '4' }
    else if d == 5 { '5' }
    else if d == 6 { '6' }
    else if d == 7 { '7' }
    else if d == 8 { '8' }
    else { '9' }
}

/// The decimal digits of `n`, most significant first, without leading zeros.
pub open spec fn digits(n: nat) -> Seq<char>
    decreases n,
{
    if n < 10 {
        seq![digit_char(n)]
    } else {
        digits(n / 10).push(digit_char(n % 10))
    }
}

/// How `{}` prints the integer `n`.
pub open spec fn int_text(n: int) -> Seq<char> {
    if n < 0 {
        seq!['-'] + digits((-n) as nat)
    } else {
        digits(n as nat)
    }
}

/// `n` copies of `c`.
pub open spec fn repeat_char(c: char, n: nat) -> Seq<char> {
    Seq::new(n, |_i: int| c)
}

/// How `{:0w}` prints the integer `n`: the sign, then zeros up to width `w`,
/// then the digits.
pub open spec fn padded_int_text(n: int, w: nat) -> Seq<char> {
    let sign: Seq<char> = if n < 0 { seq!['-'] } else { Seq::empty() };
    let body = if n < 0 { digits((-n) as nat) } else { digits(n as nat) };
    let fill: nat = if sign.len() + body.len() < w { (w - sign.len() - body.len()) as nat } else { 0 };
    sign + repeat_char('0', fill) + body
}

/// Numbers below 10, 100, 1000 and 10000 have at most 1, 2, 3 and 4 digits.
pub proof fn lemma_digits_len(n: nat)
    ensures
        digits(n).len() >= 1,
        n < 10 ==> digits(n).len() == 1,
        10 <= n < 100 ==> digits(n).len() == 2,
        100 <= n < 1000 ==> digits(n).len() == 3,
        1000 <= n < 10000 ==> digits(n).len() == 4,
    decreases n,
{
    if n >= 10 {
        lemma_digits_len(n / 10);
    }
}

/// Calls `String::push`, which appends the character `c` to `s`.
#[verifier::external_body]
pub(crate) fn push_char(s: &mut String, c: char)
    ensures
        final(s)@ == old(s)@.push(c),
{
    s.push(c);
}

/// Appends `t` to `s`.
pub fn push_str(s: &mut String, t: &str)
    ensures
        final(s)@ == old(s)@ + t@,
{
    s.append(t);
}

fn digit_of(d: u64) -> (c: char)
    requires
        d < 10,
    ensures
        c == digit_char(d as nat),
{
    match d {
        0 => '0',
        1 => '1',
        2 => '2',
        3 => '3',
        4 => '4',
        5 => '5',
        6 => '6',
        7 => '7',
        8 => '8',
        _ => '9',
    }
}

/// Appends the decimal digits of `n`.
pub fn push_u64(s: &mut String, n: u64)
    ensures
        final(s)@ == old(s)@ + digits(n as nat),
    decreases n,
{
    let ghost start = s@;
    if n >= 10 {
        push_u64(s, n / 10);
    }
    let c = digit_of(n % 10);
    push_char(s, c);
    proof {
        if n >= 10 {
            assert(digits(n as nat) == digits((n / 10) as nat).push(digit_char((n % 10) as nat)));
            assert(s@ =~= start + digits(n as nat));
        } else {
            assert(s@ =~= start + digits(n as nat));
        }
    }
}

/// The magnitude of `n` as an unsigned number.
fn magnitude(n: i64) -> (m: u64)
    ensures
        m as int == if n < 0 { -n } else { n as int },
{
    if n < 0 {
        let k = -(n + 1);
        (k as u64) + 1
    } else {
        n as u64
    }
}

/// Appends `n` as `{}` prints it.
pub fn push_i64(s: &mut String, n: i64)
    ensures
        final(s)@ == old(s)@ + int_text(n as int),
{
    let ghost start = s@;
    let m = magnitude(n);
    if n < 0 {
        push_char(s, '-');
    }
    push_u64(s, m);
    assert(s@ =~= start + int_text(n as int));
}

/// Appends `c` `count` times.
pub fn push_repeat(s: &mut String, c: char, count: usize)
    ensures
        final(s)@ == old(s)@ + repeat_char(c, count as nat),
{
    let ghost start = s@;
    let mut i: usize = 0;
    while i < count
        invariant
            i <= count,
            s@ =~= start + repeat_char(c, i as nat),
        decreases count - i,
    {
        push_char(s, c);
        i = i + 1;
        assert(s@ =~= start + repeat_char(c, i as nat));
    }
}

/// The number of decimal digits of `n`.
fn digit_count(n: u64) -> (k: usize)
    ensures
        k as nat == digits(n as nat).len(),
        k <= 20,
    decreases n,
{
    proof {
        lemma_digits_len(n as nat);
        lemma_u64_digits(n as nat);
    }
    if n < 10 {
        1
    } else {
        let k = digit_count(n / 10);
        k + 1
    }
}

proof fn lemma_u64_digits(n: nat)
    requires
        n <= u64::MAX,
    ensures
        digits(n).len() <= 20,
{
    assert(pow10(20) == 100000000000000000000nat) by {
        reveal_with_fuel(pow10, 21);
    }
    lemma_digits_upper(n, 20);
}

proof fn lemma_digits_upper(n: nat, k: nat)
    requires
        n < pow10(k),
    ensures
        digits(n).len() <= if k == 0 { 1 } else { k },
    decreases n,
{
    if n >= 10 {
        assert(k >= 2) by {
            if k < 2 {
                reveal_with_fuel(pow10, 2);
            }
        }
        assert(n / 10 < pow10((k - 1) as nat));
        lemma_digits_upper(n / 10, (k - 1) as nat);
    }
}

/// 10 to the power `k`.
pub open spec fn pow10(k: nat) -> nat
    decreases k,
{
    if k == 0 { 1 } else { 10 * pow10((k - 1) as nat) }
}

/// Appends `n` as `{:0w}` prints it.
pub fn push_padded_i64(s: &mut String, n: i64, w: usize)
    ensures
        final(s)@ == old(s)@ + padded_int_text(n as int, w as nat),
{
    let ghost start = s@;
    let m = magnitude(n);
    let k = digit_count(m);
    let sign_len: usize = if n < 0 { 1 } else { 0 };
    if n < 0 {
        push_char(s, '-');
    }
    let fill: usize = if sign_len + k < w { w - sign_len - k } else { 0 };
    push_repeat(s, '0', fill);
    push_u64(s, m);
    assert(s@ =~= start + padded_int_text(n as int, w as nat));
}

// ---------------------------------------------------------------------------
// Character-level helpers on `str`.
// ---------------------------------------------------------------------------

/// Compares two strings character by character.
pub fn str_eq(a: &str, b: &str) -> (r: bool)
    ensures
        r == (a@ == b@),
{
    let n = a.unicode_len();
    let m = b.unicode_len();
    if n != m {
        return false;
    }
    let mut i: usize = 0;
    while i < n
        invariant
            n == a@.len(),
            m == b@.len(),
            n == m,
            i <= n,
            forall|j: int| 0 <= j < i ==> a@[j] == b@[j],
        decreases n - i,
    {
        if a.get_char(i) != b.get_char(i) {
            return false;
        }
        i = i + 1;
    }
    assert(a@ =~= b@);
    true
}

/// Whether `s` begins with `prefix`.
pub fn starts_with(s: &str, prefix: &str) -> (r: bool)
    ensures
        r == (prefix@.len() <= s@.len() && s@.subrange(0, prefix@.len() as int) == prefix@),
{
    let n = s.unicode_len();
    let m = prefix.unicode_len();
    if m > n {
        return false;
    }
    let mut i: usize = 0;
    while i < m
        invariant
            n == s@.len(),
            m == prefix@.len(),
            m <= n,
            i <= m,
            forall|j: int| 0 <= j < i ==> s@[j] == prefix@[j],
        decreases m - i,
    {
        if s.get_char(i) != prefix.get_char(i) {
            assert(s@.subrange(0, m as int)[i as int] != prefix@[i as int]);
            return false;
        }
        i = i + 1;
    }
    assert(s@.subrange(0, m as int) =~= prefix@);
    true
}


// ---------------------------------------------------------------------------
// Whitespace and case.
// ---------------------------------------------------------------------------

/// Whether `c` has the Unicode `White_Space` property, as
/// `char::is_whitespace` tests it: the ASCII blanks U+0009 to U+000D and
/// U+0020, and U+0085, U+00A0, U+1680, U+2000 to U+200A, U+2028, U+2029,
/// U+202F, U+205F and U+3000.
pub open spec fn is_white_space(c: char) -> bool {
    ('\u{9}' <= c <= '\u{D}') || c == ' ' || c == '\u{85}' || c == '\u{A0}' || c == '\u{1680}'
        || ('\u{2000}' <= c <= '\u{200A}') || c == '\u{2028}' || c == '\u{2029}' || c == '\u{202F}'
        || c == '\u{205F}' || c == '\u{3000}'
}

/// A character that is an ASCII letter or digit, `_`, `-` or `/`.
pub open spec fn is_word_char(c: char) -> bool {
    ('a' <= c <= 'z') || ('A' <= c <= 'Z') || ('0' <= c <= '9') || c == '_' || c == '-' || c == '/'
}

/// Calls `char::is_whitespace`: true exactly for the characters with the
/// Unicode `White_Space` property.
#[verifier::external_body]
fn char_is_whitespace(c: char) -> (r: bool)
    ensures
        r == is_white_space(c),
{
    c.is_whitespace()
}

/// `s` without its leading whitespace.
pub open spec fn trim_front(s: Seq<char>) -> Seq<char>
    decreases s.len(),
{
    if s.len() > 0 && is_white_space(s[0]) {
        trim_front(s.drop_first())
    } else {
        s
    }
}

/// `s` without its trailing whitespace.
pub open spec fn trim_back(s: Seq<char>) -> Seq<char>
    decreases s.len(),
{
    if s.len() > 0 && is_white_space(s.last()) {
        trim_back(s.drop_last())
    } else {
        s
    }
}

/// `s` without leading and trailing whitespace, as `str::trim` gives it.
pub open spec fn trimmed(s: Seq<char>) -> Seq<char> {
    trim_back(trim_front(s))
}

proof fn lemma_trim_front_skips(s: Seq<char>, k: int)
    requires
        0 <= k <= s.len(),
        forall|j: int| 0 <= j < k ==> is_white_space(#[trigger] s[j]),
        k < s.len() ==> !is_white_space(s[k]),
    ensures
        trim_front(s) == s.subrange(k, s.len() as int),
    decreases k,
{
    if k > 0 {
        let t = s.drop_first();
        assert forall|j: int| 0 <= j < k - 1 implies is_white_space(#[trigger] t[j]) by {
            assert(t[j] == s[j + 1]);
        }
        if k < s.len() {
            assert(t[k - 1] == s[k]);
        }
        lemma_trim_front_skips(t, k - 1);
        assert(t.subrange(k - 1, t.len() as int) =~= s.subrange(k, s.len() as int));
    } else {
        assert(s.subrange(0, s.len() as int) =~= s);
    }
}

proof fn lemma_trim_back_skips(s: Seq<char>, m: int)
    requires
        0 <= m <= s.len(),
        forall|j: int| m <= j < s.len() ==> is_white_space(#[trigger] s[j]),
        m > 0 ==> !is_white_space(s[m - 1]),
    ensures
        trim_back(s) == s.subrange(0, m),
    decreases s.len() - m,
{
    if m < s.len() {
        let t = s.drop_last();
        assert(is_white_space(s[s.len() - 1]));
        assert forall|j: int| m <= j < t.len() implies is_white_space(#[trigger] t[j]) by {
            assert(t[j] == s[j]);
        }
        if m > 0 {
            assert(t[m - 1] == s[m - 1]);
        }
        lemma_trim_back_skips(t, m);
        assert(t.subrange(0, m) =~= s.subrange(0, m));
    } else {
        assert(s.subrange(0, m) =~= s);
    }
}

/// Where `s` is whitespace before `k` and from `m` on, and the characters at
/// `k` and `m - 1` are not, trimming `s` leaves exactly `s[k..m]`.
pub proof fn lemma_trimmed_between(s: Seq<char>, k: int, m: int)
    requires
        0 <= k < m <= s.len(),
        forall|j: int| 0 <= j < k ==> is_white_space(#[trigger] s[j]),
        forall|j: int| m <= j < s.len() ==> is_white_space(#[trigger] s[j]),
        !is_white_space(s[k]),
        !is_white_space(s[m - 1]),
    ensures
        trimmed(s) == s.subrange(k, m),
{
    lemma_trim_front_skips(s, k);
    let t = s.subrange(k, s.len() as int);
    assert forall|j: int| m - k <= j < t.len() implies is_white_space(#[trigger] t[j]) by {
        assert(t[j] == s[j + k]);
    }
    assert(t[m - k - 1] == s[m - 1]);
    lemma_trim_back_skips(t, m - k);
    assert(t.subrange(0, m - k) =~= s.subrange(k, m));
}

/// `str::trim`: drops the leading and trailing whitespace of `s`; what is
/// left of ASCII text is ASCII, and blanks around a word are dropped
/// while the word stays whole.
pub fn trim(s: &str) -> (r: &str)
    ensures
        r@ == trimmed(s@),
        vstd::utf8::is_ascii_chars(s@) ==> vstd::utf8::is_ascii_chars(r@),
        forall|k: int, m: int|
            #![trigger s@.subrange(k, m)]
            0 <= k < m <= s@.len() && (forall|j: int| 0 <= j < k ==> is_white_space(#[trigger] s@[j]))
                && (forall|j: int| m <= j < s@.len() ==> is_white_space(#[trigger] s@[j]))
                && !is_white_space(s@[k]) && !is_white_space(s@[m - 1]) ==> r@ == s@.subrange(k, m),
        s@.len() > 0 && is_word_char(s@[0]) && is_word_char(s@.last()) ==> r@ == s@,
{
    let n = s.unicode_len();
    let mut a: usize = 0;
    assert(s@.subrange(0, n as int) =~= s@);
    while a < n && char_is_whitespace(s.get_char(a))
        invariant
            n == s@.len(),
            a <= n,
            trim_front(s@) == trim_front(s@.subrange(a as int, n as int)),
            a > 0 ==> !is_word_char(s@[0]),
        decreases n - a,
    {
        assert(s@.subrange(a as int, n as int).drop_first() =~= s@.subrange(a + 1, n as int));
        a = a + 1;
    }
    proof {
        if a < n {
            assert(!is_white_space(s@.subrange(a as int, n as int)[0]));
        } else {
            assert(s@.subrange(a as int, n as int).len() == 0);
        }
    }
    let mut b: usize = n;
    while b > a && char_is_whitespace(s.get_char(b - 1))
        invariant
            n == s@.len(),
            a <= b <= n,
            trim_front(s@) == s@.subrange(a as int, n as int),
            trim_back(s@.subrange(a as int, n as int)) == trim_back(s@.subrange(a as int, b as int)),
            b < n ==> !is_word_char(s@.last()),
        decreases b,
    {
        assert(s@.subrange(a as int, b as int).drop_last() =~= s@.subrange(a as int, b - 1));
        b = b - 1;
    }
    proof {
        if b > a {
            assert(s@.subrange(a as int, b as int).last() == s@[b - 1]);
        }
        if n > 0 && is_word_char(s@[0]) && is_word_char(s@.last()) {
            assert(a == 0);
            assert(b == n);
            assert(s@.subrange(0, n as int) =~= s@);
        }
    }
    proof {
        assert forall|k: int, m: int|
            #![trigger s@.subrange(k, m)]
            0 <= k < m <= s@.len() && (forall|j: int| 0 <= j < k ==> is_white_space(#[trigger] s@[j]))
                && (forall|j: int| m <= j < s@.len() ==> is_white_space(#[trigger] s@[j]))
                && !is_white_space(s@[k]) && !is_white_space(s@[m - 1]) implies trimmed(s@)
            == s@.subrange(k, m) by {
            lemma_trimmed_between(s@, k, m);
        }
    }
    let r = s.substring_char(a, b);
    assert(r@ == s@.subrange(a as int, b as int));
    assert(vstd::utf8::is_ascii_chars(s@) ==> vstd::utf8::is_ascii_chars(r@)) by {
        if vstd::utf8::is_ascii_chars(s@) {
            assert forall|i: int| 0 <= i < r@.len() implies '\0' <= #[trigger] r@[i] <= '\u{7f}' by {
                assert(r@[i] == s@[i + a]);
            }
        }
    }
    r
}

/// `s` with every ASCII lowercase letter made uppercase.
pub open spec fn ascii_upper(s: Seq<char>) -> Seq<char> {
    s.map_values(|c: char| if 'a' <= c <= 'z' { ((c as int) - 32) as char } else { c })
}

/// `s` with every ASCII uppercase letter made lowercase.
pub open spec fn ascii_lower(s: Seq<char>) -> Seq<char> {
    s.map_values(|c: char| if 'A' <= c <= 'Z' { ((c as int) + 32) as char } else { c })
}

/// The uppercase form of `s` as `str::to_uppercase` gives it (full Unicode
/// case mapping).
pub uninterp spec fn unicode_upper(s: Seq<char>) -> Seq<char>;

/// Calls `str::to_uppercase`; on ASCII text that is the plain ASCII mapping.
#[verifier::external_body]
fn to_uppercase(s: &str) -> (r: String)
    ensures
        r@ == unicode_upper(s@),
        vstd::utf8::is_ascii_chars(s@) ==> r@ == ascii_upper(s@),
{
    s.to_uppercase()
}

/// `str::to_uppercase` on `s`.
pub fn uppercase(s: &str) -> (r: String)
    ensures
        r@ == unicode_upper(s@),
        vstd::utf8::is_ascii_chars(s@) ==> r@ == ascii_upper(s@),
{
    to_uppercase(s)
}

/// `s` in ASCII lowercase.
pub fn lowercase_ascii(s: &str) -> (r: String)
    ensures
        r@ == ascii_lower(s@),
{
    let n = s.unicode_len();
    let mut r = String::new();
    let mut i: usize = 0;
    while i < n
        invariant
            n == s@.len(),
            i <= n,
            r@ =~= ascii_lower(s@.subrange(0, i as int)),
        decreases n - i,
    {
        let c = s.get_char(i);
        let d = if 'A' <= c && c <= 'Z' { ((c as u8) + 32) as char } else { c };
        push_char(&mut r, d);
        i = i + 1;
        assert(r@ =~= ascii_lower(s@.subrange(0, i as int)));
    }
    assert(s@.subrange(0, n as int) =~= s@);
    r
}

// ---------------------------------------------------------------------------
// Integers as `str::parse` reads them.
// ---------------------------------------------------------------------------

/// An ASCII digit.
pub open spec fn is_digit(c: char) -> bool {
    '0' <= c <= '9'
}

/// Every character of `s` is an ASCII digit.
pub open spec fn all_digits(s: Seq<char>) -> bool {
    forall|i: int| 0 <= i < s.len() ==> is_digit(#[trigger] s[i])
}

/// The number that the decimal digits `s` spell.
pub open spec fn digits_value(s: Seq<char>) -> nat
    decreases s.len(),
{
    if s.len() == 0 {
        0
    } else {
        digits_value(s.drop_last()) * 10 + ((s.last() as int) - ('0' as int)) as nat
    }
}

/// The integer that `str::parse` reads from `s` before its range check: an
/// optional `+` (or `-` for a signed type) followed by at least one ASCII
/// digit, nothing else.
pub open spec fn parse_integer(s: Seq<char>, signed: bool) -> Option<int> {
    if s.len() == 0 {
        None
    } else {
        let neg = signed && s[0] == '-';
        let body = if s[0] == '+' || neg { s.drop_first() } else { s };
        if body.len() == 0 || !all_digits(body) {
            None
        } else if neg {
            Some(-(digits_value(body) as int))
        } else {
            Some(digits_value(body) as int)
        }
    }
}

/// `s.parse::<i32>().ok()`.
pub open spec fn parse_i32_spec(s: Seq<char>) -> Option<i32> {
    match parse_integer(s, true) {
        Some(v) => if i32::MIN <= v <= i32::MAX { Some(v as i32) } else { None },
        None => None,
    }
}

/// `s.parse::<u32>().ok()`.
pub open spec fn parse_u32_spec(s: Seq<char>) -> Option<u32> {
    match parse_integer(s, false) {
        Some(v) => if 0 <= v <= u32::MAX { Some(v as u32) } else { None },
        None => None,
    }
}

proof fn lemma_digits_value_prefix(s: Seq<char>, i: int)
    requires
        0 <= i <= s.len(),
    ensures
        digits_value(s.subrange(0, i)) <= digits_value(s),
    decreases s.len(),
{
    if i < s.len() {
        assert(s.drop_last().subrange(0, i) =~= s.subrange(0, i));
        lemma_digits_value_prefix(s.drop_last(), i);
    } else {
        assert(s.subrange(0, i) =~= s);
    }
}

/// Reads the digits of `s` from position `start` on: their value when they
/// are at least one ASCII digit and all of them are, and the value is at
/// most `u32::MAX`; `None` otherwise.
fn read_magnitude(s: &str, start: usize) -> (r: Option<u64>)
    requires
        start <= s@.len(),
    ensures
        ({
            let body = s@.subrange(start as int, s@.len() as int);
            r == if body.len() > 0 && all_digits(body) && digits_value(body) <= u32::MAX {
                Some(digits_value(body) as u64)
            } else {
                None
            }
        }),
{
    let n = s.unicode_len();
    let ghost body = s@.subrange(start as int, n as int);
    if start == n {
        return None;
    }
    let mut v: u64 = 0;
    let mut i: usize = start;
    while i < n
        invariant
            n == s@.len(),
            start <= i <= n,
            body == s@.subrange(start as int, n as int),
            all_digits(body.subrange(0, i - start)),
            v as nat == digits_value(body.subrange(0, i - start)),
            v <= u32::MAX,
        decreases n - i,
    {
        let c = s.get_char(i);
        if !('0' <= c && c <= '9') {
            assert(body[i - start] == c);
            return None;
        }
        let d = (c as u32 - '0' as u32) as u64;
        let ghost pre = body.subrange(0, i - start);
        let ghost post = body.subrange(0, i - start + 1);
        assert(post.drop_last() =~= pre);
        assert(post.last() == c);
        let w = v * 10 + d;
        i = i + 1;
        if w > u32::MAX as u64 {
            proof {
                lemma_digits_value_prefix(body, i - start);
                assert(body.subrange(0, i - start) == post);
            }
            return None;
        }
        v = w;
        assert(all_digits(body.subrange(0, i - start))) by {
            assert forall|j: int| 0 <= j < i - start implies is_digit(#[trigger] body.subrange(0, i - start)[j]) by {
                if j < i - start - 1 {
                    assert(body.subrange(0, i - start)[j] == pre[j]);
                }
            }
        }
    }
    assert(body.subrange(0, n - start) =~= body);
    Some(v)
}

/// `s.parse::<i32>().ok()`.
pub fn parse_i32(s: &str) -> (r: Option<i32>)
    ensures
        r == parse_i32_spec(s@),
{
    let n = s.unicode_len();
    if n == 0 {
        return None;
    }
    let c = s.get_char(0);
    let neg = c == '-';
    let start: usize = if c == '+' || neg { 1 } else { 0 };
    let ghost body = if c == '+' || neg { s@.drop_first() } else { s@ };
    assert(body =~= s@.subrange(start as int, n as int));
    match read_magnitude(s, start) {
        Some(m) => {
            if neg {
                if m <= 2147483648 {
                    let v: i64 = -(m as i64);
                    Some(v as i32)
                } else {
                    None
                }
            } else {
                if m <= 2147483647 {
                    Some(m as i32)
                } else {
                    None
                }
            }
        },
        None => None,
    }
}

/// `s.parse::<u32>().ok()`.
pub fn parse_u32(s: &str) -> (r: Option<u32>)
    ensures
        r == parse_u32_spec(s@),
{
    let n = s.unicode_len();
    if n == 0 {
        return None;
    }
    let c = s.get_char(0);
    let start: usize = if c == '+' { 1 } else { 0 };
    let ghost body = if c == '+' { s@.drop_first() } else { s@ };
    assert(body =~= s@.subrange(start as int, n as int));
    match read_magnitude(s, start) {
        Some(m) => Some(m as u32),
        None => None,
    }
}

// ---------------------------------------------------------------------------
// Reading back what was written.
// ---------------------------------------------------------------------------

/// `digit_char(d)` is the digit with value `d`.
pub proof fn lemma_digit_char(d: nat)
    requires
        d < 10,
    ensures
        is_digit(digit_char(d)),
        (digit_char(d) as int) - ('0' as int) == d,
{
}

/// The digits of `n` are ASCII digits, and they spell `n`.
pub proof fn lemma_digits_roundtrip(n: nat)
    ensures
        all_digits(digits(n)),
        digits_value(digits(n)) == n,
        digits(n).len() > 0,
    decreases n,
{
    if n < 10 {
        lemma_digit_char(n);
        assert(digits(n).drop_last() =~= Seq::<char>::empty());
        assert(digits_value(Seq::<char>::empty()) == 0);
        assert(digits_value(digits(n)) == digits_value(digits(n).drop_last()) * 10 + ((digits(n).last() as int) - ('0' as int)));
    } else {
        lemma_digits_roundtrip(n / 10);
        lemma_digit_char(n % 10);
        let d = digits(n);
        assert(d.drop_last() =~= digits(n / 10));
        assert(d.last() == digit_char(n % 10));
        assert(n == (n / 10) * 10 + n % 10);
        assert(digits_value(d) == digits_value(d.drop_last()) * 10 + ((d.last() as int) - ('0' as int)));
        assert forall|i: int| 0 <= i < d.len() implies is_digit(#[trigger] d[i]) by {
            if i < d.len() - 1 {
                assert(d[i] == digits(n / 10)[i]);
            }
        }
    }
}

/// Leading zeros do not change the value of a digit string.
pub proof fn lemma_leading_zeros(k: nat, d: Seq<char>)
    ensures
        digits_value(repeat_char('0', k) + d) == digits_value(d),
        all_digits(d) ==> all_digits(repeat_char('0', k) + d),
    decreases d.len(), k,
{
    let z = repeat_char('0', k);
    if d.len() == 0 {
        assert(z + d =~= z);
        if k > 0 {
            assert(z.drop_last() =~= repeat_char('0', (k - 1) as nat));
            lemma_leading_zeros((k - 1) as nat, d);
            assert(repeat_char('0', (k - 1) as nat) + d =~= repeat_char('0', (k - 1) as nat));
        }
    } else {
        assert((z + d).drop_last() =~= z + d.drop_last());
        lemma_leading_zeros(k, d.drop_last());
    }
    if all_digits(d) {
        assert forall|i: int| 0 <= i < (z + d).len() implies is_digit(#[trigger] (z + d)[i]) by {
            if i >= z.len() {
                assert((z + d)[i] == d[i - z.len()]);
            }
        }
    }
}

/// `padded_int_text` of a non-negative number is the number's digits after
/// some zeros.
pub proof fn lemma_padded_nonneg(n: nat, w: nat)
    ensures
        exists|k: nat| padded_int_text(n as int, w) == #[trigger] repeat_char('0', k) + digits(n),
        all_digits(padded_int_text(n as int, w)),
        digits_value(padded_int_text(n as int, w)) == n,
        padded_int_text(n as int, w).len() > 0,
{
    let body = digits(n);
    let fill: nat = if body.len() < w { (w - body.len()) as nat } else { 0 };
    assert(padded_int_text(n as int, w) =~= repeat_char('0', fill) + body);
    lemma_digits_roundtrip(n);
    lemma_leading_zeros(fill, body);
}

/// Reading a number back from how `{}` prints it gives the number.
pub proof fn lemma_parse_int_text(n: int)
    ensures
        parse_integer(int_text(n), true) == Some(n),
        n >= 0 ==> parse_integer(int_text(n), false) == Some(n),
{
    if n < 0 {
        lemma_digits_roundtrip((-n) as nat);
        let t = int_text(n);
        assert(t[0] == '-');
        assert(t.drop_first() =~= digits((-n) as nat));
    } else {
        lemma_digits_roundtrip(n as nat);
        let t = int_text(n);
        assert(is_digit(t[0]));
    }
}

/// `str::parse` reads back every `i32` that `{}` prints.
pub proof fn lemma_parse_i32_roundtrip(n: i32)
    ensures
        parse_i32_spec(int_text(n as int)) == Some(n),
{
    lemma_parse_int_text(n as int);
}

/// `str::parse` reads back every `u32` that `{}` prints.
pub proof fn lemma_parse_u32_roundtrip(n: u32)
    ensures
        parse_u32_spec(int_text(n as int)) == Some(n),
{
    lemma_parse_int_text(n as int);
}

} // verus!
