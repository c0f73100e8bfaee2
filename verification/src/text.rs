//! Character-level text handling: conversions between strings and character
//! vectors, searching, trimming, line splitting and decimal numbers.
//!
//! Every function here works on the characters of a string (its `@` view),
//! which is how the rest of the library states its contracts.
use vstd::prelude::*;

verus! {

// ---------------------------------------------------------------------------
// Conversions
// ---------------------------------------------------------------------------

/// The characters of a string slice, in order.
pub fn chars_of(s: &str) -> (v: Vec<char>)
    ensures
        v@ == s@,
{
    let mut v: Vec<char> = Vec::new();
    for c in it: s.chars()
        invariant
            v@ == it.seq().take(it.index()),
            it.seq() == s@,
    {
        v.push(c);
    }
    v
}

/// Appends one character to a string (`String::push`).
#[verifier::external_body]
pub(crate) fn string_push(s: &mut String, c: char)
    ensures
        final(s)@ == old(s)@.push(c),
{
    s.push(c);
}

/// The string made of the given characters.
pub fn string_of(v: &Vec<char>) -> (s: String)
    ensures
        s@ == v@,
{
    let mut s = String::new();
    let mut i: usize = 0;
    while i < v.len()
        invariant
            i <= v.len(),
            s@ == v@.take(i as int),
        decreases v.len() - i,
    {
        string_push(&mut s, v[i]);
        assert(v@.take(i as int).push(v@[i as int]) =~= v@.take(i + 1));
        i = i + 1;
    }
    assert(v@.take(v.len() as int) =~= v@);
    s
}

/// A copy of `s` (the characters of `s` as a new string).
pub fn copy_str(s: &str) -> (r: String)
    ensures
        r@ == s@,
{
    let v = chars_of(s);
    string_of(&v)
}

/// The characters `v[from..to]` as a new vector.
pub fn sub_chars(v: &Vec<char>, from: usize, to: usize) -> (r: Vec<char>)
    requires
        from <= to <= v.len(),
    ensures
        r@ == v@.subrange(from as int, to as int),
{
    let mut r: Vec<char> = Vec::new();
    let mut i: usize = from;
    while i < to
        invariant
            from <= i <= to <= v.len(),
            r@ == v@.subrange(from as int, i as int),
        decreases to - i,
    {
        r.push(v[i]);
        assert(v@.subrange(from as int, i as int).push(v@[i as int]) =~= v@.subrange(
            from as int,
            i + 1,
        ));
        i = i + 1;
    }
    r
}

/// The concatenation of two character vectors.
pub fn concat_chars(a: &Vec<char>, b: &Vec<char>) -> (r: Vec<char>)
    ensures
        r@ == a@ + b@,
{
    let mut r: Vec<char> = Vec::new();
    let mut i: usize = 0;
    while i < a.len()
        invariant
            i <= a.len(),
            r@ == a@.take(i as int),
        decreases a.len() - i,
    {
        r.push(a[i]);
        assert(a@.take(i as int).push(a@[i as int]) =~= a@.take(i + 1));
        i = i + 1;
    }
    assert(a@.take(a.len() as int) =~= a@);
    let mut j: usize = 0;
    while j < b.len()
        invariant
            j <= b.len(),
            r@ == a@ + b@.take(j as int),
        decreases b.len() - j,
    {
        r.push(b[j]);
        assert((a@ + b@.take(j as int)).push(b@[j as int]) =~= a@ + b@.take(j + 1));
        j = j + 1;
    }
    assert(b@.take(b.len() as int) =~= b@);
    r
}

/// Whether two character sequences are equal.
pub fn chars_eq(a: &Vec<char>, b: &Vec<char>) -> (r: bool)
    ensures
        r == (a@ == b@),
{
    if a.len() != b.len() {
        return false;
    }
    let mut i: usize = 0;
    while i < a.len()
        invariant
            a.len() == b.len(),
            i <= a.len(),
            forall|k: int| 0 <= k < i ==> a@[k] == b@[k],
        decreases a.len() - i,
    {
        if a[i] != b[i] {
            return false;
        }
        i = i + 1;
    }
    assert(a@ =~= b@);
    true
}

/// Whether two string slices hold the same characters.
pub fn str_eq(a: &str, b: &str) -> (r: bool)
    ensures
        r == (a@ == b@),
{
    let av = chars_of(a);
    let bv = chars_of(b);
    chars_eq(&av, &bv)
}

// ---------------------------------------------------------------------------
// Unicode classes and case mapping
// ---------------------------------------------------------------------------

/// The characters with the Unicode `White_Space` property, which is what
/// `char::is_whitespace` tests and what `str::trim` removes.
pub open spec fn is_ws(c: char) -> bool {
    let u = c as u32;
    ||| 0x09 <= u <= 0x0d
    ||| u == 0x20
    ||| u == 0x85
    ||| u == 0xa0
    ||| u == 0x1680
    ||| 0x2000 <= u <= 0x200a
    ||| u == 0x2028
    ||| u == 0x2029
    ||| u == 0x202f
    ||| u == 0x205f
    ||| u == 0x3000
}

/// Whether `c` is white space (see `is_ws`).
pub fn is_whitespace(c: char) -> (r: bool)
    ensures
        r == is_ws(c),
{
    let u = c as u32;
    (0x09 <= u && u <= 0x0d) || u == 0x20 || u == 0x85 || u == 0xa0 || u == 0x1680 || (0x2000
        <= u && u <= 0x200a) || u == 0x2028 || u == 0x2029 || u == 0x202f || u == 0x205f || u
        == 0x3000
}

/// What `char::is_alphabetic` answers for a character (the Unicode
/// `Alphabetic` property).
pub uninterp spec fn alphabetic(c: char) -> bool;

/// `char::is_alphabetic`: its contract says that the answer is the value of
/// `alphabetic` on the character, a fixed Unicode property, under which the
/// ASCII letters are alphabetic and the ASCII digits and the characters
/// `:`, `.`, `[` and `]` are not.
#[verifier::external_body]
pub(crate) fn char_is_alphabetic(c: char) -> (r: bool)
    ensures
        r == alphabetic(c),
        ('a' <= c <= 'z' || 'A' <= c <= 'Z') ==> r,
        ('0' <= c <= '9' || c == ':' || c == '.' || c == '[' || c == ']') ==> !r,
{
    c.is_alphabetic()
}

/// What `str::to_lowercase` returns for a string (Unicode lower-case mapping).
pub uninterp spec fn lowercase(s: Seq<char>) -> Seq<char>;

/// `str::to_lowercase`: its contract says that the result is the value of
/// `lowercase` on the argument's characters; the mapping itself is not stated.
#[verifier::external_body]
pub(crate) fn to_lowercase(s: &str) -> (r: String)
    ensures
        r@ == lowercase(s@),
{
    s.to_lowercase()
}

// ---------------------------------------------------------------------------
// Trimming
// ---------------------------------------------------------------------------

/// `s` without its leading white space.
pub open spec fn trim_start(s: Seq<char>) -> Seq<char>
    decreases s.len(),
{
    if s.len() > 0 && is_ws(s[0]) {
        trim_start(s.drop_first())
    } else {
        s
    }
}

/// `s` without its trailing white space.
pub open spec fn trim_end(s: Seq<char>) -> Seq<char>
    decreases s.len(),
{
    if s.len() > 0 && is_ws(s.last()) {
        trim_end(s.drop_last())
    } else {
        s
    }
}

/// `s` without leading and trailing white space (`str::trim`).
pub open spec fn trim(s: Seq<char>) -> Seq<char> {
    trim_end(trim_start(s))
}

/// `s` with white space removed at both ends.
pub fn trim_chars(s: &Vec<char>) -> (r: Vec<char>)
    ensures
        r@ == trim(s@),
{
    let n = s.len();
    let mut i: usize = 0;
    assert(s@.subrange(0, n as int) =~= s@);
    while i < n && is_whitespace(s[i])
        invariant
            n == s.len(),
            i <= n,
            trim_start(s@.subrange(i as int, n as int)) == trim_start(s@),
        decreases n - i,
    {
        assert(s@.subrange(i as int, n as int).drop_first() =~= s@.subrange(i + 1, n as int));
        i = i + 1;
    }
    assert(trim_start(s@.subrange(i as int, n as int)) == s@.subrange(i as int, n as int));
    let mut j: usize = n;
    while j > i && is_whitespace(s[j - 1])
        invariant
            n == s.len(),
            i <= j <= n,
            trim_end(s@.subrange(i as int, j as int)) == trim_end(s@.subrange(i as int, n as int)),
        decreases j - i,
    {
        assert(s@.subrange(i as int, j as int).drop_last() =~= s@.subrange(i as int, j - 1));
        j = j - 1;
    }
    assert(trim_end(s@.subrange(i as int, j as int)) == s@.subrange(i as int, j as int));
    sub_chars(s, i, j)
}

// ---------------------------------------------------------------------------
// Searching
// ---------------------------------------------------------------------------

/// `n` occurs in `h` starting at position `i`.
pub open spec fn occurs_at(h: Seq<char>, n: Seq<char>, i: int) -> bool {
    0 <= i && i + n.len() <= h.len() && h.subrange(i, i + n.len()) == n
}

/// The first position at or after `i` where `n` occurs in `h`.
pub open spec fn find_from(h: Seq<char>, n: Seq<char>, i: int) -> Option<int>
    decreases h.len() + 1 - i,
{
    if i < 0 || i + n.len() > h.len() {
        None
    } else if occurs_at(h, n, i) {
        Some(i)
    } else {
        find_from(h, n, i + 1)
    }
}

/// The first position where `n` occurs in `h` (`str::find`).
pub open spec fn find(h: Seq<char>, n: Seq<char>) -> Option<int> {
    find_from(h, n, 0)
}

/// Whether `n` occurs in `h` (`str::contains`).
pub open spec fn contains(h: Seq<char>, n: Seq<char>) -> bool {
    find(h, n) is Some
}

/// Whether `h` begins with `n` (`str::starts_with`).
pub open spec fn starts_with(h: Seq<char>, n: Seq<char>) -> bool {
    occurs_at(h, n, 0)
}

/// The first position of `c` in `s`.
pub open spec fn find_char(s: Seq<char>, c: char) -> Option<int> {
    find(s, seq![c])
}

/// `find_from` answers with a position where `n` occurs, and `n` occurs at no
/// position between `i` and that answer; when it answers `None`, `n` occurs
/// nowhere at or after `i`.
pub proof fn lemma_find_from(h: Seq<char>, n: Seq<char>, i: int)
    requires
        0 <= i,
    ensures
        find_from(h, n, i) matches Some(k) ==> i <= k && occurs_at(h, n, k) && forall|j: int|
            i <= j < k ==> !occurs_at(h, n, j),
        find_from(h, n, i) is None ==> forall|j: int| i <= j ==> !occurs_at(h, n, j),
    decreases h.len() + 1 - i,
{
    if i + n.len() > h.len() {
    } else if occurs_at(h, n, i) {
    } else {
        lemma_find_from(h, n, i + 1);
    }
}

/// Whether `n` occurs in `h` at position `i`.
pub fn chars_occur_at(h: &Vec<char>, n: &Vec<char>, i: usize) -> (r: bool)
    ensures
        r == occurs_at(h@, n@, i as int),
{
    if i > h.len() || n.len() > h.len() - i {
        return false;
    }
    let mut k: usize = 0;
    while k < n.len()
        invariant
            i + n.len() <= h.len(),
            k <= n.len(),
            forall|m: int| 0 <= m < k ==> h@[i + m] == n@[m],
        decreases n.len() - k,
    {
        if h[i + k] != n[k] {
            assert(h@.subrange(i as int, i + n.len())[k as int] != n@[k as int]);
            return false;
        }
        k = k + 1;
    }
    assert(h@.subrange(i as int, i + n.len()) =~= n@);
    true
}

/// The first position where `n` occurs in `h`.
pub fn find_chars(h: &Vec<char>, n: &Vec<char>) -> (r: Option<usize>)
    ensures
        r matches Some(k) ==> find(h@, n@) == Some(k as int),
        r is None ==> find(h@, n@) is None,
{
    if n.len() > h.len() {
        return None;
    }
    let last = h.len() - n.len();
    let mut i: usize = 0;
    loop
        invariant
            last + n.len() == h.len(),
            i <= last,
            find_from(h@, n@, 0) == find_from(h@, n@, i as int),
        decreases last - i,
    {
        if chars_occur_at(h, n, i) {
            return Some(i);
        }
        if i == last {
            assert(find_from(h@, n@, i + 1) is None);
            return None;
        }
        i = i + 1;
    }
}

/// The first position of the character `c` in `s`.
pub fn find_char_in(s: &Vec<char>, c: char) -> (r: Option<usize>)
    ensures
        r matches Some(k) ==> find_char(s@, c) == Some(k as int),
        r is None ==> find_char(s@, c) is None,
{
    let mut n: Vec<char> = Vec::new();
    n.push(c);
    assert(n@ =~= seq![c]);
    find_chars(s, &n)
}

/// Whether `n` occurs in `h`.
pub fn contains_chars(h: &Vec<char>, n: &Vec<char>) -> (r: bool)
    ensures
        r == contains(h@, n@),
{
    find_chars(h, n).is_some()
}

/// Whether the text `h` contains the text `n`.
pub fn str_contains(h: &str, n: &str) -> (r: bool)
    ensures
        r == contains(h@, n@),
{
    let hv = chars_of(h);
    let nv = chars_of(n);
    contains_chars(&hv, &nv)
}

/// Whether `h` begins with `n`.
pub fn starts_with_chars(h: &Vec<char>, n: &Vec<char>) -> (r: bool)
    ensures
        r == starts_with(h@, n@),
{
    chars_occur_at(h, n, 0)
}

// ---------------------------------------------------------------------------
// Decimal numbers
// ---------------------------------------------------------------------------

/// Whether `c` is one of the ASCII digits `0`..`9`.
pub open spec fn is_digit(c: char) -> bool {
    '0' <= c && c <= '9'
}

/// The value of the ASCII digit `c`.
pub open spec fn digit_value(c: char) -> nat {
    (c as u32 - '0' as u32) as nat
}

/// Every character of `s` is an ASCII digit.
pub open spec fn all_digits(s: Seq<char>) -> bool {
    forall|i: int| 0 <= i < s.len() ==> is_digit(#[trigger] s[i])
}

/// The number written by the digits `s`, most significant first.
pub open spec fn digits_value(s: Seq<char>) -> nat
    decreases s.len(),
{
    if s.len() == 0 {
        0
    } else {
        digits_value(s.drop_last()) * 10 + digit_value(s.last())
    }
}

/// The digits part of an unsigned number's text: `s` without a leading `+`.
pub open spec fn unsigned_digits(s: Seq<char>) -> Seq<char> {
    if s.len() > 0 && s[0] == '+' {
        s.drop_first()
    } else {
        s
    }
}

/// What `u64::from_str`/`u32::from_str` gives for `s` when the largest value of
/// the type is `max`: an optional `+`, then one or more ASCII digits whose
/// value does not exceed `max`.
pub open spec fn parse_unsigned(s: Seq<char>, max: nat) -> Option<nat> {
    let d = unsigned_digits(s);
    if d.len() > 0 && all_digits(d) && digits_value(d) <= max {
        Some(digits_value(d))
    } else {
        None
    }
}

proof fn lemma_digits_value_prefix(s: Seq<char>, k: int)
    requires
        0 <= k <= s.len(),
        all_digits(s),
    ensures
        digits_value(s.take(k)) <= digits_value(s),
    decreases s.len() - k,
{
    if k < s.len() {
        lemma_digits_value_prefix(s, k + 1);
        assert(s.take(k + 1).drop_last() =~= s.take(k));
    } else {
        assert(s.take(k) =~= s);
    }
}

/// The value of the decimal text `s[from..to]` if it is made of digits only,
/// with an optional sign `+` first, and is at most `max`.
fn parse_unsigned_chars(s: &Vec<char>, max: u64) -> (r: Option<u64>)
    ensures
        r matches Some(v) ==> parse_unsigned(s@, max as nat) == Some(v as nat),
        r is None ==> parse_unsigned(s@, max as nat) is None,
{
    let n = s.len();
    let start: usize = if n > 0 && s[0] == '+' {
        1
    } else {
        0
    };
    let ghost d = unsigned_digits(s@);
    assert(d =~= s@.subrange(start as int, n as int));
    if start >= n {
        assert(d.len() == 0);
        return None;
    }
    let mut value: u64 = 0;
    let mut i: usize = start;
    while i < n
        invariant
            n == s.len(),
            start <= i <= n,
            d == s@.subrange(start as int, n as int),
            d == unsigned_digits(s@),
            all_digits(d.take(i - start)),
            value as nat == digits_value(d.take(i - start)),
            value <= max,
        decreases n - i,
    {
        let c = s[i];
        assert(d[i - start] == c);
        if c < '0' || c > '9' {
            assert(!is_digit(d[i - start]));
            assert(!all_digits(d));
            return None;
        }
        let dv = (c as u32 - '0' as u32) as u64;
        assert(d.take(i + 1 - start).drop_last() =~= d.take(i - start));
        if value > max / 10 || (value == max / 10 && dv > max % 10) {
            proof {
                assert(digits_value(d.take(i + 1 - start)) > max) by (nonlinear_arith)
                    requires
                        digits_value(d.take(i + 1 - start)) == value * 10 + dv,
                        value > max / 10 || (value == max / 10 && dv > max % 10),
                ;
                if all_digits(d) {
                    lemma_digits_value_prefix(d, i + 1 - start);
                }
            }
            return None;
        }
        assert(value * 10 + dv <= max) by (nonlinear_arith)
            requires
                !(value > max / 10 || (value == max / 10 && dv > max % 10)),
                dv <= 9,
        ;
        value = value * 10 + dv;
        i = i + 1;
    }
    assert(d.take(n - start) =~= d);
    Some(value)
}

/// `u64::from_str` on a character sequence.
pub fn parse_u64_chars(s: &Vec<char>) -> (r: Option<u64>)
    ensures
        r matches Some(v) ==> parse_unsigned(s@, u64::MAX as nat) == Some(v as nat),
        r is None ==> parse_unsigned(s@, u64::MAX as nat) is None,
{
    parse_unsigned_chars(s, u64::MAX)
}

/// `u32::from_str` on a character sequence.
pub fn parse_u32_chars(s: &Vec<char>) -> (r: Option<u32>)
    ensures
        r matches Some(v) ==> parse_unsigned(s@, u32::MAX as nat) == Some(v as nat),
        r is None ==> parse_unsigned(s@, u32::MAX as nat) is None,
{
    match parse_unsigned_chars(s, u32::MAX as u64) {
        Some(v) => Some(v as u32),
        None => None,
    }
}

/// The ASCII digit for a value below ten.
pub open spec fn digit_char(d: nat) -> char {
    (d + '0' as u32) as char
}

/// The decimal text of `n` (as `Display` writes an unsigned integer).
pub open spec fn decimal(n: nat) -> Seq<char>
    decreases n,
{
    if n < 10 {
        seq![digit_char(n)]
    } else {
        decimal(n / 10).push(digit_char(n % 10))
    }
}

/// The decimal text of `n`.
pub fn decimal_string(n: u64) -> (r: String)
    ensures
        r@ == decimal(n as nat),
{
    let mut digits: Vec<char> = Vec::new();
    let mut m: u64 = n;
    loop
        invariant
            decimal(n as nat) == decimal(m as nat) + digits@,
        decreases m,
    {
        if m < 10 {
            let c = ((m as u32) + ('0' as u32)) as u8 as char;
            assert(c == digit_char(m as nat));
            let mut r: Vec<char> = Vec::new();
            r.push(c);
            let joined = concat_chars(&r, &digits);
            assert(r@ =~= decimal(m as nat));
            return string_of(&joined);
        }
        let d = m % 10;
        let c = ((d as u32) + ('0' as u32)) as u8 as char;
        assert(c == digit_char(d as nat));
        let mut head: Vec<char> = Vec::new();
        head.push(c);
        let new_digits = concat_chars(&head, &digits);
        assert(decimal(m as nat) == decimal((m / 10) as nat).push(c));
        assert(decimal((m / 10) as nat).push(c) + digits@ =~= decimal((m / 10) as nat)
            + new_digits@);
        digits = new_digits;
        m = m / 10;
    }
}


// ---------------------------------------------------------------------------
// Ordering
// ---------------------------------------------------------------------------

/// `a` comes before `b`, or equals it, in lexicographic order of code points
/// (the order `str::cmp` gives, since UTF-8 keeps the order of code points).
pub open spec fn lex_le(a: Seq<char>, b: Seq<char>) -> bool
    decreases a.len(),
{
    if a.len() == 0 {
        true
    } else if b.len() == 0 {
        false
    } else if a[0] < b[0] {
        true
    } else if a[0] > b[0] {
        false
    } else {
        lex_le(a.drop_first(), b.drop_first())
    }
}

/// Any two texts compare.
pub proof fn lemma_lex_total(a: Seq<char>, b: Seq<char>)
    ensures
        lex_le(a, b) || lex_le(b, a),
    decreases a.len(),
{
    if a.len() > 0 && b.len() > 0 && a[0] == b[0] {
        lemma_lex_total(a.drop_first(), b.drop_first());
    }
}

/// The order is transitive.
pub proof fn lemma_lex_transitive(a: Seq<char>, b: Seq<char>, c: Seq<char>)
    requires
        lex_le(a, b),
        lex_le(b, c),
    ensures
        lex_le(a, c),
    decreases a.len(),
{
    if a.len() > 0 && b.len() > 0 && c.len() > 0 && a[0] == b[0] && b[0] == c[0] {
        lemma_lex_transitive(a.drop_first(), b.drop_first(), c.drop_first());
    }
}

/// Whether `a` comes before `b`, or equals it, in lexicographic order.
pub fn chars_lex_le(a: &Vec<char>, b: &Vec<char>) -> (r: bool)
    ensures
        r == lex_le(a@, b@),
{
    let mut i: usize = 0;
    proof {
        assert(a@.subrange(0, a@.len() as int) =~= a@);
        assert(b@.subrange(0, b@.len() as int) =~= b@);
    }
    while i < a.len() && i < b.len() && a[i] == b[i]
        invariant
            i <= a.len(),
            i <= b.len(),
            lex_le(a@.subrange(i as int, a@.len() as int), b@.subrange(i as int, b@.len() as int))
                == lex_le(a@, b@),
        decreases a.len() - i,
    {
        let ghost sa = a@.subrange(i as int, a@.len() as int);
        let ghost sb = b@.subrange(i as int, b@.len() as int);
        assert(sa.drop_first() =~= a@.subrange(i + 1, a@.len() as int));
        assert(sb.drop_first() =~= b@.subrange(i + 1, b@.len() as int));
        i = i + 1;
    }
    if i == a.len() {
        true
    } else if i == b.len() {
        false
    } else {
        let ghost sa = a@.subrange(i as int, a@.len() as int);
        let ghost sb = b@.subrange(i as int, b@.len() as int);
        assert(sa[0] == a@[i as int] && sb[0] == b@[i as int]);
        a[i] < b[i]
    }
}

// ---------------------------------------------------------------------------
// Splitting
// ---------------------------------------------------------------------------

/// The pieces of `s` between the characters for which `sep` holds, as
/// `str::split` with a character predicate gives them: there is always at
/// least one piece, and two adjacent separators give an empty piece.
pub open spec fn split_by(s: Seq<char>, sep: spec_fn(char) -> bool) -> Seq<Seq<char>>
    decreases s.len(),
{
    if s.len() == 0 {
        seq![Seq::<char>::empty()]
    } else {
        let p = split_by(s.drop_last(), sep);
        if sep(s.last()) {
            p.push(Seq::<char>::empty())
        } else {
            p.update(p.len() - 1, p.last().push(s.last()))
        }
    }
}

/// `split_by` never gives an empty list of pieces.
pub proof fn lemma_split_by_nonempty(s: Seq<char>, sep: spec_fn(char) -> bool)
    ensures
        split_by(s, sep).len() >= 1,
    decreases s.len(),
{
    if s.len() > 0 {
        lemma_split_by_nonempty(s.drop_last(), sep);
    }
}

/// The views of a vector of character vectors.
pub open spec fn views(v: Seq<Vec<char>>) -> Seq<Seq<char>> {
    v.map_values(|x: Vec<char>| x@)
}

/// The pieces of `s` separated by any of the characters in `seps`.
pub fn split_chars(s: &Vec<char>, seps: &Vec<char>) -> (r: Vec<Vec<char>>)
    ensures
        views(r@) == split_by(s@, |c: char| seps@.contains(c)),
{
    let ghost sep = |c: char| seps@.contains(c);
    let mut pieces: Vec<Vec<char>> = Vec::new();
    let mut cur: Vec<char> = Vec::new();
    let mut i: usize = 0;
    assert(s@.take(0) =~= Seq::<char>::empty());
    assert(views(pieces@).push(cur@) =~= seq![Seq::<char>::empty()]);
    while i < s.len()
        invariant
            i <= s.len(),
            sep == (|c: char| seps@.contains(c)),
            split_by(s@.take(i as int), sep) == views(pieces@).push(cur@),
        decreases s.len() - i,
    {
        let c = s[i];
        let mut is_sep = false;
        let mut k: usize = 0;
        while k < seps.len()
            invariant
                k <= seps.len(),
                is_sep == (exists|m: int| 0 <= m < k && seps@[m] == c),
            decreases seps.len() - k,
        {
            if seps[k] == c {
                is_sep = true;
            }
            k = k + 1;
        }
        assert(is_sep == seps@.contains(c));
        let ghost before = views(pieces@).push(cur@);
        assert(s@.take(i + 1).drop_last() =~= s@.take(i as int));
        assert(s@.take(i + 1).last() == c);
        if is_sep {
            let done = cur;
            pieces.push(done);
            cur = Vec::new();
            assert(views(pieces@).push(cur@) =~= before.push(Seq::<char>::empty()));
        } else {
            cur.push(c);
            assert(views(pieces@).push(cur@) =~= before.update(
                before.len() - 1,
                before.last().push(c),
            ));
        }
        i = i + 1;
    }
    assert(s@.take(s.len() as int) =~= s@);
    pieces.push(cur);
    assert(views(pieces@) =~= split_by(s@, sep));
    pieces
}

/// A terminated line without its final carriage return, if it has one.
pub open spec fn strip_cr(l: Seq<char>) -> Seq<char> {
    if l.len() > 0 && l.last() == '\r' {
        l.drop_last()
    } else {
        l
    }
}

/// The pieces of `s` between newline characters.
pub open spec fn newline_pieces(s: Seq<char>) -> Seq<Seq<char>> {
    split_by(s, |c: char| c == '\n')
}

/// Each of the lines without a final carriage return.
pub open spec fn strip_crs(p: Seq<Seq<char>>) -> Seq<Seq<char>> {
    p.map_values(|l: Seq<char>| strip_cr(l))
}

/// The lines of `s` as `str::lines` gives them: the text is cut at each
/// `\n`; a line that ended with `\n` also loses a final `\r`; the text after
/// the last `\n` is a line only if it is not empty.
pub open spec fn lines(s: Seq<char>) -> Seq<Seq<char>> {
    let p = newline_pieces(s);
    let terminated = strip_crs(p.drop_last());
    if p.last().len() > 0 {
        terminated.push(p.last())
    } else {
        terminated
    }
}

/// The lines of a text.
pub fn lines_of(s: &Vec<char>) -> (r: Vec<Vec<char>>)
    ensures
        views(r@) == lines(s@),
{
    let mut nl: Vec<char> = Vec::new();
    nl.push('\n');
    let pieces = split_chars(s, &nl);
    proof {
        assert forall|c: char| nl@.contains(c) == (c == '\n') by {
            if c == '\n' {
                assert(nl@[0] == c);
            }
        }
        assert(split_by(s@, |c: char| nl@.contains(c)) == newline_pieces(s@)) by {
            assert((|c: char| nl@.contains(c)) =~= (|c: char| c == '\n'));
        }
        lemma_split_by_nonempty(s@, |c: char| nl@.contains(c));
    }
    let ghost p = views(pieces@);
    assert(p == newline_pieces(s@));
    let n = pieces.len();
    let mut r: Vec<Vec<char>> = Vec::new();
    let mut i: usize = 0;
    while i + 1 < n
        invariant
            n == pieces.len(),
            n >= 1,
            p == views(pieces@),
            i + 1 <= n,
            views(r@) == strip_crs(p.take(i as int)),
        decreases n - i,
    {
        let piece = &pieces[i];
        let len = piece.len();
        let line = if len > 0 && piece[len - 1] == '\r' {
            sub_chars(piece, 0, len - 1)
        } else {
            sub_chars(piece, 0, len)
        };
        assert(line@ == strip_cr(p[i as int]));
        let ghost old_views = views(r@);
        r.push(line);
        assert(views(r@) =~= old_views.push(line@));
        assert(strip_crs(p.take(i + 1)) =~= strip_crs(p.take(i as int)).push(strip_cr(p[i as int])));
        assert(views(r@) =~= strip_crs(p.take(i + 1)));
        i = i + 1;
    }
    assert(p.take(i as int) =~= p.drop_last());
    let last = &pieces[n - 1];
    assert(p.last() == last@);
    assert(views(r@) == strip_crs(p.drop_last()));
    if last.len() > 0 {
        let copy = sub_chars(last, 0, last.len());
        assert(copy@ =~= last@);
        let ghost old_views = views(r@);
        r.push(copy);
        assert(views(r@) =~= old_views.push(copy@));
        assert(views(r@) =~= lines(s@));
    } else {
        assert(views(r@) =~= lines(s@));
    }
    r
}

} // verus!
