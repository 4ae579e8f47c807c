//! Text primitives over Unicode scalar values.
//!
//! Every function is stated over `Seq<char>`, the view of `str` and `String`.

use vstd::prelude::*;
use vstd::string::*;

verus! {

/// The characters with the Unicode `White_Space` property.
pub open spec fn is_space(c: char) -> bool {
    let n = c as u32;
    ||| 9 <= n <= 13
    ||| n == 0x20
    ||| n == 0x85
    ||| n == 0xa0
    ||| n == 0x1680
    ||| 0x2000 <= n <= 0x200a
    ||| n == 0x2028
    ||| n == 0x2029
    ||| n == 0x202f
    ||| n == 0x205f
    ||| n == 0x3000
}

/// `s` without its leading white space.
pub open spec fn trim_start(s: Seq<char>) -> Seq<char>
    decreases s.len(),
{
    if s.len() > 0 && is_space(s[0]) {
        trim_start(s.drop_first())
    } else {
        s
    }
}

/// `s` without its trailing white space.
pub open spec fn trim_end(s: Seq<char>) -> Seq<char>
    decreases s.len(),
{
    if s.len() > 0 && is_space(s.last()) {
        trim_end(s.drop_last())
    } else {
        s
    }
}

/// `s` without white space at either end.
pub open spec fn trim(s: Seq<char>) -> Seq<char> {
    trim_end(trim_start(s))
}

/// `c` with `A` to `Z` folded to `a` to `z`.
pub open spec fn ascii_lower_char(c: char) -> char {
    if 'A' <= c <= 'Z' {
        ((c as u32) + 32) as char
    } else {
        c
    }
}

/// `c` with `a` to `z` folded to `A` to `Z`.
pub open spec fn ascii_upper_char(c: char) -> char {
    if 'a' <= c <= 'z' {
        ((c as u32) - 32) as char
    } else {
        c
    }
}

pub open spec fn ascii_lower(s: Seq<char>) -> Seq<char> {
    Seq::new(s.len(), |i: int| ascii_lower_char(s[i]))
}

pub open spec fn ascii_upper(s: Seq<char>) -> Seq<char> {
    Seq::new(s.len(), |i: int| ascii_upper_char(s[i]))
}

/// Equality up to the case of the letters `A` to `Z`.
pub open spec fn same_fold(a: Seq<char>, b: Seq<char>) -> bool {
    ascii_lower(a) == ascii_lower(b)
}

/// `p` occurs in `s` starting at `i`.
pub open spec fn occurs_at(s: Seq<char>, p: Seq<char>, i: int) -> bool {
    &&& 0 <= i
    &&& i + p.len() <= s.len()
    &&& s.subrange(i, i + p.len()) == p
}

/// `p` occurs somewhere in `s`.
pub open spec fn contains(s: Seq<char>, p: Seq<char>) -> bool {
    exists|i: int| occurs_at(s, p, i)
}

/// The position of the first `c` in `s`.
pub open spec fn find(s: Seq<char>, c: char) -> Option<int>
    decreases s.len(),
{
    if s.len() == 0 {
        None
    } else if s[0] == c {
        Some(0)
    } else {
        match find(s.drop_first(), c) {
            Some(i) => Some(i + 1),
            None => None,
        }
    }
}

/// The position of the last `c` in `s`.
pub open spec fn rfind(s: Seq<char>, c: char) -> Option<int>
    decreases s.len(),
{
    if s.len() == 0 {
        None
    } else if s.last() == c {
        Some(s.len() - 1)
    } else {
        rfind(s.drop_last(), c)
    }
}

/// What stands in `s` before the first `c`; all of `s` where there is none.
pub open spec fn before(s: Seq<char>, c: char) -> Seq<char> {
    match find(s, c) {
        Some(i) => s.take(i),
        None => s,
    }
}

/// The longest prefix of `s` without white space.
pub open spec fn word(s: Seq<char>) -> Seq<char>
    decreases s.len(),
{
    if s.len() == 0 || is_space(s[0]) {
        Seq::empty()
    } else {
        seq![s[0]] + word(s.drop_first())
    }
}

/// `s` with `p` taken off its front as often as it stands there.
pub open spec fn strip_all(s: Seq<char>, p: Seq<char>) -> Seq<char>
    decreases s.len(),
{
    if p.len() > 0 && p.is_prefix_of(s) {
        strip_all(s.skip(p.len() as int), p)
    } else {
        s
    }
}

/// The decimal digit of `n`, for `n < 10`.
pub open spec fn digit(n: nat) -> char {
    (48 + n) as char
}

/// `n` in decimal, without leading zeros.
pub open spec fn decimal(n: nat) -> Seq<char>
    decreases n,
{
    if n < 10 {
        seq![digit(n)]
    } else {
        decimal(n / 10).push(digit(n % 10))
    }
}

/// `i` in decimal, with a leading `-` where it is negative.
pub open spec fn signed_decimal(i: int) -> Seq<char> {
    if i < 0 {
        seq!['-'] + decimal((-i) as nat)
    } else {
        decimal(i as nat)
    }
}

/// `s` filled up with `0` at the front to at least `width` characters.
pub open spec fn zero_padded(s: Seq<char>, width: nat) -> Seq<char> {
    if s.len() >= width {
        s
    } else {
        Seq::new((width - s.len()) as nat, |i: int| '0') + s
    }
}

/// `parts` put together with `sep` between neighbours.
pub open spec fn joined(parts: Seq<Seq<char>>, sep: Seq<char>) -> Seq<char>
    decreases parts.len(),
{
    if parts.len() == 0 {
        Seq::empty()
    } else if parts.len() == 1 {
        parts[0]
    } else {
        joined(parts.drop_last(), sep) + sep + parts.last()
    }
}

/// The views of a sequence of strings.
pub open spec fn views(parts: Seq<String>) -> Seq<Seq<char>> {
    parts.map_values(|p: String| p@)
}

/// Appends one character: `String::push`.
pub assume_specification[ String::push ](s: &mut String, c: char)
    ensures
        final(s)@ == old(s)@.push(c),
;

/// The number of bytes in which UTF-8 encodes a character.
pub open spec fn width(c: char) -> nat {
    let n = c as u32;
    if n <= 0x7f {
        1
    } else if n <= 0x7ff {
        2
    } else if n <= 0xffff {
        3
    } else {
        4
    }
}

/// The number of bytes in which UTF-8 encodes a text.
pub open spec fn byte_len(s: Seq<char>) -> nat
    decreases s.len(),
{
    if s.len() == 0 {
        0
    } else {
        byte_len(s.drop_last()) + width(s.last())
    }
}

/// The position of the character that starts at byte `n`, or the length of `s` where `n` is its
/// last byte's end; none where `n` is inside a character or beyond the end.
pub open spec fn char_index(s: Seq<char>, n: int) -> Option<int>
    decreases s.len(),
{
    if n == byte_len(s) {
        Some(s.len() as int)
    } else if s.len() == 0 {
        None
    } else {
        char_index(s.drop_last(), n)
    }
}

/// `byte_len` is the length of the UTF-8 encoding.
pub proof fn lemma_byte_len(s: Seq<char>)
    ensures
        byte_len(s) == vstd::utf8::encode_utf8(s).len(),
    decreases s.len(),
{
    if s.len() > 0 {
        lemma_byte_len(s.drop_last());
        let c = s.last();
        vstd::utf8::char_is_scalar(c);
        assert(s =~= s.drop_last() + seq![c]);
        lemma_encode_concat(s.drop_last(), seq![c]);
        assert(seq![c].drop_first() =~= Seq::<char>::empty());
        assert(vstd::utf8::encode_utf8(Seq::<char>::empty()) =~= Seq::<u8>::empty());
        assert(vstd::utf8::encode_utf8(seq![c]) =~= vstd::utf8::encode_scalar(c as u32));
    }
}

/// The encoding of two texts in a row is that of the first, and that of the second.
proof fn lemma_encode_concat(a: Seq<char>, b: Seq<char>)
    ensures
        vstd::utf8::encode_utf8(a + b) == vstd::utf8::encode_utf8(a) + vstd::utf8::encode_utf8(b),
    decreases a.len(),
{
    if a.len() == 0 {
        assert(a + b =~= b);
        assert(vstd::utf8::encode_utf8(a) + vstd::utf8::encode_utf8(b)
            =~= vstd::utf8::encode_utf8(b));
    } else {
        let first = vstd::utf8::encode_scalar(a[0] as u32);
        let rest = vstd::utf8::encode_utf8(a.drop_first());
        assert((a + b).drop_first() =~= a.drop_first() + b);
        lemma_encode_concat(a.drop_first(), b);
        assert(first + (rest + vstd::utf8::encode_utf8(b)) =~= first + rest
            + vstd::utf8::encode_utf8(b));
    }
}

/// A longer prefix has a longer encoding.
pub proof fn lemma_byte_len_prefix(s: Seq<char>, i: int, j: int)
    requires
        0 <= i <= j <= s.len(),
    ensures
        byte_len(s.take(i)) + (j - i) <= byte_len(s.take(j)),
    decreases j - i,
{
    if i < j {
        lemma_byte_len_prefix(s, i, j - 1);
        assert(s.take(j).drop_last() =~= s.take(j - 1));
    }
}

/// The number of bytes in which UTF-8 encodes a character.
fn char_width(c: char) -> (r: usize)
    ensures
        r == width(c),
{
    let n: u32 = c as u32;
    if n <= 0x7f {
        1
    } else if n <= 0x7ff {
        2
    } else if n <= 0xffff {
        3
    } else {
        4
    }
}

/// The byte at which the character at `at` starts.
pub fn byte_offset(s: &str, at: usize) -> (r: usize)
    requires
        at <= s@.len(),
    ensures
        r == byte_len(s@.take(at as int)),
{
    let v = chars_of(s);
    let total: usize = s.as_bytes().len();
    proof {
        lemma_byte_len(s@);
    }
    let mut offset: usize = 0;
    let mut i: usize = 0;
    while i < at
        invariant
            i <= at <= v.len(),
            v@ == s@,
            total == byte_len(s@),
            offset == byte_len(s@.take(i as int)),
        decreases at - i,
    {
        proof {
            assert(s@.take(i + 1).drop_last() =~= s@.take(i as int));
            assert(s@.take(s@.len() as int) =~= s@);
            lemma_byte_len_prefix(s@, i + 1, s@.len() as int);
        }
        offset = offset + char_width(v[i]);
        i = i + 1;
    }
    offset
}

/// The position of the character that starts at byte `n`.
pub fn char_at_byte(s: &str, n: usize) -> (r: Option<usize>)
    ensures
        match r {
            Some(k) => k <= s@.len() && char_index(s@, n as int) == Some(k as int),
            None => char_index(s@, n as int) is None,
        },
{
    let v = chars_of(s);
    let total: usize = s.as_bytes().len();
    proof {
        lemma_byte_len(s@);
    }
    let mut offset: usize = total;
    let mut i: usize = v.len();
    assert(s@.take(i as int) =~= s@);
    loop
        invariant
            i <= v.len(),
            v@ == s@,
            offset == byte_len(s@.take(i as int)),
            char_index(s@, n as int) == char_index(s@.take(i as int), n as int),
        decreases i,
    {
        if offset == n {
            return Some(i);
        }
        if i == 0 {
            return None;
        }
        assert(s@.take(i as int).drop_last() =~= s@.take(i - 1));
        i = i - 1;
        offset = offset - char_width(v[i]);
    }
}

/// What `str::to_uppercase` makes of a text.
pub uninterp spec fn upper_text(s: Seq<char>) -> Seq<char>;

/// Every character is an ASCII character.
pub open spec fn all_ascii(s: Seq<char>) -> bool {
    forall|i: int| 0 <= i < s.len() ==> (#[trigger] s[i] as u32) < 128
}

/// Puts a text in upper case: `str::to_uppercase`. The result depends on the text alone; of an
/// ASCII text the letters `a` to `z` are folded and nothing else changes.
#[verifier::external_body]
pub(crate) fn to_upper(s: &str) -> (r: String)
    ensures
        r@ == upper_text(s@),
        all_ascii(s@) ==> r@ == ascii_upper(s@),
{
    s.to_uppercase()
}

pub fn whitespace(c: char) -> (r: bool)
    ensures
        r == is_space(c),
{
    let n: u32 = c as u32;
    (9 <= n && n <= 13) || n == 0x20 || n == 0x85 || n == 0xa0 || n == 0x1680 || (0x2000 <= n && n
        <= 0x200a) || n == 0x2028 || n == 0x2029 || n == 0x202f || n == 0x205f || n == 0x3000
}

/// The characters of `s`, in order.
pub fn chars_of(s: &str) -> (r: Vec<char>)
    ensures
        r@ == s@,
{
    let mut r: Vec<char> = Vec::new();
    for c in it: s.chars()
        invariant
            it.seq() == s@,
            r@ == s@.take(it.index() as int),
    {
        r.push(c);
    }
    r
}

pub fn lower_char(c: char) -> (r: char)
    ensures
        r == ascii_lower_char(c),
{
    let n: u32 = c as u32;
    if 65 <= n && n <= 90 {
        ((n + 32) as u8) as char
    } else {
        c
    }
}

pub fn upper_char(c: char) -> (r: char)
    ensures
        r == ascii_upper_char(c),
{
    let n: u32 = c as u32;
    if 97 <= n && n <= 122 {
        ((n - 32) as u8) as char
    } else {
        c
    }
}


/// Trimming at the front keeps a suffix, and drops nothing but white space.
pub proof fn lemma_trim_start(s: Seq<char>)
    ensures
        exists|k: int|
            0 <= k <= s.len() && #[trigger] s.skip(k) == trim_start(s) && (forall|j: int|
                0 <= j < k ==> is_space(#[trigger] s[j])) && (k < s.len() ==> !is_space(s[k])),
    decreases s.len(),
{
    if s.len() > 0 && is_space(s[0]) {
        let t = s.drop_first();
        lemma_trim_start(t);
        let k = choose|k: int|
            0 <= k <= t.len() && #[trigger] t.skip(k) == trim_start(t) && (forall|j: int|
                0 <= j < k ==> is_space(#[trigger] t[j])) && (k < t.len() ==> !is_space(t[k]));
        assert(s.skip(k + 1) == t.skip(k));
        assert forall|j: int| 0 <= j < k + 1 implies is_space(#[trigger] s[j]) by {
            if j > 0 {
                assert(s[j] == t[j - 1]);
            }
        }
        assert(k + 1 < s.len() ==> s[k + 1] == t[k]);
    } else {
        assert(s.skip(0) == s);
    }
}

/// Trimming at the back keeps a prefix, and drops nothing but white space.
pub proof fn lemma_trim_end(s: Seq<char>)
    ensures
        exists|k: int|
            0 <= k <= s.len() && #[trigger] s.take(k) == trim_end(s) && (forall|j: int|
                k <= j < s.len() ==> is_space(#[trigger] s[j])) && (k > 0 ==> !is_space(s[k - 1])),
    decreases s.len(),
{
    if s.len() > 0 && is_space(s.last()) {
        let t = s.drop_last();
        lemma_trim_end(t);
        let k = choose|k: int|
            0 <= k <= t.len() && #[trigger] t.take(k) == trim_end(t) && (forall|j: int|
                k <= j < t.len() ==> is_space(#[trigger] t[j])) && (k > 0 ==> !is_space(t[k - 1]));
        assert(s.take(k) == t.take(k));
        assert forall|j: int| k <= j < s.len() implies is_space(#[trigger] s[j]) by {
            if j < t.len() {
                assert(s[j] == t[j]);
            }
        }
        assert(k > 0 ==> s[k - 1] == t[k - 1]);
    } else {
        assert(s.take(s.len() as int) == s);
    }
}

pub fn trimmed_start<'a>(s: &'a str) -> (r: &'a str)
    ensures
        r@ == trim_start(s@),
{
    let v = chars_of(s);
    let mut i: usize = 0;
    assert(s@.skip(0) == s@);
    while i < v.len() && whitespace(v[i])
        invariant
            v@ == s@,
            i <= v.len(),
            trim_start(s@) == trim_start(s@.skip(i as int)),
        decreases v.len() - i,
    {
        assert(s@.skip(i as int).drop_first() == s@.skip(i + 1));
        i = i + 1;
    }
    assert(trim_start(s@.skip(i as int)) == s@.skip(i as int));
    assert(s@.skip(i as int) == s@.subrange(i as int, s@.len() as int));
    s.substring_char(i, v.len())
}

pub fn trimmed<'a>(s: &'a str) -> (r: &'a str)
    ensures
        r@ == trim(s@),
{
    let t = trimmed_start(s);
    let v = chars_of(t);
    let mut i: usize = v.len();
    assert(t@.take(i as int) == t@);
    while i > 0 && whitespace(v[i - 1])
        invariant
            v@ == t@,
            i <= v.len(),
            trim_end(t@) == trim_end(t@.take(i as int)),
        decreases i,
    {
        assert(t@.take(i as int).drop_last() == t@.take(i - 1));
        i = i - 1;
    }
    assert(trim_end(t@.take(i as int)) == t@.take(i as int));
    assert(t@.take(i as int) == t@.subrange(0, i as int));
    t.substring_char(0, i)
}

/// Whether two texts hold the same characters.
pub fn same_text(a: &str, b: &str) -> (r: bool)
    ensures
        r == (a@ == b@),
{
    let x = chars_of(a);
    let y = chars_of(b);
    if x.len() != y.len() {
        return false;
    }
    let mut i: usize = 0;
    while i < x.len()
        invariant
            x@ == a@,
            y@ == b@,
            x.len() == y.len(),
            i <= x.len(),
            forall|j: int| 0 <= j < i ==> x@[j] == y@[j],
        decreases x.len() - i,
    {
        if x[i] != y[i] {
            return false;
        }
        i = i + 1;
    }
    assert(a@ == b@);
    true
}

/// Whether two texts agree up to ASCII letter case.
pub fn same_ignoring_case(a: &str, b: &str) -> (r: bool)
    ensures
        r == same_fold(a@, b@),
{
    let x = chars_of(a);
    let y = chars_of(b);
    if x.len() != y.len() {
        assert(ascii_lower(a@).len() != ascii_lower(b@).len());
        return false;
    }
    let mut i: usize = 0;
    while i < x.len()
        invariant
            x@ == a@,
            y@ == b@,
            x.len() == y.len(),
            i <= x.len(),
            forall|j: int| 0 <= j < i ==> ascii_lower_char(x@[j]) == ascii_lower_char(y@[j]),
        decreases x.len() - i,
    {
        if lower_char(x[i]) != lower_char(y[i]) {
            assert(ascii_lower(a@)[i as int] != ascii_lower(b@)[i as int]);
            return false;
        }
        i = i + 1;
    }
    assert(ascii_lower(a@) == ascii_lower(b@));
    true
}

/// `s` with the letters `a` to `z` in upper case.
pub fn to_ascii_upper(s: &str) -> (r: String)
    ensures
        r@ == ascii_upper(s@),
{
    let v = chars_of(s);
    let mut r = String::new();
    let mut i: usize = 0;
    while i < v.len()
        invariant
            v@ == s@,
            i <= v.len(),
            r@ == ascii_upper(s@).take(i as int),
        decreases v.len() - i,
    {
        r.push(upper_char(v[i]));
        i = i + 1;
    }
    assert(r@ == ascii_upper(s@));
    r
}

/// Whether `p` occurs in `v` starting at `at`.
pub fn matches_at(v: &Vec<char>, p: &Vec<char>, at: usize) -> (r: bool)
    ensures
        r == occurs_at(v@, p@, at as int),
{
    if at > v.len() || p.len() > v.len() - at {
        return false;
    }
    let mut i: usize = 0;
    while i < p.len()
        invariant
            at <= v.len(),
            p.len() <= v.len() - at,
            i <= p.len(),
            forall|j: int| 0 <= j < i ==> v@[at + j] == p@[j],
        decreases p.len() - i,
    {
        if v[at + i] != p[i] {
            assert(v@.subrange(at as int, at + p@.len())[i as int] != p@[i as int]);
            return false;
        }
        i = i + 1;
    }
    assert(v@.subrange(at as int, at + p@.len()) == p@);
    true
}

pub fn starts_with(s: &str, p: &str) -> (r: bool)
    ensures
        r == p@.is_prefix_of(s@),
{
    let v = chars_of(s);
    let w = chars_of(p);
    let r = matches_at(&v, &w, 0);
    assert(r ==> s@.subrange(0, p@.len() as int) == p@);
    r
}

pub fn ends_with(s: &str, p: &str) -> (r: bool)
    ensures
        r == p@.is_suffix_of(s@),
{
    let v = chars_of(s);
    let w = chars_of(p);
    if w.len() > v.len() {
        return false;
    }
    let r = matches_at(&v, &w, v.len() - w.len());
    r
}

/// The first place at or after `from` where `p` occurs in `s`.
pub fn find_from(v: &Vec<char>, p: &Vec<char>, from: usize) -> (r: Option<usize>)
    ensures
        match r {
            Some(i) => from <= i && occurs_at(v@, p@, i as int) && (forall|j: int|
                from <= j < i ==> !occurs_at(v@, p@, j)),
            None => forall|j: int| from <= j ==> !occurs_at(v@, p@, j),
        },
{
    let mut i: usize = from;
    while i <= v.len()
        invariant
            from <= i,
            forall|j: int| from <= j < i ==> !occurs_at(v@, p@, j),
        decreases v.len() + 1 - i,
    {
        if matches_at(v, p, i) {
            return Some(i);
        }
        if i == v.len() {
            return None;
        }
        i = i + 1;
    }
    None
}

pub fn contains_text(s: &str, p: &str) -> (r: bool)
    ensures
        r == contains(s@, p@),
{
    let v = chars_of(s);
    let w = chars_of(p);
    match find_from(&v, &w, 0) {
        Some(_) => true,
        None => {
            assert forall|i: int| !occurs_at(s@, p@, i) by {
                if i >= 0 {
                    assert(!occurs_at(v@, w@, i));
                }
            }
            false
        },
    }
}

/// `find` is the least position that holds `c`.
pub proof fn lemma_find(s: Seq<char>, c: char)
    ensures
        match find(s, c) {
            Some(i) => 0 <= i < s.len() && s[i] == c && (forall|j: int| 0 <= j < i ==> s[j] != c),
            None => !s.contains(c),
        },
    decreases s.len(),
{
    if s.len() > 0 && s[0] != c {
        let t = s.drop_first();
        lemma_find(t, c);
        match find(t, c) {
            Some(k) => {
                assert forall|j: int| 0 <= j < k + 1 implies s[j] != c by {
                    if j > 0 {
                        assert(s[j] == t[j - 1]);
                    }
                }
            },
            None => {
                assert forall|j: int| 0 <= j < s.len() implies s[j] != c by {
                    if j > 0 {
                        assert(s[j] == t[j - 1]);
                    }
                }
            },
        }
    }
}

/// `rfind` is the greatest position that holds `c`.
pub proof fn lemma_rfind(s: Seq<char>, c: char)
    ensures
        match rfind(s, c) {
            Some(i) => 0 <= i < s.len() && s[i] == c && (forall|j: int|
                i < j < s.len() ==> s[j] != c),
            None => !s.contains(c),
        },
    decreases s.len(),
{
    if s.len() > 0 && s.last() != c {
        let t = s.drop_last();
        lemma_rfind(t, c);
        match rfind(t, c) {
            Some(k) => {
                assert(s[k] == t[k]);
                assert forall|j: int| k < j < s.len() implies s[j] != c by {
                    if j < t.len() {
                        assert(s[j] == t[j]);
                    }
                }
            },
            None => {
                assert forall|j: int| 0 <= j < s.len() implies s[j] != c by {
                    if j < t.len() {
                        assert(s[j] == t[j]);
                    }
                }
            },
        }
    }
}

/// The position of the first `c` in `s`, if it holds one.
pub fn find_char(s: &str, c: char) -> (r: Option<usize>)
    ensures
        match r {
            Some(i) => i < s@.len() && i < usize::MAX && find(s@, c) == Some(i as int),
            None => find(s@, c) is None,
        },
{
    let v = chars_of(s);
    let mut i: usize = 0;
    proof {
        lemma_find(s@, c);
    }
    while i < v.len()
        invariant
            v@ == s@,
            i <= v.len(),
            forall|j: int| 0 <= j < i ==> s@[j] != c,
            match find(s@, c) {
                Some(k) => 0 <= k < s@.len() && s@[k] == c && (forall|j: int|
                    0 <= j < k ==> s@[j] != c),
                None => !s@.contains(c),
            },
        decreases v.len() - i,
    {
        if v[i] == c {
            assert(s@.contains(c));
            return Some(i);
        }
        i = i + 1;
    }
    None
}

/// The position of the last `c` in `s`, if it holds one.
pub fn rfind_char(s: &str, c: char) -> (r: Option<usize>)
    ensures
        match r {
            Some(i) => i < s@.len() && i < usize::MAX && rfind(s@, c) == Some(i as int),
            None => rfind(s@, c) is None,
        },
{
    let v = chars_of(s);
    let mut i: usize = v.len();
    proof {
        lemma_rfind(s@, c);
    }
    while i > 0
        invariant
            v@ == s@,
            i <= v.len(),
            forall|j: int| i <= j < s@.len() ==> s@[j] != c,
            match rfind(s@, c) {
                Some(k) => 0 <= k < s@.len() && s@[k] == c && (forall|j: int|
                    k < j < s@.len() ==> s@[j] != c),
                None => !s@.contains(c),
            },
        decreases i,
    {
        i = i - 1;
        if v[i] == c {
            assert(s@.contains(c));
            return Some(i);
        }
    }
    None
}

/// The part of `s` before the first `c`.
pub fn before_char<'a>(s: &'a str, c: char) -> (r: &'a str)
    ensures
        r@ == before(s@, c),
{
    match find_char(s, c) {
        Some(i) => {
            assert(s@.take(i as int) == s@.subrange(0, i as int));
            s.substring_char(0, i)
        },
        None => s,
    }
}

/// The part of `s` from the character at `from` on.
pub fn tail<'a>(s: &'a str, from: usize) -> (r: &'a str)
    requires
        from <= s@.len(),
    ensures
        r@ == s@.skip(from as int),
{
    let n: usize = s.unicode_len();
    assert(s@.skip(from as int) == s@.subrange(from as int, n as int));
    s.substring_char(from, n)
}

/// The first `to` characters of `s`.
pub fn head<'a>(s: &'a str, to: usize) -> (r: &'a str)
    requires
        to <= s@.len(),
    ensures
        r@ == s@.take(to as int),
{
    assert(s@.take(to as int) == s@.subrange(0, to as int));
    s.substring_char(0, to)
}

/// `s` without `p` at its front, if it starts with it.
pub fn strip_prefix<'a>(s: &'a str, p: &str) -> (r: Option<&'a str>)
    ensures
        match r {
            Some(t) => p@.is_prefix_of(s@) && t@ == s@.skip(p@.len() as int),
            None => !p@.is_prefix_of(s@),
        },
{
    if starts_with(s, p) {
        let n: usize = p.unicode_len();
        Some(tail(s, n))
    } else {
        None
    }
}

/// The longest prefix of `s` without white space.
pub fn first_word<'a>(s: &'a str) -> (r: &'a str)
    ensures
        r@ == word(s@),
{
    let v = chars_of(s);
    let mut i: usize = 0;
    assert(s@.skip(0) == s@);
    assert(s@.take(0) + word(s@) == word(s@));
    while i < v.len() && !whitespace(v[i])
        invariant
            v@ == s@,
            i <= v.len(),
            word(s@) == s@.take(i as int) + word(s@.skip(i as int)),
        decreases v.len() - i,
    {
        assert(s@.skip(i as int).drop_first() == s@.skip(i + 1));
        assert(s@.take(i as int) + (seq![s@[i as int]] + word(s@.skip(i + 1))) == s@.take(i + 1)
            + word(s@.skip(i + 1)));
        i = i + 1;
    }
    assert(word(s@.skip(i as int)) == Seq::<char>::empty());
    assert(word(s@) == s@.take(i as int));
    head(s, i)
}

/// `s` with `p` taken off its front as often as it stands there.
pub fn strip_prefixes<'a>(s: &'a str, p: &str) -> (r: &'a str)
    ensures
        r@ == strip_all(s@, p@),
    decreases s@.len(),
{
    let n: usize = p.unicode_len();
    if n > 0 && starts_with(s, p) {
        strip_prefixes(tail(s, n), p)
    } else {
        s
    }
}

/// The digit character of `n`.
fn digit_char(n: u8) -> (r: char)
    requires
        n < 10,
    ensures
        r == digit(n as nat),
{
    (48 + n) as char
}

/// `n` in decimal.
pub fn decimal_text(n: u128) -> (r: String)
    ensures
        r@ == decimal(n as nat),
    decreases n,
{
    if n < 10 {
        let mut r = String::new();
        r.push(digit_char(n as u8));
        assert(r@ == seq![digit(n as nat)]);
        r
    } else {
        let mut r = decimal_text(n / 10);
        r.push(digit_char((n % 10) as u8));
        r
    }
}

/// `i` in decimal.
pub fn signed_decimal_text(i: i64) -> (r: String)
    ensures
        r@ == signed_decimal(i as int),
{
    if i < 0 {
        let n: u128 = (-(i as i128)) as u128;
        let mut r = String::new();
        r.push('-');
        r.append(decimal_text(n).as_str());
        assert(r@ == seq!['-'] + decimal((-i) as nat));
        r
    } else {
        decimal_text(i as u128)
    }
}

/// `s` filled up with `0` at the front to at least `width` characters.
pub fn zero_pad(s: &str, width: usize) -> (r: String)
    ensures
        r@ == zero_padded(s@, width as nat),
{
    let n: usize = s.unicode_len();
    if n >= width {
        return s.to_owned();
    }
    let mut r = String::new();
    let mut i: usize = 0;
    while i < width - n
        invariant
            n <= width,
            i <= width - n,
            r@ == Seq::new(i as nat, |j: int| '0'),
        decreases width - n - i,
    {
        r.push('0');
        assert(r@ == Seq::new((i + 1) as nat, |j: int| '0'));
        i = i + 1;
    }
    r.append(s);
    r
}

/// `parts` put together with `sep` between neighbours.
pub fn join(parts: &Vec<String>, sep: &str) -> (r: String)
    ensures
        r@ == joined(views(parts@), sep@),
{
    if parts.len() == 0 {
        return String::new();
    }
    let mut r = parts[0].clone();
    let mut i: usize = 1;
    assert(views(parts@).take(1) == seq![parts@[0]@]);
    while i < parts.len()
        invariant
            1 <= i <= parts.len(),
            r@ == joined(views(parts@).take(i as int), sep@),
        decreases parts.len() - i,
    {
        r.append(sep);
        r.append(parts[i].as_str());
        proof {
            let t = views(parts@).take(i + 1);
            assert(t.drop_last() == views(parts@).take(i as int));
            assert(t.last() == parts@[i as int]@);
        }
        i = i + 1;
    }
    assert(views(parts@).take(parts@.len() as int) == views(parts@));
    r
}

pub fn cat2(a: &str, b: &str) -> (r: String)
    ensures
        r@ == a@ + b@,
{
    let mut r = a.to_owned();
    r.append(b);
    r
}

pub fn cat3(a: &str, b: &str, c: &str) -> (r: String)
    ensures
        r@ == a@ + b@ + c@,
{
    let mut r = cat2(a, b);
    r.append(c);
    r
}

pub fn cat4(a: &str, b: &str, c: &str, d: &str) -> (r: String)
    ensures
        r@ == a@ + b@ + c@ + d@,
{
    let mut r = cat3(a, b, c);
    r.append(d);
    r
}

pub fn cat5(a: &str, b: &str, c: &str, d: &str, e: &str) -> (r: String)
    ensures
        r@ == a@ + b@ + c@ + d@ + e@,
{
    let mut r = cat4(a, b, c, d);
    r.append(e);
    r
}

pub fn cat6(a: &str, b: &str, c: &str, d: &str, e: &str, f: &str) -> (r: String)
    ensures
        r@ == a@ + b@ + c@ + d@ + e@ + f@,
{
    let mut r = cat5(a, b, c, d, e);
    r.append(f);
    r
}

pub fn cat7(a: &str, b: &str, c: &str, d: &str, e: &str, f: &str, g: &str) -> (r: String)
    ensures
        r@ == a@ + b@ + c@ + d@ + e@ + f@ + g@,
{
    let mut r = cat6(a, b, c, d, e, f);
    r.append(g);
    r
}

pub fn cat8(a: &str, b: &str, c: &str, d: &str, e: &str, f: &str, g: &str, h: &str) -> (r: String)
    ensures
        r@ == a@ + b@ + c@ + d@ + e@ + f@ + g@ + h@,
{
    let mut r = cat7(a, b, c, d, e, f, g);
    r.append(h);
    r
}

pub fn cat9(a: &str, b: &str, c: &str, d: &str, e: &str, f: &str, g: &str, h: &str, i: &str) -> (r: String)
    ensures
        r@ == a@ + b@ + c@ + d@ + e@ + f@ + g@ + h@ + i@,
{
    let mut r = cat8(a, b, c, d, e, f, g, h);
    r.append(i);
    r
}

/// In an ASCII text every character is one byte.
pub proof fn lemma_ascii_bytes(s: Seq<char>, n: int)
    requires
        all_ascii(s),
        0 <= n <= s.len(),
    ensures
        byte_len(s) == s.len(),
        char_index(s, n) == Some(n),
    decreases s.len(),
{
    if s.len() > 0 {
        let t = s.drop_last();
        assert forall|i: int| 0 <= i < t.len() implies (#[trigger] t[i] as u32) < 128 by {
            assert(t[i] == s[i]);
        }
        assert((s[s.len() - 1] as u32) < 128);
        lemma_ascii_bytes(t, if n <= t.len() {
            n
        } else {
            0
        });
    }
}

/// Trimming takes white space off both ends and nothing else: what is left neither starts nor ends
/// with white space, and stands in the text with white space alone around it.
pub proof fn law_trim_takes_the_outer_white_space(s: Seq<char>)
    ensures
        exists|i: int, j: int|
            0 <= i <= j <= s.len() && #[trigger] s.subrange(i, j) == trim(s) && (forall|k: int|
                0 <= k < i || j <= k < s.len() ==> is_space(#[trigger] s[k])),
        trim(s).len() > 0 ==> !is_space(trim(s)[0]) && !is_space(trim(s).last()),
{
    lemma_trim_start(s);
    let i = choose|k: int|
        0 <= k <= s.len() && #[trigger] s.skip(k) == trim_start(s) && (forall|j: int|
            0 <= j < k ==> is_space(#[trigger] s[j])) && (k < s.len() ==> !is_space(s[k]));
    let u = trim_start(s);
    lemma_trim_end(u);
    let m = choose|k: int|
        0 <= k <= u.len() && #[trigger] u.take(k) == trim_end(u) && (forall|j: int|
            k <= j < u.len() ==> is_space(#[trigger] u[j])) && (k > 0 ==> !is_space(u[k - 1]));
    let j = i + m;
    assert(s.subrange(i, j) =~= trim(s));
    assert forall|k: int| 0 <= k < i || j <= k < s.len() implies is_space(#[trigger] s[k]) by {
        if j <= k {
            assert(s[k] == u[k - i]);
        }
    }
    if trim(s).len() > 0 {
        assert(trim(s)[0] == s[i]);
        assert(trim(s).last() == u[m - 1]);
    }
}

/// Blanks, tabs and line ends are white space; letters, digits and the punctuation of a statement
/// are not.
pub proof fn law_white_space(c: char)
    ensures
        c == ' ' || c == '\t' || c == '\n' || c == '\r' ==> is_space(c),
        c == '\u{85}' || c == '\u{a0}' || c == '\u{2028}' || c == '\u{2029}' || c == '\u{3000}'
            ==> is_space(c),
        '!' <= c <= '~' ==> !is_space(c),
{
}

/// Folding changes the case of the letters `A` to `Z` and nothing else, position by position; two
/// texts are the same up to case where their letters are, whichever way they are folded.
pub proof fn law_folding_changes_letters_alone(s: Seq<char>, i: int)
    ensures
        ascii_lower(s).len() == s.len(),
        ascii_upper(s).len() == s.len(),
        0 <= i < s.len() && 'A' <= s[i] <= 'Z' ==> ascii_lower(s)[i] as u32 == s[i] as u32 + 32
            && ascii_upper(s)[i] == s[i],
        0 <= i < s.len() && 'a' <= s[i] <= 'z' ==> ascii_upper(s)[i] as u32 == s[i] as u32 - 32
            && ascii_lower(s)[i] == s[i],
        0 <= i < s.len() && !('A' <= s[i] <= 'Z') && !('a' <= s[i] <= 'z') ==> ascii_lower(s)[i]
            == s[i] && ascii_upper(s)[i] == s[i],
        ascii_lower(ascii_upper(s)) == ascii_lower(s),
        ascii_upper(ascii_lower(s)) == ascii_upper(s),
        same_fold(s, ascii_upper(s)),
        same_fold(s, ascii_lower(s)),
{
    assert forall|k: int| 0 <= k < s.len() implies ascii_lower(ascii_upper(s))[k]
        == #[trigger] ascii_lower(s)[k] && ascii_upper(ascii_lower(s))[k] == ascii_upper(s)[k]
        && ascii_lower(ascii_lower(s))[k] == ascii_lower(s)[k] by {}
    assert(ascii_lower(ascii_upper(s)) =~= ascii_lower(s));
    assert(ascii_upper(ascii_lower(s)) =~= ascii_upper(s));
    assert(ascii_lower(ascii_lower(s)) =~= ascii_lower(s));
}

/// The number that decimal digits stand for.
pub open spec fn digits_number(s: Seq<char>) -> int
    decreases s.len(),
{
    if s.len() == 0 {
        0
    } else {
        10 * digits_number(s.drop_last()) + (s.last() as int - '0' as int)
    }
}

/// A number in decimal is made of digits that stand for it, without leading zeros; a negative one
/// has a `-` before them.
pub proof fn law_decimals_stand_for_their_number(n: nat)
    ensures
        decimal(n).len() > 0,
        forall|i: int| 0 <= i < decimal(n).len() ==> '0' <= #[trigger] decimal(n)[i] <= '9',
        digits_number(decimal(n)) == n,
        n > 0 ==> decimal(n)[0] != '0',
        n == 0 ==> decimal(n) == seq!['0'],
        signed_decimal(n as int) == decimal(n),
        n > 0 ==> signed_decimal(-(n as int)) == seq!['-'] + decimal(n),
    decreases n,
{
    if n < 10 {
        assert(decimal(n).drop_last() =~= Seq::<char>::empty());
        assert(digits_number(Seq::<char>::empty()) == 0);
        assert(digit(n) as int == 48 + n);
    } else {
        law_decimals_stand_for_their_number(n / 10);
        let front = decimal(n / 10);
        assert(decimal(n).drop_last() =~= front);
        assert(digit(n % 10) as int == 48 + n % 10);
        assert forall|i: int| 0 <= i < decimal(n).len() implies '0' <= #[trigger] decimal(n)[i]
            <= '9' by {
            if i < front.len() {
                assert(decimal(n)[i] == front[i]);
            }
        }
        assert(decimal(n)[0] == front[0]);
    }
}

/// Filling up puts zeros before a text, and only as many as its width lacks.
pub proof fn law_padding_puts_zeros_before(s: Seq<char>, width: nat, i: int)
    ensures
        s.len() >= width ==> zero_padded(s, width) == s,
        s.len() < width ==> zero_padded(s, width).len() == width && zero_padded(s, width).skip(
            width - s.len(),
        ) == s,
        0 <= i < width - s.len() ==> zero_padded(s, width)[i] == '0',
{
    if s.len() < width {
        assert(zero_padded(s, width).skip(width - s.len()) =~= s);
    }
}

/// Every part stands in the joined text, in its order, with the separator between neighbours and
/// nowhere else.
pub proof fn law_joining_keeps_every_part(
    parts: Seq<Seq<char>>,
    part: Seq<char>,
    sep: Seq<char>,
)
    ensures
        joined(Seq::empty(), sep) == Seq::<char>::empty(),
        joined(seq![part], sep) == part,
        parts.len() > 0 ==> joined(parts.push(part), sep) == joined(parts, sep) + sep + part,
{
    assert(parts.push(part).drop_last() =~= parts);
}

/// A word is what stands before the first white space.
pub proof fn law_word_ends_at_white_space(s: Seq<char>)
    ensures
        word(s).is_prefix_of(s),
        forall|i: int| 0 <= i < word(s).len() ==> !is_space(#[trigger] word(s)[i]),
        word(s).len() < s.len() ==> is_space(s[word(s).len() as int]),
    decreases s.len(),
{
    if s.len() > 0 && !is_space(s[0]) {
        let t = s.drop_first();
        law_word_ends_at_white_space(t);
        let w = word(t);
        assert(word(s) =~= s.take(1 + w.len() as int)) by {
            assert(w =~= t.take(w.len() as int));
        }
        assert forall|i: int| 0 <= i < word(s).len() implies !is_space(#[trigger] word(s)[i]) by {
            if i > 0 {
                assert(word(s)[i] == w[i - 1]);
            }
        }
        if w.len() < t.len() {
            assert(t[w.len() as int] == s[1 + w.len() as int]);
        }
    } else {
        assert(word(s) =~= s.take(0));
    }
}

/// What stands before a character is all that stands before its first place; all of the text where
/// it has none.
pub proof fn law_before_ends_at_the_first(a: Seq<char>, c: char, b: Seq<char>)
    requires
        !a.contains(c),
    ensures
        before(a + seq![c] + b, c) == a,
        before(a, c) == a,
{
    let s = a + seq![c] + b;
    lemma_find(s, c);
    lemma_find(a, c);
    let n = a.len() as int;
    assert(s[n] == c);
    assert(s.contains(c));
    let k = find(s, c)->0;
    if k < n {
        assert(a[k] == s[k]);
    }
    if n < k {
        assert(s[n] != c);
    }
    assert(s.take(n) =~= a);
}

/// Stripping takes a text off the front as often as it stands there, and no more.
pub proof fn law_stripping_takes_the_front_off(p: Seq<char>, s: Seq<char>)
    requires
        p.len() > 0,
    ensures
        strip_all(p + s, p) == strip_all(s, p),
        !p.is_prefix_of(s) ==> strip_all(s, p) == s,
{
    let t = p + s;
    assert(t.subrange(0, p.len() as int) =~= p);
    assert(p.is_prefix_of(t));
    assert(t.skip(p.len() as int) =~= s);
}

/// A position is found again by the bytes that stand before it.
pub proof fn law_characters_are_found_by_their_bytes(s: Seq<char>, k: int)
    requires
        0 <= k <= s.len(),
    ensures
        char_index(s, byte_len(s.take(k)) as int) == Some(k),
    decreases s.len(),
{
    if k == s.len() {
        assert(s.take(k) =~= s);
    } else {
        let t = s.drop_last();
        law_characters_are_found_by_their_bytes(t, k);
        assert(t.take(k) =~= s.take(k));
        lemma_byte_len_prefix(s, k, s.len() as int);
        assert(s.take(s.len() as int) =~= s);
    }
}

} // verus!
