use vstd::prelude::*;

verus! {

/// Characters with the Unicode `White_Space` property.
pub open spec fn spec_is_whitespace(c: char) -> bool {
    let u = c as u32;
    (0x09 <= u <= 0x0D) || u == 0x20 || u == 0x85 || u == 0xA0 || u == 0x1680 || (0x2000 <= u
        <= 0x200A) || u == 0x2028 || u == 0x2029 || u == 0x202F || u == 0x205F || u == 0x3000
}

/// Whether `c` has the Unicode `White_Space` property (as
/// `char::is_whitespace`).
pub(crate) fn is_whitespace(c: char) -> (r: bool)
    ensures
        r == spec_is_whitespace(c),
{
    let u = c as u32;
    (0x09 <= u && u <= 0x0D) || u == 0x20 || u == 0x85 || u == 0xA0 || u == 0x1680 || (0x2000
        <= u && u <= 0x200A) || u == 0x2028 || u == 0x2029 || u == 0x202F || u == 0x205F || u
        == 0x3000
}

/// Trusted: `String::push`, which appends one character.
#[verifier::external_body]
pub(crate) fn push_char(s: &mut String, c: char)
    ensures
        final(s)@ == old(s)@.push(c),
{
    s.push(c)
}

/// Number of leading whitespace characters.
pub open spec fn leading_ws(s: Seq<char>) -> nat
    decreases s.len(),
{
    if s.len() > 0 && spec_is_whitespace(s[0]) {
        1 + leading_ws(s.drop_first())
    } else {
        0
    }
}

/// Number of trailing whitespace characters.
pub open spec fn trailing_ws(s: Seq<char>) -> nat
    decreases s.len(),
{
    if s.len() > 0 && spec_is_whitespace(s.last()) {
        1 + trailing_ws(s.drop_last())
    } else {
        0
    }
}

/// `s` without leading and trailing whitespace.
pub open spec fn spec_trim(s: Seq<char>) -> Seq<char> {
    if leading_ws(s) >= s.len() {
        Seq::empty()
    } else {
        s.subrange(leading_ws(s) as int, s.len() - trailing_ws(s))
    }
}

proof fn lemma_leading_ws_bound(s: Seq<char>)
    ensures
        leading_ws(s) <= s.len(),
    decreases s.len(),
{
    if s.len() > 0 && spec_is_whitespace(s[0]) {
        lemma_leading_ws_bound(s.drop_first());
    }
}

proof fn lemma_trailing_ws_bound(s: Seq<char>)
    ensures
        trailing_ws(s) <= s.len(),
        trailing_ws(s) < s.len() ==> !spec_is_whitespace(s[s.len() - 1 - trailing_ws(s)]),
    decreases s.len(),
{
    if s.len() > 0 && spec_is_whitespace(s.last()) {
        lemma_trailing_ws_bound(s.drop_last());
    }
}

/// The characters that remain after trimming are the middle of `s`: no
/// whitespace at either end.
pub proof fn lemma_trim_ends(s: Seq<char>)
    ensures
        spec_trim(s).len() > 0 ==> !spec_is_whitespace(spec_trim(s)[0]) && !spec_is_whitespace(
            spec_trim(s).last(),
        ),
        spec_trim(s).len() <= s.len(),
{
    lemma_leading_ws_bound(s);
    lemma_trailing_ws_bound(s);
    if leading_ws(s) < s.len() {
        lemma_leading_first_non_ws(s);
        lemma_trailing_after_leading(s);
        let t = spec_trim(s);
        assert(t[0] == s[leading_ws(s) as int]);
        assert(t.last() == s[s.len() - 1 - trailing_ws(s)]);
    }
}

proof fn lemma_leading_first_non_ws(s: Seq<char>)
    requires
        leading_ws(s) < s.len(),
    ensures
        !spec_is_whitespace(s[leading_ws(s) as int]),
        forall|j: int| 0 <= j < leading_ws(s) ==> spec_is_whitespace(s[j]),
    decreases s.len(),
{
    if s.len() > 0 && spec_is_whitespace(s[0]) {
        lemma_leading_first_non_ws(s.drop_first());
        assert forall|j: int| 0 <= j < leading_ws(s) implies spec_is_whitespace(s[j]) by {
            if j > 0 {
                assert(s.drop_first()[j - 1] == s[j]);
            }
        }
    }
}

proof fn lemma_trailing_after_leading(s: Seq<char>)
    requires
        leading_ws(s) < s.len(),
    ensures
        leading_ws(s) < s.len() - trailing_ws(s),
{
    lemma_leading_first_non_ws(s);
    lemma_trailing_ws_bound(s);
    lemma_trailing_ws_all(s);
    let k = leading_ws(s) as int;
    if k >= s.len() - trailing_ws(s) {
        assert(spec_is_whitespace(s[k]));
    }
}

proof fn lemma_trailing_ws_all(s: Seq<char>)
    ensures
        forall|j: int| s.len() - trailing_ws(s) <= j < s.len() ==> spec_is_whitespace(s[j]),
    decreases s.len(),
{
    if s.len() > 0 && spec_is_whitespace(s.last()) {
        lemma_trailing_ws_all(s.drop_last());
        lemma_trailing_ws_bound(s.drop_last());
        assert forall|j: int| s.len() - trailing_ws(s) <= j < s.len() implies spec_is_whitespace(
            s[j],
        ) by {
            if j < s.len() - 1 {
                assert(s.drop_last()[j] == s[j]);
            }
        }
    }
}

/// `s` without leading and trailing Unicode whitespace (as `str::trim`).
pub fn trim(s: &str) -> (r: &str)
    ensures
        r@ == spec_trim(s@),
{
    let n = s.unicode_len();
    let mut i: usize = 0;
    proof {
        assert(s@.skip(0) =~= s@);
    }
    while i < n && is_whitespace(s.get_char(i))
        invariant
            i <= n,
            n == s@.len(),
            leading_ws(s@) == i + leading_ws(s@.skip(i as int)),
        decreases n - i,
    {
        assert(s@.skip(i as int).drop_first() =~= s@.skip(i + 1));
        i = i + 1;
    }
    proof {
        if i < n {
            assert(s@.skip(i as int)[0] == s@[i as int]);
        }
    }
    if i == n {
        let r = s.substring_char(n, n);
        assert(r@ =~= Seq::<char>::empty());
        return r;
    }
    let mut j: usize = n;
    proof {
        assert(s@.take(n as int) =~= s@);
        lemma_trailing_after_leading(s@);
    }
    while j > i && is_whitespace(s.get_char(j - 1))
        invariant
            i < n,
            i <= j <= n,
            n == s@.len(),
            leading_ws(s@) == i,
            trailing_ws(s@) == (n - j) + trailing_ws(s@.take(j as int)),
            i < n - trailing_ws(s@),
        decreases j,
    {
        assert(s@.take(j as int).drop_last() =~= s@.take(j - 1));
        assert(s@.take(j as int).last() == s@[j - 1]);
        j = j - 1;
    }
    proof {
        if j > i {
            assert(s@.take(j as int).last() == s@[j - 1]);
        }
        lemma_trailing_ws_bound(s@.take(j as int));
    }
    s.substring_char(i, j)
}

/// ASCII letters turned to lower case; every other character unchanged.
pub open spec fn spec_ascii_lower(c: char) -> char {
    if 'A' <= c <= 'Z' {
        ((c as u32) + 32) as char
    } else {
        c
    }
}

/// Every character passed through `spec_ascii_lower`.
pub open spec fn spec_ascii_lowercase(s: Seq<char>) -> Seq<char> {
    s.map_values(|c: char| spec_ascii_lower(c))
}

/// One character in ASCII lower case (as `char::to_ascii_lowercase`).
pub fn ascii_lower(c: char) -> (r: char)
    ensures
        r == spec_ascii_lower(c),
{
    if 'A' <= c && c <= 'Z' {
        ((c as u8) + 32) as char
    } else {
        c
    }
}

/// A copy of `s` in ASCII lower case (as `str::to_ascii_lowercase`).
pub fn to_ascii_lowercase(s: &str) -> (r: String)
    ensures
        r@ == spec_ascii_lowercase(s@),
{
    let n = s.unicode_len();
    let mut out = String::new();
    let mut i: usize = 0;
    while i < n
        invariant
            i <= n,
            n == s@.len(),
            out@ == spec_ascii_lowercase(s@.take(i as int)),
        decreases n - i,
    {
        push_char(&mut out, ascii_lower(s.get_char(i)));
        assert(spec_ascii_lowercase(s@.take(i + 1)) =~= spec_ascii_lowercase(s@.take(i as int)).push(
            spec_ascii_lower(s@[i as int]),
        ));
        i = i + 1;
    }
    assert(s@.take(n as int) =~= s@);
    out
}

/// Whether two strings are equal once both are in ASCII lower case (as
/// `str::eq_ignore_ascii_case`).
pub fn eq_ignore_ascii_case(a: &str, b: &str) -> (r: bool)
    ensures
        r == (spec_ascii_lowercase(a@) == spec_ascii_lowercase(b@)),
{
    let n = a.unicode_len();
    let m = b.unicode_len();
    if n != m {
        assert(spec_ascii_lowercase(a@).len() != spec_ascii_lowercase(b@).len());
        return false;
    }
    let mut i: usize = 0;
    while i < n
        invariant
            i <= n,
            n == a@.len(),
            n == b@.len(),
            forall|j: int| 0 <= j < i ==> spec_ascii_lower(a@[j]) == spec_ascii_lower(b@[j]),
        decreases n - i,
    {
        if ascii_lower(a.get_char(i)) != ascii_lower(b.get_char(i)) {
            assert(spec_ascii_lowercase(a@)[i as int] != spec_ascii_lowercase(b@)[i as int]);
            return false;
        }
        i = i + 1;
    }
    assert(spec_ascii_lowercase(a@) =~= spec_ascii_lowercase(b@));
    true
}

/// `p` is the first position of `d` in `s`.
pub open spec fn is_first_index(s: Seq<char>, d: char, p: int) -> bool {
    0 <= p < s.len() && s[p] == d && forall|j: int| 0 <= j < p ==> s[j] != d
}

/// `p` is the last position of `d` in `s`.
pub open spec fn is_last_index(s: Seq<char>, d: char, p: int) -> bool {
    0 <= p < s.len() && s[p] == d && forall|j: int| p < j < s.len() ==> s[j] != d
}

/// `s` split around its first `d` (as `str::split_once` with a `char`).
pub open spec fn spec_split_once(s: Seq<char>, d: char) -> Option<(Seq<char>, Seq<char>)> {
    if s.contains(d) {
        let p = choose|p: int| is_first_index(s, d, p);
        Some((s.take(p), s.skip(p + 1)))
    } else {
        None
    }
}

/// `s` split around its last `d` (as `str::rsplit_once` with a `char`).
pub open spec fn spec_rsplit_once(s: Seq<char>, d: char) -> Option<(Seq<char>, Seq<char>)> {
    if s.contains(d) {
        let p = choose|p: int| is_last_index(s, d, p);
        Some((s.take(p), s.skip(p + 1)))
    } else {
        None
    }
}

proof fn lemma_first_index_unique(s: Seq<char>, d: char, p: int, q: int)
    requires
        is_first_index(s, d, p),
        is_first_index(s, d, q),
    ensures
        p == q,
{
    if p < q {
        assert(s[p] != d);
    } else if q < p {
        assert(s[q] != d);
    }
}

proof fn lemma_last_index_unique(s: Seq<char>, d: char, p: int, q: int)
    requires
        is_last_index(s, d, p),
        is_last_index(s, d, q),
    ensures
        p == q,
{
    if p < q {
        assert(s[q] != d);
    } else if q < p {
        assert(s[p] != d);
    }
}

/// Splits `s` around the first occurrence of `d`.
pub fn split_once(s: &str, d: char) -> (r: Option<(&str, &str)>)
    ensures
        match r {
            Some((a, b)) => spec_split_once(s@, d) == Some((a@, b@)),
            None => spec_split_once(s@, d) is None,
        },
{
    let n = s.unicode_len();
    let mut i: usize = 0;
    while i < n
        invariant
            i <= n,
            n == s@.len(),
            forall|j: int| 0 <= j < i ==> s@[j] != d,
        decreases n - i,
    {
        if s.get_char(i) == d {
            let ghost p = choose|p: int| is_first_index(s@, d, p);
            assert(is_first_index(s@, d, i as int));
            assert(s@.contains(d));
            proof {
                lemma_first_index_unique(s@, d, p, i as int);
            }
            let a = s.substring_char(0, i);
            let b = s.substring_char(i + 1, n);
            assert(a@ =~= s@.take(i as int));
            assert(b@ =~= s@.skip(i + 1));
            return Some((a, b));
        }
        i = i + 1;
    }
    assert(!s@.contains(d));
    None
}

/// Splits `s` around the last occurrence of `d`.
pub fn rsplit_once(s: &str, d: char) -> (r: Option<(&str, &str)>)
    ensures
        match r {
            Some((a, b)) => spec_rsplit_once(s@, d) == Some((a@, b@)),
            None => spec_rsplit_once(s@, d) is None,
        },
{
    let n = s.unicode_len();
    let mut i: usize = n;
    while i > 0
        invariant
            i <= n,
            n == s@.len(),
            forall|j: int| i <= j < n ==> s@[j] != d,
        decreases i,
    {
        if s.get_char(i - 1) == d {
            let k = i - 1;
            let ghost p = choose|p: int| is_last_index(s@, d, p);
            assert(is_last_index(s@, d, k as int));
            assert(s@.contains(d));
            proof {
                lemma_last_index_unique(s@, d, p, k as int);
            }
            let a = s.substring_char(0, k);
            let b = s.substring_char(k + 1, n);
            assert(a@ =~= s@.take(k as int));
            assert(b@ =~= s@.skip(k + 1));
            return Some((a, b));
        }
        i = i - 1;
    }
    assert(!s@.contains(d));
    None
}

/// The decimal digit character for `d` < 10.
pub open spec fn digit_char(d: nat) -> char {
    ((d + 48) as u8) as char
}

/// The value of an ASCII decimal digit.
pub open spec fn digit_value(c: char) -> nat {
    ((c as u32) - 48) as nat
}

pub open spec fn is_digit(c: char) -> bool {
    '0' <= c <= '9'
}

/// Decimal representation of `n` without leading zeros.
pub open spec fn spec_decimal(n: nat) -> Seq<char>
    decreases n,
{
    if n < 10 {
        seq![digit_char(n)]
    } else {
        spec_decimal(n / 10).push(digit_char(n % 10))
    }
}

/// The value of a string of decimal digits.
pub open spec fn digits_value(s: Seq<char>) -> nat
    decreases s.len(),
{
    if s.len() == 0 {
        0
    } else {
        digits_value(s.drop_last()) * 10 + digit_value(s.last())
    }
}

/// Every character of `d` is an ASCII digit.
pub open spec fn all_digits(d: Seq<char>) -> bool {
    forall|i: int| 0 <= i < d.len() ==> is_digit(#[trigger] d[i])
}

/// `u32` parsing as `str::parse::<u32>` documents it: an optional `+`
/// followed by one or more ASCII digits whose value fits in a `u32`.
pub open spec fn spec_parse_u32(s: Seq<char>) -> Option<u32> {
    let d = if s.len() > 0 && s[0] == '+' {
        s.drop_first()
    } else {
        s
    };
    if d.len() == 0 || !all_digits(d) {
        None
    } else if digits_value(d) > u32::MAX {
        None
    } else {
        Some(digits_value(d) as u32)
    }
}

proof fn lemma_digits_value_monotone(s: Seq<char>, k: int)
    requires
        0 <= k <= s.len(),
        forall|i: int| 0 <= i < s.len() ==> is_digit(#[trigger] s[i]),
    ensures
        digits_value(s.take(k)) <= digits_value(s),
    decreases s.len() - k,
{
    if k < s.len() {
        assert(s.take(k + 1).drop_last() =~= s.take(k));
        lemma_digits_value_monotone(s, k + 1);
    } else {
        assert(s.take(k) =~= s);
    }
}

/// Parses an unsigned decimal number (as `str::parse::<u32>`).
pub fn parse_u32(s: &str) -> (r: Option<u32>)
    ensures
        r == spec_parse_u32(s@),
{
    let n = s.unicode_len();
    let mut start: usize = 0;
    if n > 0 && s.get_char(0) == '+' {
        start = 1;
    }
    let ghost d = if s@.len() > 0 && s@[0] == '+' {
        s@.drop_first()
    } else {
        s@
    };
    assert(d =~= s@.skip(start as int));
    if start == n {
        return None;
    }
    let mut value: u64 = 0;
    let mut i: usize = start;
    while i < n
        invariant
            start <= i <= n,
            n == s@.len(),
            d == s@.skip(start as int),
            d == (if s@.len() > 0 && s@[0] == '+' {
                s@.drop_first()
            } else {
                s@
            }),
            forall|j: int| 0 <= j < i - start ==> is_digit(#[trigger] d[j]),
            value == digits_value(d.take(i - start)),
            value <= u32::MAX,
        decreases n - i,
    {
        let c = s.get_char(i);
        if !('0' <= c && c <= '9') {
            assert(d[i - start] == c);
            assert(!is_digit(d[i - start]));
            assert(!all_digits(d));
            return None;
        }
        let digit = (c as u32 - 48) as u64;
        proof {
            let t = d.take(i + 1 - start);
            assert(t.drop_last() =~= d.take(i - start));
            assert(t.last() == c);
        }
        value = value * 10 + digit;
        assert(value == digits_value(d.take(i + 1 - start)));
        i = i + 1;
        if value > 0xFFFF_FFFF {
            proof {
                if all_digits(d) {
                    lemma_digits_value_monotone(d, i - start);
                    assert(digits_value(d) > u32::MAX);
                }
            }
            return None;
        }
    }
    assert(d.take(n - start) =~= d);
    Some(value as u32)
}

/// The decimal representation of `n` (as `u128::to_string`).
pub fn decimal(n: u128) -> (r: String)
    ensures
        r@ == spec_decimal(n as nat),
    decreases n,
{
    if n < 10 {
        let mut s = String::new();
        push_char(&mut s, ((n as u8) + 48) as char);
        assert(s@ =~= seq![digit_char(n as nat)]);
        s
    } else {
        let mut s = decimal(n / 10);
        push_char(&mut s, (((n % 10) as u8) + 48) as char);
        s
    }
}

} // verus!
