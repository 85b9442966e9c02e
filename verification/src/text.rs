//! Operations on text, specified over sequences of characters.

use vstd::prelude::*;
use vstd::string::*;

verus! {

/// The characters of `s`, in order.
pub fn chars_of(s: &str) -> (v: Vec<char>)
    ensures
        v@ == s@,
{
    let mut v: Vec<char> = Vec::new();
    for c in it: s.chars()
        invariant
            it.seq() == s@,
            v@ == it.seq().take(it.index() as int),
    {
        v.push(c);
    }
    v
}

/// `needle` stands in `hay` at position `at`.
pub open spec fn occurs_at(hay: Seq<char>, needle: Seq<char>, at: int) -> bool {
    &&& 0 <= at
    &&& at + needle.len() <= hay.len()
    &&& hay.subrange(at, at + needle.len()) == needle
}

/// `needle` stands somewhere in `hay`. The empty text stands in every text.
pub open spec fn has_substring(hay: Seq<char>, needle: Seq<char>) -> bool {
    exists|at: int| occurs_at(hay, needle, at)
}

/// Tests whether `needle` stands in `hay` at position `at`.
pub(crate) fn matches_at(hay: &Vec<char>, needle: &Vec<char>, at: usize) -> (found: bool)
    requires
        at + needle.len() <= hay.len(),
    ensures
        found == occurs_at(hay@, needle@, at as int),
{
    let mut k: usize = 0;
    while k < needle.len()
        invariant
            at + needle.len() <= hay.len(),
            k <= needle.len(),
            forall|j: int| 0 <= j < k ==> hay@[at + j] == needle@[j],
        decreases needle.len() - k,
    {
        if hay[at + k] != needle[k] {
            assert(hay@.subrange(at as int, at + needle.len())[k as int] != needle@[k as int]);
            return false;
        }
        k += 1;
    }
    assert(hay@.subrange(at as int, at + needle.len()) =~= needle@);
    true
}

/// Tests whether `needle` stands somewhere in `hay`, character for character.
pub fn contains(hay: &str, needle: &str) -> (found: bool)
    ensures
        found == has_substring(hay@, needle@),
{
    let h = chars_of(hay);
    let n = chars_of(needle);
    if n.len() > h.len() {
        return false;
    }
    let last: usize = h.len() - n.len();
    let mut at: usize = 0;
    while at < last
        invariant
            last == h.len() - n.len(),
            n.len() <= h.len(),
            at <= last,
            h@ == hay@,
            n@ == needle@,
            forall|j: int| 0 <= j < at ==> !occurs_at(h@, n@, j),
        decreases last - at,
    {
        if matches_at(&h, &n, at) {
            return true;
        }
        at += 1;
    }
    matches_at(&h, &n, last)
}

/// The characters that Unicode gives the property White_Space.
pub open spec fn is_white_space(c: char) -> bool {
    let u = c as u32;
    ||| 0x09 <= u <= 0x0d
    ||| u == 0x20
    ||| u == 0x85
    ||| u == 0xa0
    ||| u == 0x1680
    ||| 0x2000 <= u <= 0x200a
    ||| u == 0x2028
    ||| u == 0x2029
    ||| u == 0x202f
    ||| u == 0x205f
    ||| u == 0x3000
}

/// Tests whether `c` has the property White_Space.
pub fn white_space(c: char) -> (b: bool)
    ensures
        b == is_white_space(c),
{
    let u: u32 = c as u32;
    (0x09 <= u && u <= 0x0d) || u == 0x20 || u == 0x85 || u == 0xa0 || u == 0x1680 || (0x2000 <= u
        && u <= 0x200a) || u == 0x2028 || u == 0x2029 || u == 0x202f || u == 0x205f || u == 0x3000
}

/// `s` without the white space at its start.
pub open spec fn trim_front(s: Seq<char>) -> Seq<char>
    decreases s.len(),
{
    if s.len() > 0 && is_white_space(s.first()) {
        trim_front(s.drop_first())
    } else {
        s
    }
}

/// `s` without the white space at its end.
pub open spec fn trim_back(s: Seq<char>) -> Seq<char>
    decreases s.len(),
{
    if s.len() > 0 && is_white_space(s.last()) {
        trim_back(s.drop_last())
    } else {
        s
    }
}

/// `s` without the white space at either end.
pub open spec fn trimmed(s: Seq<char>) -> Seq<char> {
    trim_back(trim_front(s))
}

/// The part of `v` between `from` and `to` without the white space at either
/// end, as a pair of positions.
pub(crate) fn trim_range(v: &Vec<char>, from: usize, to: usize) -> (r: (usize, usize))
    requires
        from <= to <= v.len(),
    ensures
        from <= r.0 <= r.1 <= to,
        v@.subrange(r.0 as int, r.1 as int) == trimmed(v@.subrange(from as int, to as int)),
{
    let mut a: usize = from;
    while a < to && white_space(v[a])
        invariant
            from <= a <= to <= v.len(),
            trim_front(v@.subrange(from as int, to as int)) == trim_front(
                v@.subrange(a as int, to as int),
            ),
        decreases to - a,
    {
        assert(v@.subrange(a as int, to as int).drop_first() =~= v@.subrange(a + 1, to as int));
        a += 1;
    }
    let mut b: usize = to;
    while b > a && white_space(v[b - 1])
        invariant
            a <= b <= to <= v.len(),
            trim_back(v@.subrange(a as int, to as int)) == trim_back(
                v@.subrange(a as int, b as int),
            ),
        decreases b,
    {
        assert(v@.subrange(a as int, b as int).drop_last() =~= v@.subrange(a as int, b - 1));
        b -= 1;
    }
    (a, b)
}

/// `s` without the white space at either end.
pub fn trim(s: &str) -> (r: String)
    ensures
        r@ == trimmed(s@),
{
    let v = chars_of(s);
    let (a, b) = trim_range(&v, 0, v.len());
    assert(v@.subrange(0, v.len() as int) =~= v@);
    s.substring_char(a, b).to_owned()
}

/// The pieces of `s` between the occurrences of `sep`. The empty text has
/// one empty piece; each separator starts a new piece, which is empty until
/// a character follows.
pub open spec fn split_on(s: Seq<char>, sep: char) -> Seq<Seq<char>>
    decreases s.len(),
{
    if s.len() == 0 {
        seq![Seq::<char>::empty()]
    } else {
        let before = split_on(s.drop_last(), sep);
        if s.last() == sep {
            before.push(Seq::<char>::empty())
        } else {
            before.drop_last().push(before.last().push(s.last()))
        }
    }
}

/// The views of the strings in `parts`.
pub open spec fn views_of(parts: Seq<String>) -> Seq<Seq<char>> {
    parts.map_values(|p: String| p@)
}

/// The pieces of `s` between the occurrences of `sep`, each without the white
/// space at either end.
pub open spec fn trimmed_pieces(s: Seq<char>, sep: char) -> Seq<Seq<char>> {
    split_on(s, sep).map_values(|p: Seq<char>| trimmed(p))
}

/// Splits `s` at each `sep` and trims every piece.
pub fn split_trimmed(s: &str, sep: char) -> (parts: Vec<String>)
    ensures
        views_of(parts@) == trimmed_pieces(s@, sep),
{
    let v = chars_of(s);
    let mut parts: Vec<String> = Vec::new();
    let mut start: usize = 0;
    let mut at: usize = 0;
    while at < v.len()
        invariant
            v@ == s@,
            start <= at <= v.len(),
            split_on(v@.take(at as int), sep).len() == parts.len() + 1,
            split_on(v@.take(at as int), sep).last() == v@.subrange(start as int, at as int),
            forall|k: int|
                0 <= k < parts.len() ==> (#[trigger] parts@[k])@ == trimmed(
                    split_on(v@.take(at as int), sep)[k],
                ),
        decreases v.len() - at,
    {
        assert(v@.take(at + 1).drop_last() =~= v@.take(at as int));
        if v[at] == sep {
            let (a, b) = trim_range(&v, start, at);
            parts.push(s.substring_char(a, b).to_owned());
            start = at + 1;
            assert(v@.subrange(start as int, start as int) =~= Seq::<char>::empty());
        } else {
            assert(v@.subrange(start as int, at as int).push(v@[at as int]) =~= v@.subrange(
                start as int,
                at + 1,
            ));
        }
        at += 1;
    }
    assert(v@.take(at as int) =~= v@);
    let (a, b) = trim_range(&v, start, at);
    parts.push(s.substring_char(a, b).to_owned());
    assert(views_of(parts@) =~= trimmed_pieces(s@, sep));
    parts
}

/// `parts` in a row with `sep` between each two neighbours.
pub open spec fn joined(parts: Seq<Seq<char>>, sep: Seq<char>) -> Seq<char>
    decreases parts.len(),
{
    if parts.len() == 0 {
        Seq::<char>::empty()
    } else if parts.len() == 1 {
        parts[0]
    } else {
        joined(parts.drop_last(), sep) + sep + parts.last()
    }
}

/// Joins `parts` with `sep` between each two neighbours.
pub fn join(parts: &Vec<String>, sep: &str) -> (r: String)
    ensures
        r@ == joined(views_of(parts@), sep@),
{
    let mut r = String::new();
    let mut at: usize = 0;
    while at < parts.len()
        invariant
            at <= parts.len(),
            r@ == joined(views_of(parts@).take(at as int), sep@),
        decreases parts.len() - at,
    {
        assert(views_of(parts@).take(at + 1).drop_last() =~= views_of(parts@).take(at as int));
        if at > 0 {
            r.append(sep);
        }
        r.append(parts[at].as_str());
        at += 1;
    }
    assert(views_of(parts@).take(at as int) =~= views_of(parts@));
    r
}

/// `String::push` of std: the string afterwards is the string before with
/// `ch` appended, as std documents.
pub assume_specification[ String::push ](s: &mut String, ch: char)
    ensures
        final(s)@ == old(s)@.push(ch),
;

/// The characters of `v` from `from` up to `to`, as a string.
pub(crate) fn text_of(v: &Vec<char>, from: usize, to: usize) -> (r: String)
    requires
        from <= to <= v.len(),
    ensures
        r@ == v@.subrange(from as int, to as int),
{
    let mut r = String::new();
    let mut at: usize = from;
    while at < to
        invariant
            from <= at <= to <= v.len(),
            r@ == v@.subrange(from as int, at as int),
        decreases to - at,
    {
        r.push(v[at]);
        assert(v@.subrange(from as int, at as int).push(v@[at as int]) =~= v@.subrange(
            from as int,
            at + 1,
        ));
        at += 1;
    }
    r
}

/// `s` without the occurrences of `c`.
pub open spec fn without_char(s: Seq<char>, c: char) -> Seq<char> {
    s.filter(|x: char| x != c)
}

/// Removes every occurrence of `c` from `s`.
pub fn remove_char(s: &str, c: char) -> (r: String)
    ensures
        r@ == without_char(s@, c),
{
    let v = chars_of(s);
    let mut r = String::new();
    let mut at: usize = 0;
    while at < v.len()
        invariant
            v@ == s@,
            at <= v.len(),
            r@ == without_char(v@.take(at as int), c),
        decreases v.len() - at,
    {
        assert(v@.take(at + 1).drop_last() =~= v@.take(at as int));
        reveal(Seq::filter);
        if v[at] != c {
            r.push(v[at]);
        }
        at += 1;
    }
    assert(v@.take(at as int) =~= v@);
    r
}

/// `s` without the occurrences of `pat`, found from the left, none
/// overlapping another. Nothing is removed for an empty `pat`.
pub open spec fn without_text(s: Seq<char>, pat: Seq<char>) -> Seq<char>
    decreases s.len(),
{
    if pat.len() == 0 || s.len() < pat.len() {
        s
    } else if s.take(pat.len() as int) == pat {
        without_text(s.skip(pat.len() as int), pat)
    } else {
        seq![s.first()] + without_text(s.drop_first(), pat)
    }
}

/// Removes every occurrence of `pat` from `s`, from the left.
pub fn remove_text(s: &str, pat: &str) -> (r: String)
    ensures
        r@ == without_text(s@, pat@),
{
    let v = chars_of(s);
    let p = chars_of(pat);
    if p.len() == 0 {
        return s.to_owned();
    }
    let mut r = String::new();
    let mut at: usize = 0;
    assert(v@.skip(0) =~= v@);
    assert(r@ + without_text(v@, p@) =~= without_text(v@, p@));
    while at < v.len() && v.len() - at >= p.len()
        invariant
            v@ == s@,
            p@ == pat@,
            p.len() > 0,
            at <= v.len(),
            r@ + without_text(v@.skip(at as int), p@) == without_text(v@, p@),
        decreases v.len() - at,
    {
        let ghost rest = v@.skip(at as int);
        assert(rest.take(p.len() as int) =~= v@.subrange(at as int, at + p.len()));
        if matches_at(&v, &p, at) {
            assert(rest.skip(p.len() as int) =~= v@.skip(at + p.len()));
            at += p.len();
        } else {
            assert(rest.drop_first() =~= v@.skip(at + 1));
            r.push(v[at]);
            assert((r@ + without_text(v@.skip(at + 1), p@)) =~= (r@.drop_last() + (seq![
                rest.first(),
            ] + without_text(rest.drop_first(), p@))));
            at += 1;
        }
    }
    while at < v.len()
        invariant
            v@ == s@,
            at <= v.len(),
            r@ + v@.skip(at as int) == without_text(v@, p@),
        decreases v.len() - at,
    {
        r.push(v[at]);
        assert((r@ + v@.skip(at + 1)) =~= (r@.drop_last() + v@.skip(at as int)));
        at += 1;
    }
    assert(v@.skip(at as int) =~= Seq::<char>::empty());
    assert(r@ + Seq::<char>::empty() =~= r@);
    r
}

/// `c` is one of the ten decimal digits of ASCII.
pub open spec fn is_digit(c: char) -> bool {
    '0' <= c <= '9'
}

/// The number that the decimal digits `s` write; 0 for the empty text.
pub open spec fn digits_value(s: Seq<char>) -> nat
    decreases s.len(),
{
    if s.len() == 0 {
        0
    } else {
        (digits_value(s.drop_last()) * 10 + (s.last() as u32 - '0' as u32)) as nat
    }
}

/// Every character of `s` is a decimal digit.
pub open spec fn all_digits(s: Seq<char>) -> bool {
    forall|i: int| 0 <= i < s.len() ==> is_digit(#[trigger] s[i])
}

/// What `s` writes as an unsigned number of 32 bits: an optional `+`, then one
/// or more decimal digits, whose value fits. Anything else writes none.
pub open spec fn decimal_u32(s: Seq<char>) -> Option<u32> {
    let digits = if s.len() > 0 && s[0] == '+' {
        s.skip(1)
    } else {
        s
    };
    if digits.len() > 0 && all_digits(digits) && digits_value(digits) <= u32::MAX {
        Some(digits_value(digits) as u32)
    } else {
        None
    }
}

/// A text of digits writes at least what any of its beginnings writes.
pub proof fn lemma_digits_value_grows(s: Seq<char>, n: int)
    requires
        0 <= n <= s.len(),
        all_digits(s),
    ensures
        digits_value(s.take(n)) <= digits_value(s),
    decreases s.len(),
{
    if n == s.len() {
        assert(s.take(n) =~= s);
    } else {
        assert(is_digit(s.last()));
        assert(s.drop_last().take(n) =~= s.take(n));
        lemma_digits_value_grows(s.drop_last(), n);
    }
}

/// Reads `s` as an unsigned decimal number of 32 bits.
pub fn parse_u32(s: &str) -> (r: Option<u32>)
    ensures
        r == decimal_u32(s@),
{
    let v = chars_of(s);
    let start: usize = if v.len() > 0 && v[0] == '+' {
        1
    } else {
        0
    };
    if start == v.len() {
        return None;
    }
    let ghost digits = v@.skip(start as int);
    assert(v@.skip(0) =~= v@);
    let mut value: u64 = 0;
    let mut at: usize = start;
    while at < v.len()
        invariant
            v@ == s@,
            start <= at <= v.len(),
            digits == v@.skip(start as int),
            digits.len() > 0,
            digits == if s@.len() > 0 && s@[0] == '+' {
                s@.skip(1)
            } else {
                s@
            },
            all_digits(digits.take(at - start)),
            value == digits_value(digits.take(at - start)),
            value <= u32::MAX,
        decreases v.len() - at,
    {
        let c = v[at];
        let ghost more = digits.take(at + 1 - start);
        assert(more.drop_last() =~= digits.take(at - start));
        assert(more.last() == c);
        if c < '0' || c > '9' {
            assert(!is_digit(digits[at - start]));
            return None;
        }
        assert forall|i: int| 0 <= i < more.len() implies is_digit(#[trigger] more[i]) by {
            if i < more.len() - 1 {
                assert(is_digit(digits.take(at - start)[i]));
            }
        }
        value = value * 10 + (c as u32 - '0' as u32) as u64;
        if value > u32::MAX as u64 {
            proof {
                if all_digits(digits) {
                    lemma_digits_value_grows(digits, at + 1 - start);
                }
            }
            return None;
        }
        at += 1;
    }
    assert(digits.take(at - start) =~= digits);
    Some(value as u32)
}

/// The code of `c`, with the capital letters of ASCII moved to the small ones.
pub open spec fn ascii_lower_code(c: char) -> u32 {
    if 'A' <= c <= 'Z' {
        (c as u32 + 32) as u32
    } else {
        c as u32
    }
}

/// `a` and `b` are the same text but for the case of the letters of ASCII.
pub open spec fn same_ignoring_ascii_case(a: Seq<char>, b: Seq<char>) -> bool {
    &&& a.len() == b.len()
    &&& forall|i: int|
        0 <= i < a.len() ==> ascii_lower_code(#[trigger] a[i]) == ascii_lower_code(b[i])
}

/// The code of `c`, with the capital letters of ASCII moved to the small ones.
pub fn lower_code(c: char) -> (u: u32)
    ensures
        u == ascii_lower_code(c),
{
    if 'A' <= c && c <= 'Z' {
        c as u32 + 32
    } else {
        c as u32
    }
}

/// Compares `a` and `b`, taking the letters of ASCII in either case.
pub fn eq_ignore_ascii_case(a: &str, b: &str) -> (same: bool)
    ensures
        same == same_ignoring_ascii_case(a@, b@),
{
    let x = chars_of(a);
    let y = chars_of(b);
    if x.len() != y.len() {
        return false;
    }
    let mut at: usize = 0;
    while at < x.len()
        invariant
            x@ == a@,
            y@ == b@,
            x.len() == y.len(),
            at <= x.len(),
            forall|i: int|
                0 <= i < at ==> ascii_lower_code(#[trigger] x@[i]) == ascii_lower_code(y@[i]),
        decreases x.len() - at,
    {
        if lower_code(x[at]) != lower_code(y[at]) {
            return false;
        }
        at += 1;
    }
    true
}

/// Tests whether `a` and `b` are the same text.
pub fn same_text(a: &str, b: &str) -> (same: bool)
    ensures
        same == (a@ == b@),
{
    let x = chars_of(a);
    let y = chars_of(b);
    if x.len() != y.len() {
        return false;
    }
    let mut at: usize = 0;
    while at < x.len()
        invariant
            x@ == a@,
            y@ == b@,
            x.len() == y.len(),
            at <= x.len(),
            forall|i: int| 0 <= i < at ==> x@[i] == y@[i],
        decreases x.len() - at,
    {
        if x[at] != y[at] {
            return false;
        }
        at += 1;
    }
    assert(x@ =~= y@);
    true
}

/// The decimal digit for `d`.
pub open spec fn digit_char(d: nat) -> char {
    ((d % 10) as u8 + 48u8) as char
}

/// `n` written in decimal digits, with no leading zero but for 0 itself.
pub open spec fn decimal_text(n: nat) -> Seq<char>
    decreases n,
{
    if n < 10 {
        seq![digit_char(n)]
    } else {
        decimal_text(n / 10).push(digit_char(n % 10))
    }
}

/// Writes `n` in decimal digits.
pub fn decimal(n: u32) -> (r: String)
    ensures
        r@ == decimal_text(n as nat),
{
    let mut digits: Vec<char> = Vec::new();
    let mut rest: u32 = n;
    while rest >= 10
        invariant
            decimal_text(n as nat) == decimal_text(rest as nat) + digits@.reverse(),
        decreases rest,
    {
        let d: u8 = (rest % 10) as u8;
        let ghost before = digits@;
        digits.push((d + 48u8) as char);
        assert(digits@.reverse() =~= seq![digit_char(rest as nat % 10)] + before.reverse());
        assert(decimal_text(rest as nat) + before.reverse() =~= decimal_text(rest as nat / 10)
            + digits@.reverse());
        rest = rest / 10;
    }
    let d: u8 = rest as u8;
    let mut r = String::new();
    r.push((d + 48u8) as char);
    let mut at: usize = digits.len();
    while at > 0
        invariant
            at <= digits.len(),
            r@ == decimal_text(rest as nat) + digits@.reverse().take(digits.len() - at),
        decreases at,
    {
        at -= 1;
        r.push(digits[at]);
        assert(digits@.reverse().take(digits.len() - at) =~= digits@.reverse().take(
            digits.len() - at - 1,
        ).push(digits@[at as int]));
    }
    assert(digits@.reverse().take(digits.len() as int) =~= digits@.reverse());
    r
}

/// How often `c` stands in `s`.
pub open spec fn count_of(s: Seq<char>, c: char) -> nat {
    s.filter(|x: char| x == c).len()
}

/// Counts how often `c` stands in `s`.
pub fn count_char(s: &str, c: char) -> (n: usize)
    ensures
        n == count_of(s@, c),
{
    let v = chars_of(s);
    let mut n: usize = 0;
    let mut at: usize = 0;
    while at < v.len()
        invariant
            v@ == s@,
            at <= v.len(),
            n <= at,
            n == count_of(v@.take(at as int), c),
        decreases v.len() - at,
    {
        assert(v@.take(at + 1).drop_last() =~= v@.take(at as int));
        reveal(Seq::filter);
        if v[at] == c {
            n += 1;
        }
        at += 1;
    }
    assert(v@.take(at as int) =~= v@);
    n
}

} // verus!
