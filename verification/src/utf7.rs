//! Folder names in the modified UTF-7 of IMAP.

use crate::text::chars_of;
use vstd::prelude::*;

verus! {

/// The position of the first `c` in `s`; the length of `s` where it has none.
pub open spec fn first_index(s: Seq<char>, c: char) -> nat
    decreases s.len(),
{
    if s.len() == 0 || s.first() == c {
        0
    } else {
        1 + first_index(s.drop_first(), c)
    }
}

/// The six bits that `c` stands for in the base64 of modified UTF-7, whose
/// last two digits are `+` and `,`.
pub open spec fn sextet(c: char) -> Option<u32> {
    if 'A' <= c <= 'Z' {
        Some((c as u32 - 'A' as u32) as u32)
    } else if 'a' <= c <= 'z' {
        Some((c as u32 - 'a' as u32 + 26) as u32)
    } else if '0' <= c <= '9' {
        Some((c as u32 - '0' as u32 + 52) as u32)
    } else if c == '+' {
        Some(62)
    } else if c == ',' {
        Some(63)
    } else {
        None
    }
}

/// `run` is base64 that decodes to whole bytes: only digits of the
/// alphabet, no single digit left over after the groups of four, and no bit
/// set in the last digit beyond the last whole byte.
pub open spec fn is_base64_run(run: Seq<char>) -> bool {
    &&& forall|i: int| 0 <= i < run.len() ==> sextet(#[trigger] run[i]) is Some
    &&& run.len() % 4 != 1
    &&& run.len() % 4 == 2 ==> sextet(run.last())->0 % 16 == 0
    &&& run.len() % 4 == 3 ==> sextet(run.last())->0 % 4 == 0
}

/// `name` is well-formed modified UTF-7: each shift, from an `&` to the next
/// `-`, is empty or holds base64 that decodes to whole bytes. An `&` with no
/// `-` behind it shifts nothing.
pub open spec fn is_well_formed(name: Seq<char>) -> bool
    decreases name.len(),
{
    let amp = first_index(name, '&');
    if amp >= name.len() {
        true
    } else {
        let rest = name.skip(amp as int + 1);
        let dash = first_index(rest, '-');
        if dash >= rest.len() {
            true
        } else {
            &&& dash == 0 || is_base64_run(rest.take(dash as int))
            &&& is_well_formed(rest.skip(dash as int + 1))
        }
    }
}

/// What the utf7-imap crate decodes the folder name `name` to.
pub uninterp spec fn decoded_name(name: Seq<char>) -> Seq<char>;

/// `utf7_imap::decode_utf7_imap`. Claimed: the decoded name is a function
/// of the encoded one. The crate panics on a shift that is not base64; the
/// names admitted here have none.
#[verifier::external_body]
fn decode_utf7(name: &str) -> (r: String)
    requires
        is_well_formed(name@),
    ensures
        r@ == decoded_name(name@),
{
    utf7_imap::decode_utf7_imap(name.to_string())
}

/// The six bits that `c` stands for, if it is a digit of the alphabet.
pub fn sextet_of(c: char) -> (r: Option<u32>)
    ensures
        r == sextet(c),
{
    if 'A' <= c && c <= 'Z' {
        Some(c as u32 - 'A' as u32)
    } else if 'a' <= c && c <= 'z' {
        Some(c as u32 - 'a' as u32 + 26)
    } else if '0' <= c && c <= '9' {
        Some(c as u32 - '0' as u32 + 52)
    } else if c == '+' {
        Some(62)
    } else if c == ',' {
        Some(63)
    } else {
        None
    }
}

/// The position of the first `c` in `v` at or behind `from`; the length of
/// `v` where there is none.
pub(crate) fn find_from(v: &Vec<char>, c: char, from: usize) -> (at: usize)
    requires
        from <= v.len(),
    ensures
        from <= at <= v.len(),
        at - from == first_index(v@.skip(from as int), c),
{
    let mut at: usize = from;
    while at < v.len() && v[at] != c
        invariant
            from <= at <= v.len(),
            first_index(v@.skip(from as int), c) == (at - from) + first_index(
                v@.skip(at as int),
                c,
            ),
        decreases v.len() - at,
    {
        assert(v@.skip(at as int).drop_first() =~= v@.skip(at + 1));
        at += 1;
    }
    at
}

/// Tests whether the characters of `v` from `from` up to `to` are base64
/// that decodes to whole bytes.
pub(crate) fn base64_run(v: &Vec<char>, from: usize, to: usize) -> (ok: bool)
    requires
        from <= to <= v.len(),
    ensures
        ok == is_base64_run(v@.subrange(from as int, to as int)),
{
    let ghost run = v@.subrange(from as int, to as int);
    let mut at: usize = from;
    let mut last: u32 = 0;
    while at < to
        invariant
            from <= at <= to <= v.len(),
            run == v@.subrange(from as int, to as int),
            forall|i: int| 0 <= i < at - from ==> sextet(#[trigger] run[i]) is Some,
            at > from ==> sextet(run[at - from - 1]) == Some(last),
        decreases to - at,
    {
        match sextet_of(v[at]) {
            Some(bits) => {
                last = bits;
            },
            None => {
                assert(sextet(run[at - from]) is None);
                return false;
            },
        }
        at += 1;
    }
    let left = (to - from) % 4;
    left != 1 && (left != 2 || last % 16 == 0) && (left != 3 || last % 4 == 0)
}

/// Tests whether `name` is well-formed modified UTF-7.
pub fn well_formed(name: &str) -> (ok: bool)
    ensures
        ok == is_well_formed(name@),
{
    let v = chars_of(name);
    let mut at: usize = 0;
    assert(v@.skip(0) =~= v@);
    while at < v.len()
        invariant
            v@ == name@,
            at <= v.len(),
            is_well_formed(v@) == is_well_formed(v@.skip(at as int)),
        decreases v.len() - at,
    {
        let ghost here = v@.skip(at as int);
        let amp = find_from(&v, '&', at);
        if amp >= v.len() {
            return true;
        }
        let ghost rest = here.skip(amp - at + 1);
        assert(rest =~= v@.skip(amp + 1));
        let dash = find_from(&v, '-', amp + 1);
        if dash >= v.len() {
            return true;
        }
        assert(rest.take(dash - amp - 1) =~= v@.subrange(amp + 1, dash as int));
        assert(rest.skip(dash - amp - 1 + 1) =~= v@.skip(dash + 1));
        if dash > amp + 1 && !base64_run(&v, amp + 1, dash) {
            return false;
        }
        at = dash + 1;
    }
    true
}

/// The folder name that `encoded` stands for; `None` where `encoded` is not
/// well-formed modified UTF-7.
pub fn decode(encoded: &str) -> (r: Option<String>)
    ensures
        r is Some <==> is_well_formed(encoded@),
        r matches Some(name) ==> name@ == decoded_name(encoded@),
{
    if well_formed(encoded) {
        Some(decode_utf7(encoded))
    } else {
        None
    }
}

} // verus!
