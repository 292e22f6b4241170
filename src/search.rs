//! Searching byte and character sequences, and rendering numbers as text.
use vstd::prelude::*;
use vstd::std_specs::iter::IteratorSpec;

verus! {

broadcast use vstd::string::group_string_axioms;

/// `needle` stands in `hay` from index `i` on.
pub open spec fn occurs_at<A>(hay: Seq<A>, needle: Seq<A>, i: int) -> bool {
    0 <= i && i + needle.len() <= hay.len() && hay.subrange(i, i + needle.len()) == needle
}

/// `needle` stands somewhere in `hay`.
pub open spec fn occurs_in<A>(hay: Seq<A>, needle: Seq<A>) -> bool {
    exists|i: int| occurs_at(hay, needle, i)
}

/// The first index at or after `i` where `needle` stands in `hay`.
pub open spec fn first_from<A>(hay: Seq<A>, needle: Seq<A>, i: int) -> Option<int>
    decreases hay.len() + 1 - i,
{
    if i < 0 || i + needle.len() > hay.len() {
        None
    } else if occurs_at(hay, needle, i) {
        Some(i)
    } else {
        first_from(hay, needle, i + 1)
    }
}

/// The first index where `needle` stands in `hay`.
pub open spec fn first_occurrence<A>(hay: Seq<A>, needle: Seq<A>) -> Option<int> {
    first_from(hay, needle, 0)
}

/// How many times `needle` stands in `hay` from `i` on, counting matches
/// that do not overlap, leftmost first.
pub open spec fn count_from<A>(hay: Seq<A>, needle: Seq<A>, i: int) -> nat
    decreases hay.len() - i,
{
    if i < 0 || needle.len() == 0 || i + needle.len() > hay.len() {
        0
    } else if occurs_at(hay, needle, i) {
        1 + count_from(hay, needle, i + needle.len())
    } else {
        count_from(hay, needle, i + 1)
    }
}

/// The last index before `end` that holds `x`.
pub open spec fn last_before<A>(s: Seq<A>, x: A, end: int) -> Option<int>
    decreases end,
{
    if end <= 0 {
        None
    } else if s[end - 1] == x {
        Some(end - 1)
    } else {
        last_before(s, x, end - 1)
    }
}

/// The decimal digits of `n`, most significant first, without leading zeros.
pub open spec fn decimal(n: nat) -> Seq<u8>
    decreases n,
{
    if n < 10 {
        seq![(48 + n) as u8]
    } else {
        decimal(n / 10).push((48 + n % 10) as u8)
    }
}

/// The bytes of the code points of `s`, each cut to its low byte; for ASCII
/// text these are its UTF-8 bytes.
pub open spec fn ascii_of(s: Seq<char>) -> Seq<u8> {
    s.map_values(|c: char| c as u8)
}

proof fn lemma_first_from_found<A>(hay: Seq<A>, needle: Seq<A>, i: int)
    requires
        first_from(hay, needle, i) is Some,
    ensures
        occurs_at(hay, needle, first_from(hay, needle, i)->0),
    decreases hay.len() + 1 - i,
{
    if !occurs_at(hay, needle, i) {
        lemma_first_from_found(hay, needle, i + 1);
    }
}

/// A found index is an occurrence, and a missing one means there is none.
pub proof fn lemma_first_occurrence(hay: Seq<u8>, needle: Seq<u8>)
    ensures
        first_occurrence(hay, needle) is Some ==> occurs_at(
            hay,
            needle,
            first_occurrence(hay, needle)->0,
        ),
        first_occurrence(hay, needle) is None ==> !occurs_in(hay, needle),
{
    if first_occurrence(hay, needle) is Some {
        lemma_first_from_found(hay, needle, 0);
    } else {
        lemma_first_from_none(hay, needle, 0);
    }
}

proof fn lemma_first_from_none<A>(hay: Seq<A>, needle: Seq<A>, i: int)
    requires
        0 <= i,
        first_from(hay, needle, i) is None,
    ensures
        forall|j: int| i <= j ==> !occurs_at(hay, needle, j),
    decreases hay.len() + 1 - i,
{
    if i + needle.len() <= hay.len() {
        lemma_first_from_none(hay, needle, i + 1);
    }
}

/// Whether `needle` stands in `hay` at index `i`.
pub fn matches_at_u8(hay: &[u8], needle: &[u8], i: usize) -> (r: bool)
    requires
        i + needle@.len() <= hay@.len(),
    ensures
        r == occurs_at(hay@, needle@, i as int),
{
    let hay_len = hay.len();
    let mut k: usize = 0;
    while k < needle.len()
        invariant
            hay_len == hay@.len(),
            i + needle@.len() <= hay@.len(),
            k <= needle@.len(),
            forall|j: int| 0 <= j < k ==> hay@[i + j] == needle@[j],
        decreases needle@.len() - k,
    {
        if hay[i + k] != needle[k] {
            assert(hay@.subrange(i as int, i + needle@.len())[k as int] != needle@[k as int]);
            return false;
        }
        k = k + 1;
    }
    assert(hay@.subrange(i as int, i + needle@.len()) =~= needle@);
    true
}

/// Whether `needle` stands in `hay` at index `i`. (vstd gives `char` no
/// `PartialEq` specification, so the byte version cannot be made generic.)
fn matches_at_char(hay: &[char], needle: &[char], i: usize) -> (r: bool)
    requires
        i + needle@.len() <= hay@.len(),
    ensures
        r == occurs_at(hay@, needle@, i as int),
{
    let hay_len = hay.len();
    let mut k: usize = 0;
    while k < needle.len()
        invariant
            hay_len == hay@.len(),
            i + needle@.len() <= hay@.len(),
            k <= needle@.len(),
            forall|j: int| 0 <= j < k ==> hay@[i + j] == needle@[j],
        decreases needle@.len() - k,
    {
        if hay[i + k] != needle[k] {
            assert(hay@.subrange(i as int, i + needle@.len())[k as int] != needle@[k as int]);
            return false;
        }
        k = k + 1;
    }
    assert(hay@.subrange(i as int, i + needle@.len()) =~= needle@);
    true
}

/// The first index where `needle` stands in `hay`.
pub fn find_bytes(hay: &[u8], needle: &[u8]) -> (r: Option<usize>)
    ensures
        r matches Some(i) ==> first_occurrence(hay@, needle@) == Some(i as int),
        r is None ==> first_occurrence(hay@, needle@) is None,
{
    if needle.len() > hay.len() {
        return None;
    }
    let last: usize = hay.len() - needle.len();
    let mut i: usize = 0;
    loop
        invariant
            last + needle@.len() == hay@.len(),
            i <= last,
            first_from(hay@, needle@, 0) == first_from(hay@, needle@, i as int),
        decreases last - i,
    {
        if matches_at_u8(hay, needle, i) {
            return Some(i);
        }
        if i == last {
            return None;
        }
        i = i + 1;
    }
}

/// Whether `needle` stands anywhere in `hay`.
pub fn contains_bytes(hay: &[u8], needle: &[u8]) -> (r: bool)
    ensures
        r == occurs_in(hay@, needle@),
{
    proof {
        lemma_first_occurrence(hay@, needle@);
    }
    find_bytes(hay, needle).is_some()
}

/// Whether `needle` stands anywhere in `hay`.
pub fn contains_chars(hay: &[char], needle: &[char]) -> (r: bool)
    ensures
        r == occurs_in(hay@, needle@),
{
    if needle.len() > hay.len() {
        return false;
    }
    let last: usize = hay.len() - needle.len();
    let mut i: usize = 0;
    loop
        invariant
            last + needle@.len() == hay@.len(),
            i <= last,
            forall|j: int| 0 <= j < i ==> !occurs_at(hay@, needle@, j),
        decreases last - i,
    {
        if matches_at_char(hay, needle, i) {
            return true;
        }
        if i == last {
            assert forall|j: int| occurs_at(hay@, needle@, j) implies j < i + 1 by {}
            return false;
        }
        i = i + 1;
    }
}

/// How many times `needle` stands in `hay`, counting matches that do not
/// overlap, leftmost first.
pub fn count_chars(hay: &[char], needle: &[char]) -> (r: usize)
    requires
        needle@.len() > 0,
    ensures
        r == count_from(hay@, needle@, 0),
{
    let mut i: usize = 0;
    let mut n: usize = 0;
    while i <= hay.len() && needle.len() <= hay.len() - i
        invariant
            needle@.len() > 0,
            i <= hay@.len(),
            n <= i,
            n + count_from(hay@, needle@, i as int) == count_from(hay@, needle@, 0),
        decreases hay@.len() - i,
    {
        if matches_at_char(hay, needle, i) {
            n = n + 1;
            i = i + needle.len();
        } else {
            i = i + 1;
        }
    }
    n
}

/// The last index before `end` that holds `x`.
pub fn last_index_before(s: &[u8], x: u8, end: usize) -> (r: Option<usize>)
    requires
        end <= s@.len(),
    ensures
        r matches Some(i) ==> last_before(s@, x, end as int) == Some(i as int) && i < end,
        r is None ==> last_before(s@, x, end as int) is None,
{
    let mut k: usize = end;
    while k > 0
        invariant
            k <= end <= s@.len(),
            last_before(s@, x, end as int) == last_before(s@, x, k as int),
        decreases k,
    {
        if s[k - 1] == x {
            return Some(k - 1);
        }
        k = k - 1;
    }
    None
}

/// The decimal digits of `n`.
pub fn decimal_bytes(n: u64) -> (r: Vec<u8>)
    ensures
        r@ == decimal(n as nat),
    decreases n,
{
    if n < 10 {
        vec![(48 + n) as u8]
    } else {
        let mut v = decimal_bytes(n / 10);
        v.push((48 + n % 10) as u8);
        v
    }
}

/// The characters of `s`, in order.
pub fn chars_of(s: &str) -> (r: Vec<char>)
    ensures
        r@ == s@,
{
    let mut it = s.chars();
    let mut v: Vec<char> = Vec::new();
    loop
        invariant
            v@ + it.remaining() == s@,
            it.obeys_prophetic_iter_laws(),
            it.decrease() is Some,
        decreases it.decrease()->0,
    {
        match it.next() {
            Some(c) => {
                v.push(c);
            },
            None => {
                return v;
            },
        }
    }
}

/// The bytes of ASCII text `s`.
pub fn ascii_bytes(s: &str) -> (r: Vec<u8>)
    ensures
        r@ == ascii_of(s@),
{
    let cs = chars_of(s);
    let mut v: Vec<u8> = Vec::new();
    let mut i: usize = 0;
    while i < cs.len()
        invariant
            cs@ == s@,
            i <= cs@.len(),
            v@ == ascii_of(cs@.subrange(0, i as int)),
        decreases cs@.len() - i,
    {
        v.push(cs[i] as u8);
        i = i + 1;
        assert(ascii_of(cs@.subrange(0, i as int)) =~= ascii_of(cs@.subrange(0, i - 1)).push(
            cs@[i - 1] as u8,
        ));
    }
    assert(cs@.subrange(0, cs@.len() as int) =~= cs@);
    v
}

/// The decimal digits of `n` as text.
pub open spec fn decimal_chars(n: nat) -> Seq<char>
    decreases n,
{
    if n < 10 {
        seq!["0123456789"@[n as int]]
    } else {
        decimal_chars(n / 10).push("0123456789"@[(n % 10) as int])
    }
}

/// The two lower-case hexadecimal digits of each byte, in order.
pub open spec fn hex_of(b: Seq<u8>) -> Seq<char>
    decreases b.len(),
{
    if b.len() == 0 {
        seq![]
    } else {
        hex_of(b.drop_last()) + seq![
            "0123456789abcdef"@[(b.last() / 16) as int],
            "0123456789abcdef"@[(b.last() % 16) as int],
        ]
    }
}

fn digit_text(d: usize) -> (r: &'static str)
    requires
        d < 10,
    ensures
        r@ == seq!["0123456789"@[d as int]],
{
    proof {
        reveal_strlit("0123456789");
    }
    "0123456789".substring_char(d, d + 1)
}

fn hex_digit_text(d: usize) -> (r: &'static str)
    requires
        d < 16,
    ensures
        r@ == seq!["0123456789abcdef"@[d as int]],
{
    proof {
        reveal_strlit("0123456789abcdef");
    }
    "0123456789abcdef".substring_char(d, d + 1)
}

/// The decimal digits of `n` as text.
pub fn decimal_text(n: u64) -> (r: String)
    ensures
        r@ == decimal_chars(n as nat),
    decreases n,
{
    if n < 10 {
        digit_text(n as usize).to_owned()
    } else {
        decimal_text(n / 10).concat(digit_text((n % 10) as usize))
    }
}

/// The bytes written in lower-case hexadecimal, two digits each.
pub fn hex_text(b: &[u8]) -> (r: String)
    ensures
        r@ == hex_of(b@),
{
    let mut r = String::new();
    let mut i: usize = 0;
    while i < b.len()
        invariant
            i <= b@.len(),
            r@ == hex_of(b@.subrange(0, i as int)),
        decreases b@.len() - i,
    {
        let x = b[i];
        r = r.concat(hex_digit_text((x / 16) as usize)).concat(hex_digit_text((x % 16) as usize));
        i = i + 1;
        assert(b@.subrange(0, i as int).drop_last() =~= b@.subrange(0, i - 1));
    }
    assert(b@.subrange(0, b@.len() as int) =~= b@);
    r
}

} // verus!
