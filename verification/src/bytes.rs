//! Byte strings: searching, splitting at a separator and decimal numbers.

use vstd::prelude::*;
use vstd::slice::slice_subrange;

verus! {

/// `needle` stands in `haystack` at the offset `at`.
pub open spec fn occurs_at(haystack: Seq<u8>, needle: Seq<u8>, at: int) -> bool {
    &&& 0 <= at
    &&& at + needle.len() <= haystack.len()
    &&& haystack.subrange(at, at + needle.len()) == needle
}

/// `at` is the smallest offset at which `needle` stands in `haystack`.
pub open spec fn first_occurrence(haystack: Seq<u8>, needle: Seq<u8>, at: int) -> bool {
    &&& occurs_at(haystack, needle, at)
    &&& forall|earlier: int| 0 <= earlier < at ==> !occurs_at(haystack, needle, earlier)
}

/// Bytes further on change nothing about what stands before them.
pub proof fn lemma_occurs_before(haystack: Seq<u8>, later: Seq<u8>, needle: Seq<u8>, at: int)
    requires
        at + needle.len() <= haystack.len(),
    ensures
        occurs_at(haystack + later, needle, at) == occurs_at(haystack, needle, at),
{
    if 0 <= at {
        assert((haystack + later).subrange(at, at + needle.len()) =~= haystack.subrange(
            at,
            at + needle.len(),
        ));
    }
}

/// What stands at an offset does so byte for byte.
pub proof fn lemma_occurs_byte(haystack: Seq<u8>, needle: Seq<u8>, at: int, i: int)
    requires
        occurs_at(haystack, needle, at),
        0 <= i < needle.len(),
    ensures
        haystack[at + i] == needle[i],
{
    assert(haystack.subrange(at, at + needle.len())[i] == needle[i]);
}

/// Where there is an occurrence, there is a first one.
pub proof fn lemma_some_first_occurrence(haystack: Seq<u8>, needle: Seq<u8>, at: int)
    requires
        occurs_at(haystack, needle, at),
    ensures
        exists|k: int| first_occurrence(haystack, needle, k),
    decreases at,
{
    if exists|j: int| 0 <= j < at && occurs_at(haystack, needle, j) {
        let j = choose|j: int| 0 <= j < at && occurs_at(haystack, needle, j);
        lemma_some_first_occurrence(haystack, needle, j);
    } else {
        assert(first_occurrence(haystack, needle, at));
    }
}

/// Bytes further on do not change where the first occurrence is.
pub proof fn lemma_first_occurrence_before(
    haystack: Seq<u8>,
    later: Seq<u8>,
    needle: Seq<u8>,
    at: int,
)
    requires
        first_occurrence(haystack, needle, at),
    ensures
        first_occurrence(haystack + later, needle, at),
{
    lemma_occurs_before(haystack, later, needle, at);
    assert forall|j: int| 0 <= j < at implies !occurs_at(haystack + later, needle, j) by {
        lemma_occurs_before(haystack, later, needle, j);
    }
}

/// A needle whose first byte does not come again in it is found right after bytes that do not
/// hold it.
pub proof fn lemma_found_after(front: Seq<u8>, needle: Seq<u8>, later: Seq<u8>)
    requires
        needle.len() > 0,
        forall|i: int| 1 <= i < needle.len() ==> #[trigger] needle[i] != needle[0],
        forall|at: int| !occurs_at(front, needle, at),
    ensures
        first_occurrence(front + needle + later, needle, front.len() as int),
{
    let all = front + needle + later;
    let n = front.len() as int;
    assert(all.subrange(n, n + needle.len()) =~= needle);
    assert forall|j: int| 0 <= j < n implies !occurs_at(all, needle, j) by {
        if j + needle.len() <= n {
            assert(all =~= front + (needle + later));
            lemma_occurs_before(front, needle + later, needle, j);
        } else if occurs_at(all, needle, j) {
            lemma_occurs_byte(all, needle, j, n - j);
            assert(all[n] == needle[0]);
        }
    }
}

/// There is only one first occurrence.
pub proof fn lemma_first_occurrence_unique(haystack: Seq<u8>, needle: Seq<u8>, a: int, b: int)
    requires
        first_occurrence(haystack, needle, a),
        first_occurrence(haystack, needle, b),
    ensures
        a == b,
{
}

/// The offset of the first occurrence of a non-empty `needle`.
pub fn find_subslice(haystack: &[u8], needle: &[u8]) -> (found: Option<usize>)
    ensures
        match found {
            Some(at) => needle@.len() > 0 && first_occurrence(haystack@, needle@, at as int),
            None => needle@.len() == 0 || forall|at: int| !occurs_at(haystack@, needle@, at),
        },
{
    if needle.len() == 0 || haystack.len() < needle.len() {
        return None;
    }
    let last: usize = haystack.len() - needle.len();
    let mut at: usize = 0;
    while at <= last
        invariant
            at <= last + 1,
            0 < needle@.len(),
            last == haystack.len() - needle.len(),
            forall|earlier: int| 0 <= earlier < at ==> !occurs_at(haystack@, needle@, earlier),
        decreases last + 1 - at,
    {
        if stands_at(haystack, needle, at) {
            return Some(at);
        }
        at = at + 1;
    }
    None
}

/// Whether `needle` stands in `haystack` at the offset `at`.
fn stands_at(haystack: &[u8], needle: &[u8], at: usize) -> (yes: bool)
    requires
        at + needle@.len() <= haystack@.len(),
    ensures
        yes == occurs_at(haystack@, needle@, at as int),
{
    let mut i: usize = 0;
    while i < needle.len()
        invariant
            i <= needle@.len(),
            at + needle.len() <= haystack.len(),
            forall|j: int| 0 <= j < i ==> haystack@[at + j] == needle@[j],
        decreases needle@.len() - i,
    {
        if haystack[at + i] != needle[i] {
            assert(haystack@.subrange(at as int, at + needle@.len())[i as int] != needle@[i as int]);
            return false;
        }
        i = i + 1;
    }
    assert(haystack@.subrange(at as int, at + needle@.len()) =~= needle@);
    true
}

/// Whether `bytes` begins with `prefix`.
pub fn starts_with(bytes: &[u8], prefix: &[u8]) -> (yes: bool)
    ensures
        yes == prefix@.is_prefix_of(bytes@),
{
    if bytes.len() < prefix.len() {
        return false;
    }
    stands_at(bytes, prefix, 0)
}

/// `i` is the smallest index whose byte satisfies `pred`.
pub open spec fn is_first(s: Seq<u8>, pred: spec_fn(u8) -> bool, i: int) -> bool {
    &&& 0 <= i < s.len()
    &&& pred(s[i])
    &&& forall|j: int| 0 <= j < i ==> !pred(#[trigger] s[j])
}

/// The smallest index whose byte satisfies `pred`, if there is one.
pub open spec fn first_where(s: Seq<u8>, pred: spec_fn(u8) -> bool) -> Option<int> {
    if exists|i: int| is_first(s, pred, i) {
        Some(choose|i: int| is_first(s, pred, i))
    } else {
        None
    }
}

pub proof fn lemma_first_where_is(s: Seq<u8>, pred: spec_fn(u8) -> bool, i: int)
    requires
        is_first(s, pred, i),
    ensures
        first_where(s, pred) == Some(i),
{
    let chosen = choose|k: int| is_first(s, pred, k);
    if chosen < i {
        assert(!pred(s[chosen]));
    } else if i < chosen {
        assert(!pred(s[i]));
    }
}

pub proof fn lemma_first_where_none(s: Seq<u8>, pred: spec_fn(u8) -> bool)
    requires
        forall|i: int| 0 <= i < s.len() ==> !pred(#[trigger] s[i]),
    ensures
        first_where(s, pred) is None,
{
}

proof fn lemma_some_first(s: Seq<u8>, pred: spec_fn(u8) -> bool, n: int)
    requires
        0 <= n < s.len(),
        pred(s[n]),
    ensures
        exists|i: int| is_first(s, pred, i),
    decreases n,
{
    if exists|j: int| 0 <= j < n && pred(#[trigger] s[j]) {
        let j = choose|j: int| 0 <= j < n && pred(#[trigger] s[j]);
        lemma_some_first(s, pred, j);
    } else {
        assert(is_first(s, pred, n));
    }
}

/// What `first_where` returns, in either case.
pub proof fn lemma_first_where(s: Seq<u8>, pred: spec_fn(u8) -> bool)
    ensures
        match first_where(s, pred) {
            Some(i) => is_first(s, pred, i),
            None => forall|i: int| 0 <= i < s.len() ==> !pred(#[trigger] s[i]),
        },
{
    if first_where(s, pred) is None {
        assert forall|i: int| 0 <= i < s.len() implies !pred(#[trigger] s[i]) by {
            if pred(s[i]) {
                lemma_some_first(s, pred, i);
            }
        }
    }
}

/// The predicate that holds of the byte `b` alone.
pub open spec fn equals(b: u8) -> spec_fn(u8) -> bool {
    |x: u8| x == b
}

/// The pieces of `s` between occurrences of `sep`: one more than there are occurrences.
pub open spec fn split(s: Seq<u8>, sep: u8) -> Seq<Seq<u8>>
    decreases s.len(),
{
    match first_where(s, equals(sep)) {
        Some(i) => {
            if 0 <= i < s.len() {
                seq![s.take(i)] + split(s.skip(i + 1), sep)
            } else {
                seq![s]
            }
        },
        None => seq![s],
    }
}

/// Splitting always gives at least one piece.
pub proof fn lemma_split_nonempty(s: Seq<u8>, sep: u8)
    ensures
        split(s, sep).len() >= 1,
{
}

/// The index of the first `b` in `s`, or the length of `s`.
fn find_byte(s: &[u8], b: u8) -> (i: usize)
    ensures
        i <= s@.len(),
        i < s@.len() ==> first_where(s@, equals(b)) == Some(i as int) && s@[i as int] == b,
        i == s@.len() ==> first_where(s@, equals(b)) is None,
{
    let mut i: usize = 0;
    while i < s.len()
        invariant
            i <= s@.len(),
            forall|j: int| 0 <= j < i ==> !equals(b)(#[trigger] s@[j]),
        decreases s@.len() - i,
    {
        if s[i] == b {
            proof {
                lemma_first_where_is(s@, equals(b), i as int);
            }
            return i;
        }
        i = i + 1;
    }
    proof {
        lemma_first_where_none(s@, equals(b));
    }
    i
}

/// The piece number `n`, counted from zero, of `s` split at `sep`.
pub fn field<'a>(s: &'a [u8], sep: u8, n: usize) -> (piece: Option<&'a [u8]>)
    ensures
        match piece {
            Some(p) => n < split(s@, sep).len() && p@ == split(s@, sep)[n as int],
            None => n >= split(s@, sep).len(),
        },
{
    let mut rest: &'a [u8] = s;
    let mut skipped: usize = 0;
    loop
        invariant
            skipped <= n,
            split(s@, sep).len() == skipped + split(rest@, sep).len(),
            forall|j: int|
                0 <= j < split(rest@, sep).len() ==> #[trigger] split(rest@, sep)[j] == split(
                    s@,
                    sep,
                )[skipped + j],
        decreases rest@.len(),
    {
        let i: usize = find_byte(rest, sep);
        if i == rest.len() {
            assert(split(rest@, sep) =~= seq![rest@]);
            if skipped == n {
                assert(split(rest@, sep)[0] == split(s@, sep)[skipped + 0]);
                return Some(rest);
            }
            return None;
        }
        let head: &'a [u8] = slice_subrange(rest, 0, i);
        let tail: &'a [u8] = slice_subrange(rest, i + 1, rest.len());
        assert(head@ =~= rest@.take(i as int));
        assert(tail@ =~= rest@.skip(i + 1));
        assert(split(rest@, sep) =~= seq![head@] + split(tail@, sep));
        if skipped == n {
            assert(split(rest@, sep)[0] == split(s@, sep)[skipped + 0]);
            return Some(head);
        }
        assert forall|j: int| 0 <= j < split(tail@, sep).len() implies #[trigger] split(
            tail@,
            sep,
        )[j] == split(s@, sep)[skipped + 1 + j] by {
            assert(split(rest@, sep)[j + 1] == split(s@, sep)[skipped + (j + 1)]);
        }
        rest = tail;
        skipped = skipped + 1;
    }
}

pub open spec fn is_digit(b: u8) -> bool {
    0x30 <= b <= 0x39
}

pub open spec fn all_digits(s: Seq<u8>) -> bool {
    forall|i: int| 0 <= i < s.len() ==> is_digit(#[trigger] s[i])
}

/// The number that a string of decimal digits stands for.
pub open spec fn digits_value(s: Seq<u8>) -> nat
    decreases s.len(),
{
    if s.len() == 0 {
        0
    } else {
        digits_value(s.drop_last()) * 10 + (s.last() - 0x30) as nat
    }
}

/// `s` without a leading plus sign.
pub open spec fn without_plus(s: Seq<u8>) -> Seq<u8> {
    if s.len() > 0 && s[0] == 0x2b {
        s.skip(1)
    } else {
        s
    }
}

/// The number that `s` writes in decimal: an optional plus sign, then digits only, at least
/// one, whose value is no larger than `max`.
pub open spec fn decimal(s: Seq<u8>, max: nat) -> Option<nat> {
    let digits = without_plus(s);
    if digits.len() > 0 && all_digits(digits) && digits_value(digits) <= max {
        Some(digits_value(digits))
    } else {
        None
    }
}

/// A longer string of digits stands for a number at least as large.
proof fn lemma_prefix_value(s: Seq<u8>, n: int)
    requires
        0 <= n <= s.len(),
    ensures
        digits_value(s.take(n)) <= digits_value(s),
    decreases s.len() - n,
{
    if n == s.len() {
        assert(s.take(n) =~= s);
    } else {
        lemma_prefix_value(s, n + 1);
        assert(s.take(n + 1).drop_last() =~= s.take(n));
    }
}

/// Reads a decimal number no larger than `max`.
pub fn parse_decimal(s: &[u8], max: u32) -> (number: Option<u32>)
    ensures
        match number {
            Some(v) => decimal(s@, max as nat) == Some(v as nat),
            None => decimal(s@, max as nat) is None,
        },
{
    let start: usize = if s.len() > 0 && s[0] == 0x2b {
        1
    } else {
        0
    };
    let ghost digits = without_plus(s@);
    assert(digits =~= s@.skip(start as int));
    if start == s.len() {
        return None;
    }
    let mut value: u64 = 0;
    let mut i: usize = start;
    assert(digits.take(0) =~= Seq::<u8>::empty());
    while i < s.len()
        invariant
            start <= i <= s@.len(),
            digits == without_plus(s@),
            digits == s@.skip(start as int),
            value == digits_value(digits.take(i - start)),
            value <= max,
            all_digits(digits.take(i - start)),
        decreases s@.len() - i,
    {
        let b: u8 = s[i];
        assert(digits[i - start] == b);
        if b < 0x30 || b > 0x39 {
            return None;
        }
        proof {
            let longer = digits.take(i - start + 1);
            assert(longer.drop_last() =~= digits.take(i - start));
            assert(longer.last() == b);
            assert forall|j: int| 0 <= j < longer.len() implies is_digit(#[trigger] longer[j]) by {
                if j < i - start {
                    assert(digits.take(i - start)[j] == longer[j]);
                }
            }
            lemma_prefix_value(digits, i - start + 1);
        }
        value = value * 10 + (b - 0x30) as u64;
        if value > max as u64 {
            return None;
        }
        i = i + 1;
    }
    assert(digits.take(s@.len() - start) =~= digits);
    Some(value as u32)
}

} // verus!
