//! What searching, splitting and reading numbers mean.

use vstd::prelude::*;

use crate::bytes;
use crate::reports;

verus! {

/// A needle stands at an offset exactly where every byte of it does.
pub proof fn law_occurring_is_byte_for_byte(haystack: Seq<u8>, needle: Seq<u8>, at: int)
    ensures
        bytes::occurs_at(haystack, needle, at) <==> {
            &&& 0 <= at
            &&& at + needle.len() <= haystack.len()
            &&& forall|i: int| 0 <= i < needle.len() ==> haystack[at + i] == #[trigger] needle[i]
        },
{
    if bytes::occurs_at(haystack, needle, at) {
        assert forall|i: int| 0 <= i < needle.len() implies haystack[at + i]
            == #[trigger] needle[i] by {
            bytes::lemma_occurs_byte(haystack, needle, at, i);
        }
    } else if 0 <= at && at + needle.len() <= haystack.len() && forall|i: int|
        0 <= i < needle.len() ==> haystack[at + i] == #[trigger] needle[i] {
        assert(haystack.subrange(at, at + needle.len()) =~= needle);
    }
}

/// The first occurrence is one, and at no smaller offset does every byte stand.
pub proof fn law_first_occurrences_are_first(
    haystack: Seq<u8>,
    needle: Seq<u8>,
    at: int,
    earlier: int,
)
    requires
        bytes::first_occurrence(haystack, needle, at),
    ensures
        haystack == haystack.take(at) + needle + haystack.skip(at + needle.len()),
        0 <= earlier < at ==> exists|i: int|
            0 <= i < needle.len() && haystack[earlier + i] != #[trigger] needle[i],
{
    law_occurring_is_byte_for_byte(haystack, needle, at);
    law_occurring_is_byte_for_byte(haystack, needle, earlier);
    assert(haystack =~= haystack.take(at) + needle + haystack.skip(at + needle.len()));
}

/// Pieces with a separator between each two.
pub open spec fn joined(pieces: Seq<Seq<u8>>, sep: u8) -> Seq<u8>
    decreases pieces.len(),
{
    if pieces.len() == 0 {
        Seq::empty()
    } else if pieces.len() == 1 {
        pieces[0]
    } else {
        pieces[0] + seq![sep] + joined(pieces.drop_first(), sep)
    }
}

/// Splitting takes bytes apart at every separator: no piece holds one, and the pieces joined give
/// the bytes back.
pub proof fn law_pieces_joined_give_the_bytes_back(s: Seq<u8>, sep: u8)
    ensures
        bytes::split(s, sep).len() >= 1,
        joined(bytes::split(s, sep), sep) == s,
        forall|n: int, i: int|
            0 <= n < bytes::split(s, sep).len() && 0 <= i < bytes::split(s, sep)[n].len()
                ==> #[trigger] bytes::split(s, sep)[n][i] != sep,
    decreases s.len(),
{
    let pieces = bytes::split(s, sep);
    bytes::lemma_first_where(s, bytes::equals(sep));
    match bytes::first_where(s, bytes::equals(sep)) {
        Some(at) => {
            let rest = s.skip(at + 1);
            law_pieces_joined_give_the_bytes_back(rest, sep);
            assert(pieces =~= seq![s.take(at)] + bytes::split(rest, sep));
            assert(pieces.drop_first() =~= bytes::split(rest, sep));
            assert(s =~= s.take(at) + seq![sep] + rest);
            assert forall|n: int, i: int|
                0 <= n < pieces.len() && 0 <= i < pieces[n].len() implies #[trigger] pieces[n][i]
                != sep by {
                if n == 0 {
                    assert(!bytes::equals(sep)(s[i]));
                } else {
                    assert(pieces[n] == bytes::split(rest, sep)[n - 1]);
                    assert(bytes::split(rest, sep)[n - 1][i] != sep);
                }
            }
        },
        None => {
            assert(pieces =~= seq![s]);
            assert forall|n: int, i: int|
                0 <= n < pieces.len() && 0 <= i < pieces[n].len() implies #[trigger] pieces[n][i]
                != sep by {
                assert(!bytes::equals(sep)(s[i]));
            }
        },
    }
}

/// `n` zeros.
pub open spec fn zeros(n: nat) -> Seq<u8> {
    Seq::new(n, |i: int| 0x30u8)
}

/// `n` in decimal, with or without a plus sign and after some zeros.
pub open spec fn writing(n: nat, plus: bool, leading: nat) -> Seq<u8> {
    (if plus {
        seq![0x2bu8]
    } else {
        Seq::<u8>::empty()
    }) + zeros(leading) + reports::digits(n)
}

proof fn lemma_zero_in_front(s: Seq<u8>)
    ensures
        bytes::digits_value(seq![0x30u8] + s) == bytes::digits_value(s),
    decreases s.len(),
{
    let longer = seq![0x30u8] + s;
    if s.len() == 0 {
        assert(longer.drop_last() =~= Seq::<u8>::empty());
        assert(bytes::digits_value(longer.drop_last()) == 0);
    } else {
        lemma_zero_in_front(s.drop_last());
        assert(longer.drop_last() =~= seq![0x30u8] + s.drop_last());
        assert(longer.last() == s.last());
    }
}

proof fn lemma_zeros_in_front(s: Seq<u8>, leading: nat)
    requires
        bytes::all_digits(s),
    ensures
        bytes::digits_value(zeros(leading) + s) == bytes::digits_value(s),
        bytes::all_digits(zeros(leading) + s),
    decreases leading,
{
    if leading == 0 {
        assert(zeros(0) + s =~= s);
    } else {
        let fewer = (leading - 1) as nat;
        lemma_zeros_in_front(s, fewer);
        lemma_zero_in_front(zeros(fewer) + s);
        assert(zeros(leading) + s =~= seq![0x30u8] + (zeros(fewer) + s));
        let all = zeros(leading) + s;
        assert forall|i: int| 0 <= i < all.len() implies bytes::is_digit(#[trigger] all[i]) by {
            if i >= leading {
                assert(all[i] == s[i - leading]);
            }
        }
    }
}

/// Every decimal writing of a number is read as the number, unless it is larger than what fits.
pub proof fn law_every_writing_is_read(n: nat, plus: bool, leading: nat, max: nat)
    ensures
        n <= max ==> bytes::decimal(writing(n, plus, leading), max) == Some(n),
        n > max ==> bytes::decimal(writing(n, plus, leading), max) is None,
{
    let text = zeros(leading) + reports::digits(n);
    reports::lemma_digits(n);
    lemma_zeros_in_front(reports::digits(n), leading);
    assert(bytes::is_digit(text[0]));
    if plus {
        assert(writing(n, plus, leading).skip(1) =~= text);
    } else {
        assert(writing(n, plus, leading) =~= text);
    }
}

proof fn lemma_digits_are_a_writing(s: Seq<u8>)
    requires
        s.len() > 0,
        bytes::all_digits(s),
    ensures
        exists|leading: nat|
            s == #[trigger] zeros(leading) + reports::digits(bytes::digits_value(s)),
    decreases s.len(),
{
    let shorter = s.drop_last();
    let d = (s.last() - 0x30) as nat;
    assert(bytes::is_digit(s.last()));
    if s.len() == 1 {
        assert(shorter =~= Seq::<u8>::empty());
        assert(bytes::digits_value(shorter) == 0);
        assert(s =~= zeros(0) + reports::digits(d));
    } else {
        assert forall|i: int| 0 <= i < shorter.len() implies bytes::is_digit(
            #[trigger] shorter[i],
        ) by {
            assert(shorter[i] == s[i]);
        }
        lemma_digits_are_a_writing(shorter);
        let v = bytes::digits_value(shorter);
        let leading = choose|leading: nat|
            shorter == #[trigger] zeros(leading) + reports::digits(v);
        assert(s =~= shorter.push(s.last()));
        if v == 0 {
            assert(shorter =~= zeros(leading + 1));
            assert(s =~= zeros(leading + 1) + reports::digits(d));
        } else {
            assert((v * 10 + d) / 10 == v && (v * 10 + d) % 10 == d);
            assert(s =~= zeros(leading) + reports::digits(v * 10 + d));
        }
    }
}

/// Nothing but a decimal writing of a number that fits is read as one.
pub proof fn law_nothing_else_is_read(s: Seq<u8>, max: nat, n: nat)
    requires
        bytes::decimal(s, max) == Some(n),
    ensures
        n <= max,
        exists|plus: bool, leading: nat| s == #[trigger] writing(n, plus, leading),
{
    let text = bytes::without_plus(s);
    lemma_digits_are_a_writing(text);
    let leading = choose|leading: nat| text == #[trigger] zeros(leading) + reports::digits(n);
    let plus = s.len() > 0 && s[0] == 0x2b;
    if plus {
        assert(s =~= seq![0x2bu8] + text);
        assert(writing(n, plus, leading) =~= seq![0x2bu8] + text);
    } else {
        assert(writing(n, plus, leading) =~= text);
    }
}

} // verus!
