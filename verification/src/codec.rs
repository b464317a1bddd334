//! The null-separated multi-string wire format, and UTF-16 string encoding.
//!
//! The counter subsystem hands enumeration results back as one flat buffer
//! of UTF-16 units: each string is followed by one terminator unit, and the
//! whole buffer is closed by a second terminator. Decoding strips the final
//! two terminators and splits on the rest.

use vstd::prelude::*;

use crate::error::PdhError;

verus! {

/// Splits a buffer on terminator units. Every segment is kept, including
/// empty ones: an empty segment is a valid "no instance" entry. A buffer
/// with `k` terminators yields `k + 1` segments.
pub open spec fn split_on_terminator(s: Seq<u16>) -> Seq<Seq<u16>>
    decreases s.len(),
{
    if s.len() == 0 {
        seq![Seq::<u16>::empty()]
    } else if s[0] == 0 {
        seq![Seq::<u16>::empty()] + split_on_terminator(s.drop_first())
    } else {
        let rest = split_on_terminator(s.drop_first());
        seq![seq![s[0]] + rest[0]] + rest.drop_first()
    }
}

/// Joins segments with a single terminator unit between each pair.
pub open spec fn join_with_terminator(items: Seq<Seq<u16>>) -> Seq<u16>
    decreases items.len(),
{
    if items.len() == 0 {
        Seq::<u16>::empty()
    } else if items.len() == 1 {
        items[0]
    } else {
        items[0] + seq![0u16] + join_with_terminator(items.drop_first())
    }
}

/// Splitting never yields an empty segment list.
pub proof fn lemma_split_len(s: Seq<u16>)
    ensures
        split_on_terminator(s).len() >= 1,
    decreases s.len(),
{
    if s.len() == 0 {
    } else if s[0] == 0 {
        lemma_split_len(s.drop_first());
    } else {
        lemma_split_len(s.drop_first());
    }
}

/// Appending a terminator appends one empty segment.
pub proof fn lemma_split_push_terminator(s: Seq<u16>)
    ensures
        split_on_terminator(s.push(0u16)) =~~= split_on_terminator(s).push(Seq::<u16>::empty()),
    decreases s.len(),
{
    lemma_split_len(s);
    if s.len() == 0 {
        reveal_with_fuel(split_on_terminator, 3);
        assert(s.push(0u16) =~= seq![0u16]);
        assert(seq![0u16].drop_first() =~= Seq::<u16>::empty());
    } else {
        let t = s.push(0u16);
        assert(t[0] == s[0]);
        assert(t.drop_first() =~= s.drop_first().push(0u16));
        lemma_split_push_terminator(s.drop_first());
        lemma_split_len(s.drop_first());
        if s[0] == 0 {
            assert(split_on_terminator(t) =~~= split_on_terminator(s).push(Seq::<u16>::empty()));
        } else {
            let rest = split_on_terminator(s.drop_first());
            let rest2 = split_on_terminator(t.drop_first());
            assert(rest2 =~~= rest.push(Seq::<u16>::empty()));
            assert(rest2[0] == rest[0]);
            assert(rest2.drop_first() =~~= rest.drop_first().push(Seq::<u16>::empty()));
            assert(split_on_terminator(t) =~~= split_on_terminator(s).push(Seq::<u16>::empty()));
        }
    }
}

/// Appending an ordinary unit appends it to the final segment.
pub proof fn lemma_split_push_unit(s: Seq<u16>, c: u16)
    requires
        c != 0,
    ensures
        split_on_terminator(s.push(c)) =~~= split_on_terminator(s).update(
            split_on_terminator(s).len() - 1,
            split_on_terminator(s).last().push(c),
        ),
    decreases s.len(),
{
    lemma_split_len(s);
    if s.len() == 0 {
        reveal_with_fuel(split_on_terminator, 3);
        assert(s.push(c) =~= seq![c]);
        assert(seq![c].drop_first() =~= Seq::<u16>::empty());
        assert(split_on_terminator(seq![c]) =~~= seq![seq![c]]);
    } else {
        let t = s.push(c);
        assert(t[0] == s[0]);
        assert(t.drop_first() =~= s.drop_first().push(c));
        lemma_split_push_unit(s.drop_first(), c);
        lemma_split_len(s.drop_first());
        let rest = split_on_terminator(s.drop_first());
        let rest2 = split_on_terminator(t.drop_first());
        if s[0] == 0 {
            assert(split_on_terminator(t) =~~= seq![Seq::<u16>::empty()] + rest2);
            assert(split_on_terminator(t) =~~= split_on_terminator(s).update(
                split_on_terminator(s).len() - 1,
                split_on_terminator(s).last().push(c),
            ));
        } else {
            if rest.len() == 1 {
                assert(rest2 =~~= rest.update(0, rest[0].push(c)));
                assert(rest2[0] == rest[0].push(c));
                assert(split_on_terminator(t) =~~= seq![seq![s[0]] + rest2[0]]
                    + rest2.drop_first());
                assert((seq![s[0]] + rest[0].push(c)) =~= (seq![s[0]] + rest[0]).push(c));
                assert(split_on_terminator(t) =~~= split_on_terminator(s).update(
                    split_on_terminator(s).len() - 1,
                    split_on_terminator(s).last().push(c),
                ));
            } else {
                assert(rest2 =~~= rest.update(rest.len() - 1, rest.last().push(c)));
                assert(rest2[0] == rest[0]);
                assert(rest2.drop_first() =~~= rest.drop_first().update(
                    rest.len() - 2,
                    rest.last().push(c),
                ));
                assert(split_on_terminator(t) =~~= split_on_terminator(s).update(
                    split_on_terminator(s).len() - 1,
                    split_on_terminator(s).last().push(c),
                ));
            }
        }
    }
}

/// Joining undoes splitting, for every buffer.
pub proof fn lemma_join_split(s: Seq<u16>)
    ensures
        join_with_terminator(split_on_terminator(s)) =~= s,
    decreases s.len(),
{
    if s.len() == 0 {
    } else {
        lemma_join_split(s.drop_first());
        lemma_split_len(s.drop_first());
        let rest = split_on_terminator(s.drop_first());
        if s[0] == 0 {
            let whole = seq![Seq::<u16>::empty()] + rest;
            assert(whole.len() >= 2);
            assert(whole[0] =~= Seq::<u16>::empty());
            assert(whole.drop_first() =~~= rest);
            assert(join_with_terminator(whole) =~= seq![0u16] + join_with_terminator(rest));
            assert(seq![0u16] + s.drop_first() =~= s);
        } else {
            let whole = seq![seq![s[0]] + rest[0]] + rest.drop_first();
            if rest.len() == 1 {
                assert(whole.len() == 1);
                assert(join_with_terminator(whole) =~= seq![s[0]] + rest[0]);
                assert(join_with_terminator(rest) =~= rest[0]);
                assert(seq![s[0]] + s.drop_first() =~= s);
            } else {
                assert(whole.len() >= 2);
                assert(whole.drop_first() =~~= rest.drop_first());
                assert(join_with_terminator(whole) =~= (seq![s[0]] + rest[0]) + seq![0u16]
                    + join_with_terminator(rest.drop_first()));
                assert(join_with_terminator(rest) =~= rest[0] + seq![0u16]
                    + join_with_terminator(rest.drop_first()));
                assert(seq![s[0]] + s.drop_first() =~= s);
            }
        }
    }
}

/// A segment list with no terminator units splits out of its own join:
/// the helper case of a single terminator-free segment.
proof fn lemma_split_of_clean(s: Seq<u16>)
    requires
        !s.contains(0u16),
    ensures
        split_on_terminator(s) =~~= seq![s],
    decreases s.len(),
{
    if s.len() == 0 {
    } else {
        assert(s[0] != 0);
        assert(!s.drop_first().contains(0u16)) by {
            assert forall|i: int| 0 <= i < s.drop_first().len() implies s.drop_first()[i] != 0 by {
                assert(s.drop_first()[i] == s[i + 1]);
            }
        }
        lemma_split_of_clean(s.drop_first());
        assert(seq![s[0]] + s.drop_first() =~= s);
    }
}

/// Splitting a terminator-free prefix off a joined buffer.
proof fn lemma_split_clean_prefix(a: Seq<u16>, b: Seq<u16>)
    requires
        !a.contains(0u16),
    ensures
        split_on_terminator(a + seq![0u16] + b) =~~= seq![a] + split_on_terminator(b),
    decreases a.len(),
{
    if a.len() == 0 {
        let t = a + seq![0u16] + b;
        assert(t[0] == 0);
        assert(t.drop_first() =~= b);
    } else {
        let t = a + seq![0u16] + b;
        assert(t[0] == a[0]);
        assert(a[0] != 0);
        assert(!a.drop_first().contains(0u16)) by {
            assert forall|i: int| 0 <= i < a.drop_first().len() implies a.drop_first()[i] != 0 by {
                assert(a.drop_first()[i] == a[i + 1]);
            }
        }
        assert(t.drop_first() =~= a.drop_first() + seq![0u16] + b);
        lemma_split_clean_prefix(a.drop_first(), b);
        lemma_split_len(b);
        let rest = split_on_terminator(t.drop_first());
        assert(rest[0] =~= a.drop_first());
        assert(seq![t[0]] + rest[0] =~= a);
        assert(rest.drop_first() =~~= split_on_terminator(b));
    }
}

/// Appending one more segment extends the join by a separator and the segment.
pub proof fn lemma_join_push(items: Seq<Seq<u16>>, x: Seq<u16>)
    ensures
        items.len() == 0 ==> join_with_terminator(items.push(x)) == x,
        items.len() > 0 ==> join_with_terminator(items.push(x)) =~= join_with_terminator(items)
            + seq![0u16] + x,
    decreases items.len(),
{
    if items.len() == 0 {
        assert(items.push(x)[0] =~= x);
    } else if items.len() == 1 {
        assert(items.push(x).drop_first() =~~= seq![x]);
        assert(join_with_terminator(seq![x]) =~= x);
    } else {
        assert(items.push(x).drop_first() =~~= items.drop_first().push(x));
        lemma_join_push(items.drop_first(), x);
        assert(join_with_terminator(items.push(x)) =~= join_with_terminator(items) + seq![0u16]
            + x);
    }
}

/// Splitting undoes joining, for segment lists that hold no terminator unit.
pub proof fn lemma_split_join(items: Seq<Seq<u16>>)
    requires
        items.len() >= 1,
        forall|i: int| 0 <= i < items.len() ==> !(#[trigger] items[i]).contains(0u16),
    ensures
        split_on_terminator(join_with_terminator(items)) =~~= items,
    decreases items.len(),
{
    if items.len() == 1 {
        lemma_split_of_clean(items[0]);
    } else {
        lemma_split_join(items.drop_first());
        lemma_split_clean_prefix(items[0], join_with_terminator(items.drop_first()));
    }
}

/// Law: decoding an encoded multi-string gives back exactly the segments
/// that were encoded — the same count, empty ones included. Holds for every
/// non-empty segment list whose segments contain no terminator unit.
pub proof fn lemma_multi_string_round_trip(items: Seq<Seq<u16>>)
    requires
        items.len() >= 1,
        forall|i: int| 0 <= i < items.len() ==> !(#[trigger] items[i]).contains(0u16),
    ensures
        (join_with_terminator(items) + seq![0u16, 0u16]).len() >= 2,
        split_on_terminator(
            (join_with_terminator(items) + seq![0u16, 0u16]).take(
                (join_with_terminator(items) + seq![0u16, 0u16]).len() - 2,
            ),
        ) == items,
        split_on_terminator(
            (join_with_terminator(items) + seq![0u16, 0u16]).take(
                (join_with_terminator(items) + seq![0u16, 0u16]).len() - 2,
            ),
        ).len() == items.len(),
{
    let buf = join_with_terminator(items) + seq![0u16, 0u16];
    assert(buf.take(buf.len() - 2) =~= join_with_terminator(items));
    lemma_split_join(items);
}

/// Law: re-encoding a decoded buffer reproduces the buffer, for every
/// buffer that ends with the two closing terminator units.
pub proof fn lemma_buffer_round_trip(buf: Seq<u16>)
    requires
        buf.len() >= 2,
        buf[buf.len() - 1] == 0,
        buf[buf.len() - 2] == 0,
    ensures
        join_with_terminator(split_on_terminator(buf.take(buf.len() - 2))) + seq![0u16, 0u16]
            =~= buf,
{
    lemma_join_split(buf.take(buf.len() - 2));
}

/// Decodes a multi-string buffer: strips the two closing terminator units,
/// then splits on the remaining terminators, keeping empty segments. A buffer
/// too short to hold the two closing units is malformed.
pub fn null_separated_to_vec(buf: Vec<u16>) -> (r: Result<Vec<Vec<u16>>, PdhError>)
    ensures
        buf@.len() < 2 ==> r == Err::<Vec<Vec<u16>>, PdhError>(PdhError::Protocol),
        buf@.len() >= 2 ==> r is Ok && r->Ok_0.deep_view() == split_on_terminator(
            buf@.take(buf@.len() - 2),
        ),
{
    if buf.len() < 2 {
        return Err(PdhError::Protocol);
    }
    let end = buf.len() - 2;
    let mut v: Vec<Vec<u16>> = Vec::new();
    let mut seg: Vec<u16> = Vec::new();
    let mut i: usize = 0;
    proof {
        assert(buf@.take(0) =~= Seq::<u16>::empty());
        assert(v.deep_view().push(seg@) =~~= split_on_terminator(buf@.take(0)));
    }
    while i < end
        invariant
            end == buf@.len() - 2,
            buf@.len() >= 2,
            i <= end,
            v.deep_view().push(seg@) == split_on_terminator(buf@.take(i as int)),
        decreases end - i,
    {
        let ghost done = buf@.take(i as int);
        proof {
            assert(buf@.take(i + 1) =~= done.push(buf@[i as int]));
        }
        let c = buf[i];
        if c == 0 {
            proof {
                lemma_split_push_terminator(done);
            }
            v.push(seg);
            seg = Vec::new();
            proof {
                assert(v.deep_view().push(seg@) =~~= split_on_terminator(buf@.take(i + 1)));
            }
        } else {
            proof {
                lemma_split_push_unit(done, c);
                lemma_split_len(done);
            }
            seg.push(c);
            proof {
                assert(v.deep_view().push(seg@) =~~= split_on_terminator(buf@.take(i + 1)));
            }
        }
        i += 1;
    }
    proof {
        assert(buf@.take(end as int) =~= buf@.take(buf@.len() - 2));
    }
    v.push(seg);
    proof {
        assert(v.deep_view() =~~= split_on_terminator(buf@.take(buf@.len() - 2)));
    }
    Ok(v)
}

/// Encodes segments as a multi-string buffer: one terminator unit after each
/// segment but the last, and two closing terminator units.
pub fn encode_multi_string(items: &Vec<Vec<u16>>) -> (r: Vec<u16>)
    ensures
        r@ == join_with_terminator(items.deep_view()) + seq![0u16, 0u16],
{
    let mut r: Vec<u16> = Vec::new();
    let mut i: usize = 0;
    proof {
        assert(items.deep_view().take(0) =~~= Seq::<Seq<u16>>::empty());
        assert(r@ =~= join_with_terminator(items.deep_view().take(0)));
    }
    while i < items.len()
        invariant
            i <= items@.len(),
            items@.len() == items.deep_view().len(),
            r@ == join_with_terminator(items.deep_view().take(i as int)),
        decreases items@.len() - i,
    {
        let ghost before = items.deep_view().take(i as int);
        if i > 0 {
            r.push(0);
        }
        let mut j: usize = 0;
        let ghost sep: Seq<u16> = if i > 0 {
            seq![0u16]
        } else {
            Seq::<u16>::empty()
        };
        proof {
            assert(items.deep_view()[i as int] =~= items@[i as int]@);
            assert(items@[i as int]@.take(0) =~= Seq::<u16>::empty());
            assert(r@ =~= join_with_terminator(before) + sep + items@[i as int]@.take(0));
        }
        while j < items[i].len()
            invariant
                i < items@.len(),
                items@.len() == items.deep_view().len(),
                j <= items@[i as int]@.len(),
                before == items.deep_view().take(i as int),
                sep == if i > 0 {
                    seq![0u16]
                } else {
                    Seq::<u16>::empty()
                },
                items.deep_view()[i as int] == items@[i as int]@,
                r@ == join_with_terminator(before) + sep + items@[i as int]@.take(j as int),
            decreases items@[i as int]@.len() - j,
        {
            let c = items[i][j];
            r.push(c);
            proof {
                assert(items@[i as int]@.take(j + 1) =~= items@[i as int]@.take(j as int).push(
                    c,
                ));
                assert(r@ =~= join_with_terminator(before) + sep + items@[i as int]@.take(
                    j + 1,
                ));
            }
            j += 1;
        }
        proof {
            assert(items@[i as int]@.take(items@[i as int]@.len() as int) =~= items@[
                i as int
            ]@);
            lemma_join_push(before, items.deep_view()[i as int]);
            assert(before.push(items.deep_view()[i as int]) =~~= items.deep_view().take(i + 1));
            assert(r@ =~= join_with_terminator(items.deep_view().take(i + 1)));
        }
        i += 1;
    }
    proof {
        assert(items.deep_view().take(items@.len() as int) =~~= items.deep_view());
    }
    r.push(0);
    r.push(0);
    proof {
        assert(r@ =~= join_with_terminator(items.deep_view()) + seq![0u16, 0u16]);
    }
    r
}

/// The UTF-16 encoding of one scalar value: one unit for the basic plane,
/// a surrogate pair above it.
pub open spec fn utf16_encode_char(c: char) -> Seq<u16> {
    if (c as int) < 0x10000 {
        seq![c as u16]
    } else {
        seq![
            (0xD800 + ((c as int) - 0x10000) / 0x400) as u16,
            (0xDC00 + ((c as int) - 0x10000) % 0x400) as u16,
        ]
    }
}

/// The UTF-16 encoding of a string's characters, in order.
pub open spec fn utf16_of(s: Seq<char>) -> Seq<u16>
    decreases s.len(),
{
    if s.len() == 0 {
        Seq::<u16>::empty()
    } else {
        utf16_encode_char(s[0]) + utf16_of(s.drop_first())
    }
}

/// Encoding one more character appends its units.
pub proof fn lemma_utf16_of_push(s: Seq<char>, c: char)
    ensures
        utf16_of(s.push(c)) =~= utf16_of(s) + utf16_encode_char(c),
    decreases s.len(),
{
    if s.len() == 0 {
        reveal_with_fuel(utf16_of, 3);
        assert(s.push(c)[0] == c);
        assert(s.push(c).drop_first() =~= Seq::<char>::empty());
        assert(utf16_of(s.push(c)) =~= utf16_encode_char(c));
    } else {
        assert(s.push(c)[0] == s[0]);
        assert(s.push(c).drop_first() =~= s.drop_first().push(c));
        lemma_utf16_of_push(s.drop_first(), c);
    }
}

/// Encodes a string as the null-terminated UTF-16 buffer the subsystem takes.
pub fn str_to_utf16(s: &str) -> (r: Vec<u16>)
    ensures
        r@ == utf16_of(s@).push(0u16),
{
    let n = s.unicode_len();
    let mut r: Vec<u16> = Vec::new();
    let mut i: usize = 0;
    proof {
        assert(s@.take(0) =~= Seq::<char>::empty());
    }
    while i < n
        invariant
            n == s@.len(),
            i <= n,
            r@ == utf16_of(s@.take(i as int)),
        decreases n - i,
    {
        let c = s.get_char(i);
        proof {
            lemma_utf16_of_push(s@.take(i as int), c);
            assert(s@.take(i + 1) =~= s@.take(i as int).push(c));
        }
        let u = c as u32;
        if u < 0x10000 {
            r.push(u as u16);
            proof {
                assert(utf16_encode_char(c) =~= seq![c as u16]);
                assert(u as u16 == c as u16);
            }
        } else {
            let x = u - 0x10000;
            r.push((0xD800 + x / 0x400) as u16);
            r.push((0xDC00 + x % 0x400) as u16);
        }
        i += 1;
    }
    proof {
        assert(s@.take(n as int) =~= s@);
    }
    r.push(0);
    r
}

/// What std's lossy UTF-16 decoding returns for a buffer of units.
pub uninterp spec fn utf16_lossy_of(units: Seq<u16>) -> Seq<char>;

/// Relies on String::from_utf16_lossy: the decoding is a function of the
/// units alone, and decoding the UTF-16 encoding of a string gives that
/// string back.
#[verifier::external_body]
pub fn utf16_units_to_string(units: &Vec<u16>) -> (r: String)
    ensures
        r@ == utf16_lossy_of(units@),
        forall|s: Seq<char>| units@ == utf16_of(s) ==> r@ == s,
{
    String::from_utf16_lossy(units.as_slice())
}

/// Returns a buffer of the requested size, filled with zero units, ready for
/// the subsystem's fill call.
pub fn zeroed_buffer(sz: usize) -> (r: Vec<u16>)
    ensures
        r@ == Seq::new(sz as nat, |i: int| 0u16),
{
    let mut r: Vec<u16> = Vec::new();
    let mut i: usize = 0;
    while i < sz
        invariant
            i <= sz,
            r@ == Seq::new(i as nat, |k: int| 0u16),
        decreases sz - i,
    {
        r.push(0);
        proof {
            assert(r@ =~= Seq::new((i + 1) as nat, |k: int| 0u16));
        }
        i += 1;
    }
    r
}

} // verus!
