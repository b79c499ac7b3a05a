use std::cmp::Ordering;

use vstd::prelude::*;
use vstd::utf8::*;

verus! {

/// `first`, unless it is `Equal`, in which case `next` decides.
pub open spec fn then(first: Ordering, next: Ordering) -> Ordering {
    if first == Ordering::Equal {
        next
    } else {
        first
    }
}

/// The opposite ordering.
pub open spec fn flip(o: Ordering) -> Ordering {
    match o {
        Ordering::Less => Ordering::Greater,
        Ordering::Equal => Ordering::Equal,
        Ordering::Greater => Ordering::Less,
    }
}

/// Lexicographic order of integer sequences, a proper prefix first.
pub open spec fn lex(a: Seq<int>, b: Seq<int>) -> Ordering
    decreases a.len(),
{
    if a.len() == 0 {
        if b.len() == 0 {
            Ordering::Equal
        } else {
            Ordering::Less
        }
    } else if b.len() == 0 {
        Ordering::Greater
    } else if a[0] < b[0] {
        Ordering::Less
    } else if a[0] > b[0] {
        Ordering::Greater
    } else {
        lex(a.drop_first(), b.drop_first())
    }
}

/// Lexicographic order of field lists, each field ordered by `lex`.
pub open spec fn fields_cmp(a: Seq<Seq<int>>, b: Seq<Seq<int>>) -> Ordering
    decreases a.len(),
{
    if a.len() == 0 {
        if b.len() == 0 {
            Ordering::Equal
        } else {
            Ordering::Less
        }
    } else if b.len() == 0 {
        Ordering::Greater
    } else {
        then(lex(a[0], b[0]), fields_cmp(a.drop_first(), b.drop_first()))
    }
}

/// A byte buffer as the sequence it is ordered by.
pub open spec fn bytes_field(b: Seq<u8>) -> Seq<int> {
    b.map_values(|x: u8| x as int)
}

/// A string as the sequence it is ordered by: its UTF-8 bytes.
pub open spec fn text_field(s: Seq<char>) -> Seq<int> {
    bytes_field(encode_utf8(s))
}

/// An optional version as the sequence it is ordered by: absent before any
/// number, numbers by value.
pub open spec fn version_field(v: Option<u32>) -> Seq<int> {
    match v {
        None => Seq::empty(),
        Some(n) => seq![n as int],
    }
}

pub proof fn lemma_lex_flip(a: Seq<int>, b: Seq<int>)
    ensures
        lex(b, a) == flip(lex(a, b)),
    decreases a.len(),
{
    if a.len() > 0 && b.len() > 0 && a[0] == b[0] {
        lemma_lex_flip(a.drop_first(), b.drop_first());
    }
}

pub proof fn lemma_lex_equal(a: Seq<int>, b: Seq<int>)
    ensures
        lex(a, b) == Ordering::Equal <==> a == b,
    decreases a.len(),
{
    if a.len() == 0 && b.len() == 0 {
        assert(a =~= b);
    }
    if a.len() > 0 && b.len() > 0 {
        lemma_lex_equal(a.drop_first(), b.drop_first());
        if lex(a, b) == Ordering::Equal {
            assert(a =~= seq![a[0]] + a.drop_first());
            assert(b =~= seq![b[0]] + b.drop_first());
            assert(a =~= b);
        }
        if a == b {
            assert(a.drop_first() == b.drop_first());
        }
    }
}

pub proof fn lemma_lex_trans(a: Seq<int>, b: Seq<int>, c: Seq<int>)
    requires
        lex(a, b) == Ordering::Less,
        lex(b, c) == Ordering::Less,
    ensures
        lex(a, c) == Ordering::Less,
    decreases a.len(),
{
    if a.len() > 0 && b.len() > 0 && c.len() > 0 && a[0] == b[0] && b[0] == c[0] {
        lemma_lex_trans(a.drop_first(), b.drop_first(), c.drop_first());
    }
}

pub proof fn lemma_fields_flip(a: Seq<Seq<int>>, b: Seq<Seq<int>>)
    ensures
        fields_cmp(b, a) == flip(fields_cmp(a, b)),
    decreases a.len(),
{
    if a.len() > 0 && b.len() > 0 {
        lemma_lex_flip(a[0], b[0]);
        lemma_fields_flip(a.drop_first(), b.drop_first());
    }
}

pub proof fn lemma_fields_equal(a: Seq<Seq<int>>, b: Seq<Seq<int>>)
    ensures
        fields_cmp(a, b) == Ordering::Equal <==> a == b,
    decreases a.len(),
{
    if a.len() == 0 && b.len() == 0 {
        assert(a =~= b);
    }
    if a.len() > 0 && b.len() > 0 {
        lemma_lex_equal(a[0], b[0]);
        lemma_fields_equal(a.drop_first(), b.drop_first());
        if fields_cmp(a, b) == Ordering::Equal {
            assert(a =~= seq![a[0]] + a.drop_first());
            assert(b =~= seq![b[0]] + b.drop_first());
            assert(a =~= b);
        }
        if a == b {
            assert(a.drop_first() == b.drop_first());
        }
    }
}

pub proof fn lemma_fields_trans(a: Seq<Seq<int>>, b: Seq<Seq<int>>, c: Seq<Seq<int>>)
    requires
        fields_cmp(a, b) == Ordering::Less,
        fields_cmp(b, c) == Ordering::Less,
    ensures
        fields_cmp(a, c) == Ordering::Less,
    decreases a.len(),
{
    if a.len() > 0 && b.len() > 0 && c.len() > 0 {
        lemma_lex_equal(a[0], b[0]);
        lemma_lex_equal(b[0], c[0]);
        if lex(a[0], b[0]) == Ordering::Less && lex(b[0], c[0]) == Ordering::Less {
            lemma_lex_trans(a[0], b[0], c[0]);
        }
        if a[0] == b[0] && b[0] == c[0] {
            lemma_fields_trans(a.drop_first(), b.drop_first(), c.drop_first());
        }
    }
}

pub proof fn lemma_fields_cmp_1(a: Seq<Seq<int>>, b: Seq<Seq<int>>)
    requires
        a.len() == 1,
        b.len() == 1,
    ensures
        fields_cmp(a, b) == lex(a[0], b[0]),
{
    assert(fields_cmp(a.drop_first(), b.drop_first()) == Ordering::Equal);
}

pub proof fn lemma_fields_cmp_2(a: Seq<Seq<int>>, b: Seq<Seq<int>>)
    requires
        a.len() == 2,
        b.len() == 2,
    ensures
        fields_cmp(a, b) == then(lex(a[0], b[0]), lex(a[1], b[1])),
{
    lemma_fields_cmp_1(a.drop_first(), b.drop_first());
}

pub proof fn lemma_fields_cmp_3(a: Seq<Seq<int>>, b: Seq<Seq<int>>)
    requires
        a.len() == 3,
        b.len() == 3,
    ensures
        fields_cmp(a, b) == then(lex(a[0], b[0]), then(lex(a[1], b[1]), lex(a[2], b[2]))),
{
    lemma_fields_cmp_2(a.drop_first(), b.drop_first());
}

pub proof fn lemma_fields_cmp_4(a: Seq<Seq<int>>, b: Seq<Seq<int>>)
    requires
        a.len() == 4,
        b.len() == 4,
    ensures
        fields_cmp(a, b) == then(
            lex(a[0], b[0]),
            then(lex(a[1], b[1]), then(lex(a[2], b[2]), lex(a[3], b[3]))),
        ),
{
    lemma_fields_cmp_3(a.drop_first(), b.drop_first());
}

pub proof fn lemma_version_field_injective(a: Option<u32>, b: Option<u32>)
    ensures
        version_field(a) == version_field(b) <==> a == b,
{
    if version_field(a) == version_field(b) {
        assert(version_field(a).len() == version_field(b).len());
        if a is Some {
            assert(version_field(a)[0] == version_field(b)[0]);
        }
    }
}

pub proof fn lemma_bytes_field_injective(a: Seq<u8>, b: Seq<u8>)
    ensures
        bytes_field(a) == bytes_field(b) <==> a == b,
{
    if bytes_field(a) == bytes_field(b) {
        assert(a.len() == bytes_field(a).len() && b.len() == bytes_field(b).len());
        assert forall|i: int| 0 <= i < a.len() implies a[i] == b[i] by {
            assert(bytes_field(a)[i] == a[i] as int);
            assert(bytes_field(b)[i] == b[i] as int);
        }
        assert(a =~= b);
    }
}

pub proof fn lemma_text_field_injective(a: Seq<char>, b: Seq<char>)
    ensures
        text_field(a) == text_field(b) <==> a == b,
{
    encode_utf8_decode_utf8(a);
    encode_utf8_decode_utf8(b);
    lemma_bytes_field_injective(encode_utf8(a), encode_utf8(b));
}

/// The order of two byte buffers.
pub fn cmp_bytes(a: &[u8], b: &[u8]) -> (r: Ordering)
    ensures
        r == lex(bytes_field(a@), bytes_field(b@)),
{
    let ghost (fa, fb) = (bytes_field(a@), bytes_field(b@));
    let mut i: usize = 0;
    assert(fa.skip(0) =~= fa && fb.skip(0) =~= fb);
    while i < a.len() && i < b.len()
        invariant
            i <= a@.len(),
            i <= b@.len(),
            fa == bytes_field(a@),
            fb == bytes_field(b@),
            lex(fa, fb) == lex(fa.skip(i as int), fb.skip(i as int)),
        decreases a@.len() - i,
    {
        assert(fa.skip(i as int).drop_first() =~= fa.skip(i + 1));
        assert(fb.skip(i as int).drop_first() =~= fb.skip(i + 1));
        if a[i] < b[i] {
            return Ordering::Less;
        } else if a[i] > b[i] {
            return Ordering::Greater;
        }
        i = i + 1;
    }
    if i < a.len() {
        Ordering::Greater
    } else if i < b.len() {
        Ordering::Less
    } else {
        Ordering::Equal
    }
}

/// The order of two optional versions.
pub fn cmp_version(a: Option<u32>, b: Option<u32>) -> (r: Ordering)
    ensures
        r == lex(version_field(a), version_field(b)),
{
    match (a, b) {
        (None, None) => Ordering::Equal,
        (None, Some(_)) => Ordering::Less,
        (Some(_), None) => Ordering::Greater,
        (Some(x), Some(y)) => {
            assert(version_field(a).drop_first() =~= Seq::<int>::empty());
            assert(version_field(b).drop_first() =~= Seq::<int>::empty());
            assert(lex(Seq::<int>::empty(), Seq::<int>::empty()) == Ordering::Equal);
            if x < y {
                Ordering::Less
            } else if x > y {
                Ordering::Greater
            } else {
                Ordering::Equal
            }
        },
    }
}

/// `first`, unless it is `Equal`, in which case `next`.
pub fn then_cmp(first: Ordering, next: Ordering) -> (r: Ordering)
    ensures
        r == then(first, next),
{
    match first {
        Ordering::Equal => next,
        _ => first,
    }
}

} // verus!
