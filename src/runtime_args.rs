use vstd::prelude::*;
use vstd::utf8::*;

verus! {

/// Why an argument buffer could not be decoded.
#[derive(Clone, Copy, Debug, PartialEq, Eq)]
pub enum ArgumentDecodeError {
    /// The buffer ended inside a value.
    EarlyEndOfStream,
    /// A name is not valid UTF-8.
    Formatting,
    /// Bytes remain after the last argument.
    LeftOverBytes,
}

/// One named argument: a parameter name and the encoded value passed for it.
#[derive(Clone, Debug, PartialEq, Eq)]
struct NamedArg {
    name: String,
    value: Vec<u8>,
}

/// The decoded arguments of a deploy: named values, in order.
#[derive(Clone, Debug, PartialEq, Eq)]
pub struct RuntimeArgs {
    args: Vec<NamedArg>,
}

impl View for RuntimeArgs {
    type V = Seq<(Seq<char>, Seq<u8>)>;

    closed spec fn view(&self) -> Seq<(Seq<char>, Seq<u8>)> {
        self.args@.map_values(|a: NamedArg| (a.name@, a.value@))
    }
}

/// The four little-endian bytes of `n`.
pub open spec fn u32_le_bytes(n: u32) -> Seq<u8> {
    seq![
        (n & 0xff) as u8,
        ((n >> 8u32) & 0xff) as u8,
        ((n >> 16u32) & 0xff) as u8,
        ((n >> 24u32) & 0xff) as u8,
    ]
}

/// The number whose little-endian bytes are `b0`, `b1`, `b2`, `b3`.
pub open spec fn le_u32(b0: u8, b1: u8, b2: u8, b3: u8) -> u32 {
    (b0 as u32) | ((b1 as u32) << 8u32) | ((b2 as u32) << 16u32) | ((b3 as u32) << 24u32)
}

/// A byte string: its length as four little-endian bytes, then its bytes.
pub open spec fn encode_bytes(v: Seq<u8>) -> Seq<u8> {
    u32_le_bytes(v.len() as u32) + v
}

/// A text string: its UTF-8 bytes as a byte string.
pub open spec fn encode_string(s: Seq<char>) -> Seq<u8> {
    encode_bytes(encode_utf8(s))
}

/// The encodings of the arguments, one after the other.
pub open spec fn encode_entries(a: Seq<(Seq<char>, Seq<u8>)>) -> Seq<u8>
    decreases a.len(),
{
    if a.len() == 0 {
        Seq::empty()
    } else {
        encode_string(a[0].0) + encode_bytes(a[0].1) + encode_entries(a.drop_first())
    }
}

/// An argument list: the number of arguments as four little-endian bytes,
/// then each name as a text string followed by its value as a byte string.
pub open spec fn encode_args(a: Seq<(Seq<char>, Seq<u8>)>) -> Seq<u8> {
    u32_le_bytes(a.len() as u32) + encode_entries(a)
}

/// Whether every count and length of `a` fits the four bytes it is written in.
pub open spec fn encodable(a: Seq<(Seq<char>, Seq<u8>)>) -> bool {
    &&& a.len() <= u32::MAX
    &&& forall|i: int|
        0 <= i < a.len() ==> encode_utf8(#[trigger] a[i].0).len() <= u32::MAX && a[i].1.len()
            <= u32::MAX
}

/// The number at `pos`, if four bytes remain there.
pub open spec fn read_u32(b: Seq<u8>, pos: int) -> Option<u32> {
    if 0 <= pos && pos + 4 <= b.len() {
        Some(le_u32(b[pos], b[pos + 1], b[pos + 2], b[pos + 3]))
    } else {
        None
    }
}

/// The byte string at `pos`, and the position after it.
pub open spec fn read_bytes(b: Seq<u8>, pos: int) -> Result<(Seq<u8>, int), ArgumentDecodeError> {
    match read_u32(b, pos) {
        None => Err(ArgumentDecodeError::EarlyEndOfStream),
        Some(n) => if pos + 4 + n <= b.len() {
            Ok((b.subrange(pos + 4, pos + 4 + n), pos + 4 + n))
        } else {
            Err(ArgumentDecodeError::EarlyEndOfStream)
        },
    }
}

/// The text string at `pos`, and the position after it.
pub open spec fn read_string(b: Seq<u8>, pos: int) -> Result<(Seq<char>, int), ArgumentDecodeError> {
    match read_bytes(b, pos) {
        Err(e) => Err(e),
        Ok((s, p)) => if valid_utf8(s) {
            Ok((decode_utf8(s), p))
        } else {
            Err(ArgumentDecodeError::Formatting)
        },
    }
}

/// Reads `remaining` more arguments from `pos` onward after those in `acc`.
pub open spec fn read_args(
    b: Seq<u8>,
    pos: int,
    remaining: nat,
    acc: Seq<(Seq<char>, Seq<u8>)>,
) -> Result<(Seq<(Seq<char>, Seq<u8>)>, int), ArgumentDecodeError>
    decreases remaining,
{
    if remaining == 0 {
        Ok((acc, pos))
    } else {
        match read_string(b, pos) {
            Err(e) => Err(e),
            Ok((name, after_name)) => match read_bytes(b, after_name) {
                Err(e) => Err(e),
                Ok((value, after_value)) => read_args(b, after_value, (remaining - 1) as nat, acc.push((name, value))),
            },
        }
    }
}

/// What an argument buffer decodes to: the arguments, where the buffer is
/// exactly one argument list.
pub open spec fn parse_args(b: Seq<u8>) -> Result<Seq<(Seq<char>, Seq<u8>)>, ArgumentDecodeError> {
    match read_u32(b, 0) {
        None => Err(ArgumentDecodeError::EarlyEndOfStream),
        Some(n) => match read_args(b, 4, n as nat, Seq::empty()) {
            Err(e) => Err(e),
            Ok((a, p)) => if p == b.len() {
                Ok(a)
            } else {
                Err(ArgumentDecodeError::LeftOverBytes)
            },
        },
    }
}

proof fn lemma_le_u32_of_bytes(n: u32)
    ensures
        le_u32(u32_le_bytes(n)[0], u32_le_bytes(n)[1], u32_le_bytes(n)[2], u32_le_bytes(n)[3]) == n,
{
    let (b0, b1, b2, b3) = (
        (n & 0xff) as u8,
        ((n >> 8u32) & 0xff) as u8,
        ((n >> 16u32) & 0xff) as u8,
        ((n >> 24u32) & 0xff) as u8,
    );
    assert((b0 as u32) | ((b1 as u32) << 8u32) | ((b2 as u32) << 16u32) | ((b3 as u32) << 24u32)
        == n) by (bit_vector)
        requires
            b0 == (n & 0xff) as u8,
            b1 == ((n >> 8u32) & 0xff) as u8,
            b2 == ((n >> 16u32) & 0xff) as u8,
            b3 == ((n >> 24u32) & 0xff) as u8,
    ;
}

proof fn lemma_read_encoded_bytes(b: Seq<u8>, pos: int, v: Seq<u8>)
    requires
        v.len() <= u32::MAX,
        0 <= pos,
        pos + encode_bytes(v).len() <= b.len(),
        b.subrange(pos, pos + encode_bytes(v).len()) == encode_bytes(v),
    ensures
        read_bytes(b, pos) == Ok::<(Seq<u8>, int), ArgumentDecodeError>(
            (v, pos + encode_bytes(v).len()),
        ),
{
    let e = encode_bytes(v);
    lemma_le_u32_of_bytes(v.len() as u32);
    assert forall|k: int| 0 <= k < e.len() implies b[pos + k] == e[k] by {
        assert(b.subrange(pos, pos + e.len())[k] == b[pos + k]);
    }
    assert(b[pos] == e[0] && b[pos + 1] == e[1] && b[pos + 2] == e[2] && b[pos + 3] == e[3]);
    assert(e.len() == 4 + v.len());
    assert forall|k: int| 0 <= k < v.len() implies b.subrange(pos + 4, pos + 4 + v.len())[k]
        == v[k] by {
        assert(b[pos + 4 + k] == e[4 + k]);
    }
    assert(b.subrange(pos + 4, pos + 4 + v.len()) =~= v);
}

proof fn lemma_read_encoded_entries(
    b: Seq<u8>,
    pos: int,
    a: Seq<(Seq<char>, Seq<u8>)>,
    acc: Seq<(Seq<char>, Seq<u8>)>,
)
    requires
        encodable(a),
        0 <= pos,
        pos + encode_entries(a).len() <= b.len(),
        b.subrange(pos, pos + encode_entries(a).len()) == encode_entries(a),
    ensures
        read_args(b, pos, a.len(), acc) == Ok::<_, ArgumentDecodeError>(
            (acc + a, pos + encode_entries(a).len()),
        ),
    decreases a.len(),
{
    broadcast use {encode_utf8_valid_utf8, encode_utf8_decode_utf8};

    if a.len() == 0 {
        assert(acc + a =~= acc);
    } else {
        let name = encode_string(a[0].0);
        let value = encode_bytes(a[0].1);
        let rest = encode_entries(a.drop_first());
        let whole = b.subrange(pos, pos + encode_entries(a).len());
        assert(encode_entries(a) == name + value + rest);
        assert(whole == name + value + rest);
        assert((name + value + rest).subrange(0, name.len() as int) =~= name);
        assert((name + value + rest).subrange(name.len() as int, (name.len() + value.len()) as int)
            =~= value);
        assert((name + value + rest).subrange(
            (name.len() + value.len()) as int,
            whole.len() as int,
        ) =~= rest);
        assert(encode_utf8(a[0].0).len() <= u32::MAX && a[0].1.len() <= u32::MAX);
        assert(b.subrange(pos, pos + name.len()) =~= whole.subrange(0, name.len() as int));
        lemma_read_encoded_bytes(b, pos, encode_utf8(a[0].0));
        let after_name = pos + name.len();
        assert(b.subrange(after_name, after_name + value.len()) =~= whole.subrange(
            name.len() as int,
            (name.len() + value.len()) as int,
        ));
        lemma_read_encoded_bytes(b, after_name, a[0].1);
        let after_value = after_name + value.len();
        assert(b.subrange(after_value, after_value + rest.len()) =~= whole.subrange(
            (name.len() + value.len()) as int,
            whole.len() as int,
        ));
        assert forall|i: int| 0 <= i < a.drop_first().len() implies encode_utf8(
            #[trigger] a.drop_first()[i].0,
        ).len() <= u32::MAX && a.drop_first()[i].1.len() <= u32::MAX by {
            assert(a.drop_first()[i] == a[i + 1]);
        }
        lemma_read_encoded_entries(b, after_value, a.drop_first(), acc.push((a[0].0, a[0].1)));
        assert(acc.push((a[0].0, a[0].1)) + a.drop_first() =~= acc + a);
    }
}

proof fn lemma_encode_entries_push(a: Seq<(Seq<char>, Seq<u8>)>, e: (Seq<char>, Seq<u8>))
    ensures
        encode_entries(a.push(e)) == encode_entries(a) + encode_string(e.0) + encode_bytes(e.1),
    decreases a.len(),
{
    if a.len() == 0 {
        assert(a.push(e).drop_first() =~= Seq::<(Seq<char>, Seq<u8>)>::empty());
        assert(encode_entries(a.push(e).drop_first()) =~= Seq::<u8>::empty());
        assert(encode_entries(a.push(e)) =~= encode_string(e.0) + encode_bytes(e.1));
    } else {
        assert(a.push(e).drop_first() =~= a.drop_first().push(e));
        lemma_encode_entries_push(a.drop_first(), e);
        assert(encode_entries(a.push(e)) =~= encode_entries(a) + encode_string(e.0) + encode_bytes(
            e.1,
        ));
    }
}

/// Relies on `String::from_utf8`: it succeeds exactly on valid UTF-8, and
/// the string then holds the characters that the bytes encode.
#[verifier::external_body]
fn string_from_utf8(v: Vec<u8>) -> (r: Option<String>)
    ensures
        r is Some <==> valid_utf8(v@),
        r matches Some(s) ==> s@ == decode_utf8(v@),
{
    String::from_utf8(v).ok()
}

fn read_u32_at(b: &Vec<u8>, pos: usize) -> (r: Option<u32>)
    ensures
        r == read_u32(b@, pos as int),
{
    if pos <= b.len() && b.len() - pos >= 4 {
        Some(
            (b[pos] as u32) | ((b[pos + 1] as u32) << 8u32) | ((b[pos + 2] as u32) << 16u32) | ((b[pos
                + 3] as u32) << 24u32),
        )
    } else {
        None
    }
}

fn read_bytes_at(b: &Vec<u8>, pos: usize) -> (r: Result<(Vec<u8>, usize), ArgumentDecodeError>)
    ensures
        match r {
            Ok((v, p)) => read_bytes(b@, pos as int) == Ok::<_, ArgumentDecodeError>(
                (v@, p as int),
            ),
            Err(e) => read_bytes(b@, pos as int) == Err::<(Seq<u8>, int), _>(e),
        },
{
    let len = read_u32_at(b, pos);
    match len {
        None => Err(ArgumentDecodeError::EarlyEndOfStream),
        Some(n) => {
            let blen = b.len();
            assert(pos + 4 <= blen);
            let start = pos + 4;
            if n as usize <= b.len() - start {
                let end = start + n as usize;
                let mut v: Vec<u8> = Vec::new();
                let mut i = start;
                while i < end
                    invariant
                        start <= i <= end <= b@.len(),
                        v@ == b@.subrange(start as int, i as int),
                    decreases end - i,
                {
                    v.push(b[i]);
                    i = i + 1;
                    assert(v@ =~= b@.subrange(start as int, i as int));
                }
                Ok((v, end))
            } else {
                Err(ArgumentDecodeError::EarlyEndOfStream)
            }
        },
    }
}

fn read_string_at(b: &Vec<u8>, pos: usize) -> (r: Result<(String, usize), ArgumentDecodeError>)
    ensures
        match r {
            Ok((s, p)) => read_string(b@, pos as int) == Ok::<_, ArgumentDecodeError>(
                (s@, p as int),
            ),
            Err(e) => read_string(b@, pos as int) == Err::<(Seq<char>, int), _>(e),
        },
{
    match read_bytes_at(b, pos) {
        Err(e) => Err(e),
        Ok((v, p)) => match string_from_utf8(v) {
            Some(s) => Ok((s, p)),
            None => Err(ArgumentDecodeError::Formatting),
        },
    }
}

fn push_u32(out: &mut Vec<u8>, n: u32)
    ensures
        final(out)@ == old(out)@ + u32_le_bytes(n),
{
    out.push((n & 0xff) as u8);
    out.push(((n >> 8u32) & 0xff) as u8);
    out.push(((n >> 16u32) & 0xff) as u8);
    out.push(((n >> 24u32) & 0xff) as u8);
    assert(final(out)@ =~= old(out)@ + u32_le_bytes(n));
}

fn push_bytes(out: &mut Vec<u8>, v: &[u8])
    requires
        v@.len() <= u32::MAX,
    ensures
        final(out)@ == old(out)@ + encode_bytes(v@),
{
    push_u32(out, v.len() as u32);
    let ghost mid = out@;
    let mut i: usize = 0;
    while i < v.len()
        invariant
            i <= v@.len(),
            out@ == mid + v@.subrange(0, i as int),
        decreases v@.len() - i,
    {
        out.push(v[i]);
        i = i + 1;
        assert(out@ =~= mid + v@.subrange(0, i as int));
    }
    assert(v@.subrange(0, v@.len() as int) =~= v@);
}

impl RuntimeArgs {
    /// An empty argument list.
    pub fn new() -> (r: RuntimeArgs)
        ensures
            r@ == Seq::<(Seq<char>, Seq<u8>)>::empty(),
    {
        let r = RuntimeArgs { args: Vec::new() };
        assert(r@ =~= Seq::<(Seq<char>, Seq<u8>)>::empty());
        r
    }

    /// Appends the argument `name` with the encoded value `value`.
    pub fn insert(&mut self, name: String, value: Vec<u8>)
        ensures
            final(self)@ == old(self)@.push((name@, value@)),
    {
        self.args.push(NamedArg { name, value });
        assert(final(self)@ =~= old(self)@.push((name@, value@)));
    }

    /// The number of arguments.
    pub fn len(&self) -> (r: usize)
        ensures
            r == self@.len(),
    {
        self.args.len()
    }

    /// The encoding of the argument list.
    pub fn to_bytes(&self) -> (r: Vec<u8>)
        requires
            encodable(self@),
        ensures
            r@ == encode_args(self@),
    {
        let mut out: Vec<u8> = Vec::new();
        push_u32(&mut out, self.args.len() as u32);
        let mut i: usize = 0;
        assert(self@.take(0) =~= Seq::<(Seq<char>, Seq<u8>)>::empty());
        assert(out@ =~= u32_le_bytes(self@.len() as u32) + encode_entries(self@.take(0)));
        while i < self.args.len()
            invariant
                i <= self@.len(),
                self@.len() == self.args@.len(),
                encodable(self@),
                out@ == u32_le_bytes(self@.len() as u32) + encode_entries(self@.take(i as int)),
            decreases self@.len() - i,
        {
            let ghost e = self@[i as int];
            assert(e == (self.args@[i as int].name@, self.args@[i as int].value@));
            assert(encode_utf8(e.0).len() <= u32::MAX && e.1.len() <= u32::MAX);
            push_bytes(&mut out, self.args[i].name.as_str().as_bytes());
            push_bytes(&mut out, self.args[i].value.as_slice());
            proof {
                lemma_encode_entries_push(self@.take(i as int), e);
                assert(self@.take(i + 1) =~= self@.take(i as int).push(e));
            }
            i = i + 1;
            assert(out@ =~= u32_le_bytes(self@.len() as u32) + encode_entries(self@.take(i as int)));
        }
        assert(self@.take(i as int) =~= self@);
        out
    }

    /// Decodes an argument list from `b`, which must hold exactly one.
    pub fn from_bytes(b: &Vec<u8>) -> (r: Result<RuntimeArgs, ArgumentDecodeError>)
        ensures
            match r {
                Ok(a) => parse_args(b@) == Ok::<_, ArgumentDecodeError>(a@),
                Err(e) => parse_args(b@) == Err::<Seq<(Seq<char>, Seq<u8>)>, _>(e),
            },
    {
        let n = match read_u32_at(b, 0) {
            None => return Err(ArgumentDecodeError::EarlyEndOfStream),
            Some(n) => n,
        };
        let mut out = RuntimeArgs::new();
        let mut pos: usize = 4;
        let mut i: u32 = 0;
        while i < n
            invariant
                4 <= pos <= b@.len(),
                i <= n,
                read_u32(b@, 0) == Some(n),
                read_args(b@, 4, n as nat, Seq::empty()) == read_args(
                    b@,
                    pos as int,
                    (n - i) as nat,
                    out@,
                ),
            decreases n - i,
        {
            let (name, after_name) = match read_string_at(b, pos) {
                Ok(x) => x,
                Err(e) => return Err(e),
            };
            let (value, after_value) = match read_bytes_at(b, after_name) {
                Ok(x) => x,
                Err(e) => return Err(e),
            };
            out.insert(name, value);
            pos = after_value;
            i = i + 1;
        }
        if pos == b.len() {
            Ok(out)
        } else {
            Err(ArgumentDecodeError::LeftOverBytes)
        }
    }
}

proof fn lemma_bytes_of_le_u32(b0: u8, b1: u8, b2: u8, b3: u8)
    ensures
        u32_le_bytes(le_u32(b0, b1, b2, b3)) == seq![b0, b1, b2, b3],
{
    let x = le_u32(b0, b1, b2, b3);
    assert((x & 0xff) as u8 == b0 && ((x >> 8u32) & 0xff) as u8 == b1 && ((x >> 16u32) & 0xff) as u8
        == b2 && ((x >> 24u32) & 0xff) as u8 == b3) by (bit_vector)
        requires
            x == (b0 as u32) | ((b1 as u32) << 8u32) | ((b2 as u32) << 16u32) | ((b3 as u32)
                << 24u32),
    ;
    assert(u32_le_bytes(x) =~= seq![b0, b1, b2, b3]);
}

proof fn lemma_read_bytes_sound(b: Seq<u8>, pos: int)
    requires
        read_bytes(b, pos) is Ok,
    ensures
        ({
            let (v, p) = read_bytes(b, pos)->Ok_0;
            &&& v.len() <= u32::MAX
            &&& 0 <= pos <= p <= b.len()
            &&& b.subrange(pos, p) == encode_bytes(v)
        }),
{
    let (v, p) = read_bytes(b, pos)->Ok_0;
    lemma_bytes_of_le_u32(b[pos], b[pos + 1], b[pos + 2], b[pos + 3]);
    assert(b.subrange(pos, p) =~= encode_bytes(v));
}

proof fn lemma_read_string_sound(b: Seq<u8>, pos: int)
    requires
        read_string(b, pos) is Ok,
    ensures
        ({
            let (s, p) = read_string(b, pos)->Ok_0;
            &&& encode_utf8(s).len() <= u32::MAX
            &&& 0 <= pos <= p <= b.len()
            &&& b.subrange(pos, p) == encode_string(s)
        }),
{
    lemma_read_bytes_sound(b, pos);
    let (v, p) = read_bytes(b, pos)->Ok_0;
    decode_utf8_encode_utf8(v);
}

proof fn lemma_read_args_sound(
    b: Seq<u8>,
    pos: int,
    n: nat,
    acc: Seq<(Seq<char>, Seq<u8>)>,
)
    requires
        0 <= pos <= b.len(),
        read_args(b, pos, n, acc) is Ok,
    ensures
        ({
            let (a, p) = read_args(b, pos, n, acc)->Ok_0;
            let read = a.subrange(acc.len() as int, a.len() as int);
            &&& a.len() == acc.len() + n
            &&& a.subrange(0, acc.len() as int) == acc
            &&& forall|i: int|
                0 <= i < read.len() ==> encode_utf8(#[trigger] read[i].0).len() <= u32::MAX
                    && read[i].1.len() <= u32::MAX
            &&& pos <= p <= b.len()
            &&& b.subrange(pos, p) == encode_entries(read)
        }),
    decreases n,
{
    let (a, p) = read_args(b, pos, n, acc)->Ok_0;
    if n == 0 {
        assert(a.subrange(acc.len() as int, a.len() as int) =~= Seq::<(Seq<char>, Seq<u8>)>::empty());
        assert(a.subrange(0, acc.len() as int) =~= acc);
        assert(b.subrange(pos, p) =~= Seq::<u8>::empty());
    } else {
        lemma_read_string_sound(b, pos);
        let (name, after_name) = read_string(b, pos)->Ok_0;
        lemma_read_bytes_sound(b, after_name);
        let (value, after_value) = read_bytes(b, after_name)->Ok_0;
        let acc2 = acc.push((name, value));
        lemma_read_args_sound(b, after_value, (n - 1) as nat, acc2);
        let read = a.subrange(acc.len() as int, a.len() as int);
        let read2 = a.subrange(acc2.len() as int, a.len() as int);
        assert(a.subrange(0, acc2.len() as int)[acc.len() as int] == (name, value));
        assert(read[0] == (name, value));
        assert(read.drop_first() =~= read2);
        assert(a.subrange(0, acc.len() as int) =~= a.subrange(0, acc2.len() as int).subrange(
            0,
            acc.len() as int,
        ));
        assert forall|i: int| 0 <= i < read.len() implies encode_utf8(#[trigger] read[i].0).len()
            <= u32::MAX && read[i].1.len() <= u32::MAX by {
            if i > 0 {
                assert(read[i] == read2[i - 1]);
            }
        }
        assert(b.subrange(pos, p) =~= b.subrange(pos, after_name) + b.subrange(after_name, after_value) + b.subrange(after_value, p));
    }
}

/// Decoding accepts only canonical encodings: whatever decodes encodes back
/// to exactly the bytes it came from.
pub proof fn lemma_decoded_args_encode_back(b: Seq<u8>)
    requires
        parse_args(b) is Ok,
    ensures
        encodable(parse_args(b)->Ok_0),
        encode_args(parse_args(b)->Ok_0) == b,
{
    let n = read_u32(b, 0)->0;
    let empty = Seq::<(Seq<char>, Seq<u8>)>::empty();
    lemma_read_args_sound(b, 4, n as nat, empty);
    let (a, p) = read_args(b, 4, n as nat, empty)->Ok_0;
    assert(a.subrange(0, a.len() as int) =~= a);
    lemma_bytes_of_le_u32(b[0], b[1], b[2], b[3]);
    assert(b =~= b.subrange(0, 4) + b.subrange(4, p));
}

/// Decoding undoes encoding: an argument list whose counts and lengths fit
/// their four bytes decodes from its encoding to itself.
pub proof fn lemma_decode_encoded_args(a: Seq<(Seq<char>, Seq<u8>)>)
    requires
        encodable(a),
    ensures
        parse_args(encode_args(a)) == Ok::<_, ArgumentDecodeError>(a),
{
    let b = encode_args(a);
    let e = encode_entries(a);
    lemma_le_u32_of_bytes(a.len() as u32);
    assert(b.subrange(4, (4 + e.len()) as int) =~= e);
    lemma_read_encoded_entries(b, 4, a, Seq::empty());
    assert(Seq::<(Seq<char>, Seq<u8>)>::empty() + a =~= a);
}

} // verus!
