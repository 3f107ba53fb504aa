//! Fixed-length, alphabet-constrained string identifiers.
//!
//! An identifier is exactly `N` bytes, each drawn from a declared
//! [`Alphabet`](alphabet::Alphabet). A value of the type exists only in that
//! shape: generation writes nothing but alphabet symbols, and parsing
//! rejects any other input with a precise error, so every live identifier
//! satisfies its invariant by construction.

use core::marker::PhantomData;
use vstd::prelude::*;
use vstd::string::StringExecFns;
use vstd::string::StringSliceAdditionalSpecFns;
use vstd::utf8::encode_utf8;
use vstd::utf8::encode_utf8_decode_utf8;
use vstd::utf8::encode_utf8_valid_utf8;
use vstd::utf8::is_ascii_chars;
use vstd::utf8::is_ascii_chars_encode_utf8;
use vstd::utf8::valid_utf8;

pub mod alphabet;
pub mod random;

use alphabet::Alphabet;
use alphabet::lemma_non_ascii_not_symbol;
use alphabet::symbol_table;
use random::RandomSource;
use random::ThreadRandom;

verus! {

/// An error from parsing bytes or text into an identifier.
#[derive(Debug, Clone, PartialEq, Eq, Hash, Structural)]
pub enum ParseError {
    /// The input's byte length is not the expected length.
    InvalidLength {
        /// The length the identifier type expects.
        expected: usize,
        /// The byte length the input actually has.
        actual: usize,
    },
    /// The first input byte, in left-to-right scan order, that is not in
    /// the alphabet.
    InvalidCharacter(u8),
}

/// Every byte of `s` is a symbol of alphabet `A`.
pub open spec fn all_valid<A: Alphabet>(s: Seq<u8>) -> bool {
    forall|i: int| 0 <= i < s.len() ==> A::symbols().contains(s[i])
}

/// The position of the first byte of `s` that is not a symbol of `A`.
pub open spec fn first_invalid<A: Alphabet>(s: Seq<u8>) -> int
    decreases s.len(),
{
    if s.len() == 0 {
        0
    } else if !A::symbols().contains(s[0]) {
        0
    } else {
        1 + first_invalid::<A>(s.drop_first())
    }
}

/// What parsing `input` against length `n` and alphabet `A` yields:
/// the input bytes themselves, or the precise error.
pub open spec fn parse_model<A: Alphabet>(input: Seq<u8>, n: nat) -> Result<
    Seq<u8>,
    ParseError,
> {
    if input.len() != n {
        Err(
            ParseError::InvalidLength {
                expected: n as usize,
                actual: input.len() as usize,
            },
        )
    } else if !all_valid::<A>(input) {
        Err(ParseError::InvalidCharacter(input[first_invalid::<A>(input)]))
    } else {
        Ok(input)
    }
}

/// The text a byte sequence spells when its ASCII bytes are read as
/// characters.
pub open spec fn text_of(s: Seq<u8>) -> Seq<char> {
    s.map_values(|b: u8| b as char)
}

proof fn lemma_first_invalid_at<A: Alphabet>(s: Seq<u8>, i: int)
    requires
        0 <= i < s.len(),
        !A::symbols().contains(s[i]),
        forall|j: int| 0 <= j < i ==> A::symbols().contains(s[j]),
    ensures
        first_invalid::<A>(s) == i,
    decreases i,
{
    if i > 0 {
        lemma_first_invalid_at::<A>(s.drop_first(), i - 1);
    }
}

/// Bytes that are all symbols of some alphabet are ASCII, spell a text of
/// the same length, and form valid UTF-8 equal to that text's encoding.
proof fn lemma_text_bytes<A: Alphabet>(s: Seq<u8>)
    requires
        all_valid::<A>(s),
    ensures
        forall|i: int| 0 <= i < s.len() ==> s[i] < 128,
        is_ascii_chars(text_of(s)),
        encode_utf8(text_of(s)) == s,
        valid_utf8(s),
{
    A::symbols_ascii();
    assert forall|i: int| 0 <= i < s.len() implies s[i] < 128 by {
        let j = choose|j: int| 0 <= j < A::symbols().len() && A::symbols()[j] == s[i];
    }
    let chars = text_of(s);
    assert forall|i: int| 0 <= i < chars.len() implies '\0' <= #[trigger] chars[i]
        <= '\u{7f}' by {
        assert(chars[i] == s[i] as char);
        assert(s[i] < 128);
    }
    is_ascii_chars_encode_utf8(chars);
    assert(encode_utf8(chars) =~= s);
    encode_utf8_valid_utf8(chars);
}

/// Relies on `core::str::from_utf8`: on valid UTF-8 input it returns `Ok`
/// with the string formed of exactly those bytes, so the `unwrap` cannot
/// fail here.
#[verifier::external_body]
fn bytes_as_str(v: &[u8]) -> (r: &str)
    requires
        valid_utf8(v@),
    ensures
        r.spec_bytes() == v@,
{
    core::str::from_utf8(v).unwrap()
}

/// A fixed-length identifier whose bytes are all symbols of alphabet `A`.
///
/// `N` is the byte length; `A` fixes the symbol set, so identifiers over
/// different alphabets are distinct types even at equal length.
#[derive(Debug, Eq, Ord, Hash)]
pub struct Nanoid<const N: usize, A: Alphabet> {
    inner: [u8; N],
    marker: PhantomData<A>,
}

impl<const N: usize, A: Alphabet> Copy for Nanoid<N, A> {
}

impl<const N: usize, A: Alphabet> Clone for Nanoid<N, A> {
    fn clone(&self) -> (r: Self)
        ensures
            r == *self,
    {
        *self
    }
}

impl<const N: usize, A: Alphabet> View for Nanoid<N, A> {
    type V = Seq<u8>;

    closed spec fn view(&self) -> Seq<u8> {
        self.inner@
    }
}

impl<const N: usize, A: Alphabet> Nanoid<N, A> {
    /// The identifier invariant: exactly `N` bytes, each a symbol of `A`.
    /// As the type invariant, it holds of every reachable identifier.
    #[verifier::type_invariant]
    pub open spec fn wf(self) -> bool {
        self@.len() == N && all_valid::<A>(self@)
    }

    /// Generate a fresh identifier from the system's default random source.
    pub fn new() -> (id: Self)
        ensures
            id.wf(),
    {
        Self::new_with(ThreadRandom::new())
    }

    /// Generate a fresh identifier, drawing every position independently
    /// and uniformly from the alphabet through the given source.
    pub fn new_with<R: RandomSource>(rng: R) -> (id: Self)
        ensures
            id.wf(),
    {
        let mut rng = rng;
        proof {
            A::symbols_ascii();
        }
        let list = A::symbol_list();
        let count = list.len();
        let mut buf: [u8; N] = [0u8; N];
        let mut i: usize = 0;
        while i < N
            invariant
                list@ == A::symbols(),
                count == list@.len(),
                count >= 1,
                i <= N,
                forall|j: int| 0 <= j < i ==> A::symbols().contains(buf@[j]),
            decreases N - i,
        {
            let k = rng.sample(count);
            buf[i] = list[k];
            proof {
                assert(A::symbols()[k as int] == buf@[i as int]);
            }
            i += 1;
        }
        Nanoid { inner: buf, marker: PhantomData }
    }

    /// Parse a byte array into an identifier: scan left to right and stop
    /// at the first byte outside the alphabet.
    pub fn try_from_bytes(buf: [u8; N]) -> (r: Result<Self, ParseError>)
        ensures
            r matches Ok(id) ==> parse_model::<A>(buf@, N as nat) == Ok::<
                Seq<u8>,
                ParseError,
            >(id@) && id.wf(),
            r matches Err(e) ==> parse_model::<A>(buf@, N as nat) == Err::<
                Seq<u8>,
                ParseError,
            >(e),
    {
        let t = symbol_table::<A>();
        let mut i: usize = 0;
        while i < N
            invariant
                t@.len() == 128,
                forall|b: int| 0 <= b < 128 ==> t@[b] == A::symbols().contains(b as u8),
                i <= N,
                forall|j: int| 0 <= j < i ==> A::symbols().contains(buf@[j]),
            decreases N - i,
        {
            let b = buf[i];
            if b >= 128 {
                proof {
                    lemma_non_ascii_not_symbol::<A>(b);
                    lemma_first_invalid_at::<A>(buf@, i as int);
                }
                return Err(ParseError::InvalidCharacter(b));
            }
            if !t[b as usize] {
                proof {
                    lemma_first_invalid_at::<A>(buf@, i as int);
                }
                return Err(ParseError::InvalidCharacter(b));
            }
            i += 1;
        }
        Ok(Nanoid { inner: buf, marker: PhantomData })
    }

    /// Parse a string into an identifier: check the byte length against
    /// `N` first, then every byte's membership in the alphabet.
    pub fn try_from_str(s: &str) -> (r: Result<Self, ParseError>)
        ensures
            r matches Ok(id) ==> parse_model::<A>(s.spec_bytes(), N as nat) == Ok::<
                Seq<u8>,
                ParseError,
            >(id@) && id.wf(),
            r matches Err(e) ==> parse_model::<A>(s.spec_bytes(), N as nat) == Err::<
                Seq<u8>,
                ParseError,
            >(e),
    {
        let bytes: &[u8] = s.as_bytes();
        if bytes.len() != N {
            return Err(
                ParseError::InvalidLength { expected: N, actual: bytes.len() },
            );
        }
        let mut buf: [u8; N] = [0u8; N];
        let mut i: usize = 0;
        while i < N
            invariant
                bytes@.len() == N,
                i <= N,
                forall|j: int| 0 <= j < i ==> buf@[j] == bytes@[j],
            decreases N - i,
        {
            buf[i] = bytes[i];
            i += 1;
        }
        proof {
            assert(buf@ =~= bytes@);
        }
        Self::try_from_bytes(buf)
    }

    /// The identifier's text, borrowed without copying: its ASCII bytes
    /// read as characters.
    pub fn as_str(&self) -> (r: &str)
        ensures
            r@ == text_of(self@),
            r.spec_bytes() == self@,
    {
        proof {
            use_type_invariant(self);
            lemma_text_bytes::<A>(self@);
        }
        let r = bytes_as_str(self.inner.as_slice());
        proof {
            encode_utf8_decode_utf8(r@);
            encode_utf8_decode_utf8(text_of(self@));
        }
        r
    }

    /// The identifier's text as an owned string; it spells the same text
    /// as [`Self::as_str`].
    pub fn to_text(&self) -> (r: String)
        ensures
            r@ == text_of(self@),
    {
        self.as_str().to_owned()
    }

    /// The identifier's debug rendering: the type name around its text.
    pub fn debug_text(&self) -> (r: String)
        ensures
            r@ == "Nanoid(\""@ + text_of(self@) + "\")"@,
    {
        let mut out = String::from_str("Nanoid(\"");
        out.append(self.as_str());
        out.append("\")");
        out
    }
}

/// Byte-lexicographic comparison of two equal-length byte sequences.
pub open spec fn lex_cmp(a: Seq<u8>, b: Seq<u8>) -> core::cmp::Ordering
    recommends
        a.len() == b.len(),
    decreases a.len(),
{
    if a.len() == 0 || b.len() == 0 {
        core::cmp::Ordering::Equal
    } else if a[0] < b[0] {
        core::cmp::Ordering::Less
    } else if a[0] > b[0] {
        core::cmp::Ordering::Greater
    } else {
        lex_cmp(a.drop_first(), b.drop_first())
    }
}

proof fn lemma_lex_cmp_all_equal(a: Seq<u8>, b: Seq<u8>)
    requires
        a.len() == b.len(),
        forall|j: int| 0 <= j < a.len() ==> a[j] == b[j],
    ensures
        lex_cmp(a, b) == core::cmp::Ordering::Equal,
    decreases a.len(),
{
    if a.len() > 0 {
        lemma_lex_cmp_all_equal(a.drop_first(), b.drop_first());
    }
}

proof fn lemma_lex_cmp_first_diff(a: Seq<u8>, b: Seq<u8>, i: int)
    requires
        a.len() == b.len(),
        0 <= i < a.len(),
        a[i] != b[i],
        forall|j: int| 0 <= j < i ==> a[j] == b[j],
    ensures
        lex_cmp(a, b) == if a[i] < b[i] {
            core::cmp::Ordering::Less
        } else {
            core::cmp::Ordering::Greater
        },
    decreases i,
{
    if i > 0 {
        lemma_lex_cmp_first_diff(a.drop_first(), b.drop_first(), i - 1);
    }
}

/// Ordering agrees with equality: two equal-length byte sequences compare
/// as `Equal` exactly when they are the same sequence, so identifiers that
/// compare equal are equal byte for byte.
pub proof fn lemma_lex_cmp_equal_iff(a: Seq<u8>, b: Seq<u8>)
    requires
        a.len() == b.len(),
    ensures
        lex_cmp(a, b) == core::cmp::Ordering::Equal <==> a == b,
    decreases a.len(),
{
    if a == b {
        lemma_lex_cmp_all_equal(a, b);
    } else if a.len() > 0 && a[0] == b[0] {
        lemma_lex_cmp_equal_iff(a.drop_first(), b.drop_first());
        if a.drop_first() == b.drop_first() {
            assert forall|i: int| 0 <= i < a.len() implies a[i] == b[i] by {
                if i > 0 {
                    assert(a.drop_first()[i - 1] == b.drop_first()[i - 1]);
                }
            }
            assert(a =~= b);
        }
    } else {
        if a.len() == 0 {
            assert(a =~= b);
        }
    }
}

impl<const N: usize, A: Alphabet> PartialEq for Nanoid<N, A> {
    fn eq(&self, other: &Self) -> (r: bool) {
        let mut i: usize = 0;
        while i < N
            invariant
                i <= N,
                forall|j: int| 0 <= j < i ==> self@[j] == other@[j],
            decreases N - i,
        {
            if self.inner[i] != other.inner[i] {
                return false;
            }
            i += 1;
        }
        proof {
            assert(self@ =~= other@);
        }
        true
    }
}

impl<const N: usize, A: Alphabet> vstd::std_specs::cmp::PartialEqSpecImpl for Nanoid<N, A> {
    open spec fn obeys_eq_spec() -> bool {
        true
    }

    open spec fn eq_spec(&self, other: &Self) -> bool {
        self@ == other@
    }
}

impl<const N: usize, A: Alphabet> PartialOrd for Nanoid<N, A> {
    fn partial_cmp(&self, other: &Self) -> (r: Option<core::cmp::Ordering>) {
        let mut i: usize = 0;
        while i < N
            invariant
                i <= N,
                forall|j: int| 0 <= j < i ==> self@[j] == other@[j],
            decreases N - i,
        {
            if self.inner[i] < other.inner[i] {
                proof {
                    lemma_lex_cmp_first_diff(self@, other@, i as int);
                }
                return Some(core::cmp::Ordering::Less);
            }
            if self.inner[i] > other.inner[i] {
                proof {
                    lemma_lex_cmp_first_diff(self@, other@, i as int);
                }
                return Some(core::cmp::Ordering::Greater);
            }
            i += 1;
        }
        proof {
            lemma_lex_cmp_all_equal(self@, other@);
        }
        Some(core::cmp::Ordering::Equal)
    }
}

impl<const N: usize, A: Alphabet> vstd::std_specs::cmp::PartialOrdSpecImpl for Nanoid<N, A> {
    open spec fn obeys_partial_cmp_spec() -> bool {
        true
    }

    open spec fn partial_cmp_spec(&self, other: &Self) -> Option<core::cmp::Ordering> {
        Some(lex_cmp(self@, other@))
    }
}

/// The bytes of a well-formed identifier, handed back to the parser under
/// the same length and alphabet, are accepted and yield the identifier
/// itself.
pub proof fn lemma_round_trip<const N: usize, A: Alphabet>(id: Nanoid<N, A>)
    requires
        id.wf(),
    ensures
        parse_model::<A>(id@, N as nat) == Ok::<Seq<u8>, ParseError>(id@),
{
}

/// The text of a well-formed identifier, encoded back to bytes the way a
/// string presents them to the parser, is accepted and yields the
/// identifier itself. `as_str` returns exactly `text_of` of the
/// identifier's bytes and `try_from_str` judges a string by its encoded
/// bytes, so parsing a generated identifier's text gives an equal
/// identifier.
pub proof fn lemma_round_trip_text<const N: usize, A: Alphabet>(id: Nanoid<N, A>)
    requires
        id.wf(),
    ensures
        parse_model::<A>(encode_utf8(text_of(id@)), N as nat) == Ok::<Seq<u8>, ParseError>(
            id@,
        ),
{
    lemma_text_bytes::<A>(id@);
}

/// Input whose byte length is not the expected length is rejected with
/// `InvalidLength` carrying both lengths, whatever bytes it holds.
pub proof fn lemma_length_enforcement<A: Alphabet>(input: Seq<u8>, n: nat)
    requires
        input.len() != n,
    ensures
        parse_model::<A>(input, n) == Err::<Seq<u8>, ParseError>(
            ParseError::InvalidLength {
                expected: n as usize,
                actual: input.len() as usize,
            },
        ),
{
}

/// When the length matches and position `i` holds the first byte outside
/// the alphabet, parsing fails with `InvalidCharacter` carrying exactly
/// that byte, whatever follows it.
pub proof fn lemma_first_violation<A: Alphabet>(input: Seq<u8>, n: nat, i: int)
    requires
        input.len() == n,
        0 <= i < input.len(),
        !A::symbols().contains(input[i]),
        forall|j: int| 0 <= j < i ==> A::symbols().contains(input[j]),
    ensures
        parse_model::<A>(input, n) == Err::<Seq<u8>, ParseError>(
            ParseError::InvalidCharacter(input[i]),
        ),
{
    lemma_first_invalid_at::<A>(input, i);
}

impl<const N: usize, A: Alphabet> core::str::FromStr for Nanoid<N, A> {
    type Err = ParseError;

    fn from_str(s: &str) -> (r: Result<Self, ParseError>) {
        Self::try_from_str(s)
    }
}

} // verus!
