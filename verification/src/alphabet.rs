//! Alphabets: the sets of symbols an identifier may be built from.
//!
//! An alphabet is an ordered list of ASCII bytes. Each of the standard
//! alphabets below is a zero-state type; the list itself is fixed by the
//! type, so two identifiers over different alphabets can never be mixed up.

use vstd::prelude::*;

verus! {

/// A contiguous run of byte values: `start`, `start + 1`, ... of length `len`.
///
/// The standard alphabets are unions of such runs (letter and digit ranges).
pub open spec fn byte_run(start: u8, len: nat) -> Seq<u8> {
    Seq::new(len, |i: int| (start + i) as u8)
}

/// A set of symbols usable in an identifier: an ordered list of ASCII bytes.
///
/// `symbols()` is the mathematical symbol list; `symbol_list()` hands the
/// same list to executable code, and `symbols_ascii()` is the static proof
/// that every symbol is ASCII, so a defective alphabet cannot exist at all.
pub trait Alphabet: Sized {
    /// The symbols of this alphabet, in order.
    spec fn symbols() -> Seq<u8>;

    /// Every alphabet holds between 1 and 128 symbols, all of them ASCII.
    proof fn symbols_ascii()
        ensures
            1 <= Self::symbols().len() <= 128,
            forall|i: int| 0 <= i < Self::symbols().len() ==> Self::symbols()[i] < 128,
    ;

    /// The symbol list, materialised for executable code.
    fn symbol_list() -> (v: Vec<u8>)
        ensures
            v@ == Self::symbols(),
    ;
}

/// Check that every byte of a symbol list is ASCII.
///
/// The precondition makes the check a verified fact rather than a runtime
/// failure: a list with a non-ASCII byte is rejected before the program runs.
pub fn assert_all_ascii(s: &[u8])
    requires
        forall|i: int| 0 <= i < s@.len() ==> s@[i] < 128,
{
    let mut i: usize = 0;
    while i < s.len()
        invariant
            forall|j: int| 0 <= j < s@.len() ==> s@[j] < 128,
            i <= s@.len(),
        decreases s@.len() - i,
    {
        assert(s@[i as int] < 128);
        i += 1;
    }
}

/// Append the run `start .. start + len` to `v`.
fn push_run(v: &mut Vec<u8>, start: u8, len: u8)
    requires
        start + len <= 128,
    ensures
        final(v)@ == old(v)@ + byte_run(start, len as nat),
{
    let ghost v0 = old(v)@;
    let mut k: u8 = 0;
    while k < len
        invariant
            start + len <= 128,
            k <= len,
            v@ == v0 + byte_run(start, k as nat),
        decreases len - k,
    {
        v.push(start + k);
        k += 1;
        proof {
            assert(v@ =~= v0 + byte_run(start, k as nat));
        }
    }
}

/// How many symbols the alphabet has.
pub fn symbol_count<A: Alphabet>() -> (n: usize)
    ensures
        n == A::symbols().len(),
{
    let v = A::symbol_list();
    v.len()
}

/// The symbol at position `i` of the alphabet.
pub fn symbol_at<A: Alphabet>(i: usize) -> (b: u8)
    requires
        i < A::symbols().len(),
    ensures
        b == A::symbols()[i as int],
{
    let v = A::symbol_list();
    v[i]
}

/// The membership table of the alphabet: entry `b` says whether byte `b`
/// is one of its symbols. Bytes of 128 and above have no entry and are
/// never symbols.
pub fn symbol_table<A: Alphabet>() -> (t: Vec<bool>)
    ensures
        t@.len() == 128,
        forall|b: int| 0 <= b < 128 ==> t@[b] == A::symbols().contains(b as u8),
{
    proof {
        A::symbols_ascii();
    }
    let list = A::symbol_list();
    let mut t: Vec<bool> = Vec::new();
    let mut b: usize = 0;
    while b < 128
        invariant
            t@.len() == b,
            b <= 128,
            forall|j: int| 0 <= j < b ==> !t@[j],
        decreases 128 - b,
    {
        t.push(false);
        b += 1;
    }
    let mut i: usize = 0;
    while i < list.len()
        invariant
            t@.len() == 128,
            list@ == A::symbols(),
            forall|j: int| 0 <= j < list@.len() ==> list@[j] < 128,
            i <= list@.len(),
            forall|j: int| 0 <= j < 128 ==> (t@[j] ==> A::symbols().contains(j as u8)),
            forall|j: int| 0 <= j < i ==> t@[list@[j] as int],
        decreases list@.len() - i,
    {
        let s = list[i];
        t.set(s as usize, true);
        assert(A::symbols().contains(s));
        i += 1;
    }
    proof {
        assert forall|b2: int| 0 <= b2 < 128 implies t@[b2] == A::symbols().contains(
            b2 as u8,
        ) by {
            if A::symbols().contains(b2 as u8) {
                let j = choose|j: int|
                    0 <= j < A::symbols().len() && A::symbols()[j] == b2 as u8;
                assert(t@[list@[j] as int]);
            }
        }
    }
    t
}

/// A byte outside the ASCII range is never a symbol of any alphabet.
pub proof fn lemma_non_ascii_not_symbol<A: Alphabet>(b: u8)
    requires
        b >= 128,
    ensures
        !A::symbols().contains(b),
{
    A::symbols_ascii();
    if A::symbols().contains(b) {
        let j = choose|j: int| 0 <= j < A::symbols().len() && A::symbols()[j] == b;
    }
}

/// Whether byte `b` is a symbol of the alphabet, through the membership table.
pub fn contains<A: Alphabet>(b: u8) -> (r: bool)
    ensures
        r == A::symbols().contains(b),
{
    if b >= 128 {
        proof {
            lemma_non_ascii_not_symbol::<A>(b);
        }
        false
    } else {
        let t = symbol_table::<A>();
        t[b as usize]
    }
}

/// Alphabet with `A-Za-z0-9_-` symbols. This is the default alphabet.
#[derive(Clone, Copy, Debug, PartialEq, Eq, PartialOrd, Ord, Hash)]
pub struct Base64UrlAlphabet;

impl Alphabet for Base64UrlAlphabet {
    open spec fn symbols() -> Seq<u8> {
        byte_run(65, 26) + byte_run(97, 26) + byte_run(48, 10) + seq![95u8, 45u8]
    }

    proof fn symbols_ascii() {
    }

    fn symbol_list() -> (v: Vec<u8>) {
        let mut v: Vec<u8> = Vec::new();
        push_run(&mut v, 65, 26);
        push_run(&mut v, 97, 26);
        push_run(&mut v, 48, 10);
        v.push(95);
        v.push(45);
        proof {
            assert(v@ =~= Self::symbols());
        }
        v
    }
}

/// Alphabet with `A-Za-z0-9` symbols.
#[derive(Clone, Copy, Debug, PartialEq, Eq, PartialOrd, Ord, Hash)]
pub struct Base62Alphabet;

impl Alphabet for Base62Alphabet {
    open spec fn symbols() -> Seq<u8> {
        byte_run(65, 26) + byte_run(97, 26) + byte_run(48, 10)
    }

    proof fn symbols_ascii() {
    }

    fn symbol_list() -> (v: Vec<u8>) {
        let mut v: Vec<u8> = Vec::new();
        push_run(&mut v, 65, 26);
        push_run(&mut v, 97, 26);
        push_run(&mut v, 48, 10);
        proof {
            assert(v@ =~= Self::symbols());
        }
        v
    }
}

/// Alphabet with `A-Za-z0-9` symbols excluding the confusable `0 O l I`.
#[derive(Clone, Copy, Debug, PartialEq, Eq, PartialOrd, Ord, Hash)]
pub struct Base58Alphabet;

impl Alphabet for Base58Alphabet {
    open spec fn symbols() -> Seq<u8> {
        // The runs are A-H, J-N, P-Z, a-k, m-z and 1-9: the gaps leave out
        // the four confusable symbols.
        byte_run(65, 8) + byte_run(74, 5) + byte_run(80, 11) + byte_run(97, 11) + byte_run(
            109,
            14,
        ) + byte_run(49, 9)
    }

    proof fn symbols_ascii() {
    }

    fn symbol_list() -> (v: Vec<u8>) {
        let mut v: Vec<u8> = Vec::new();
        push_run(&mut v, 65, 8);
        push_run(&mut v, 74, 5);
        push_run(&mut v, 80, 11);
        push_run(&mut v, 97, 11);
        push_run(&mut v, 109, 14);
        push_run(&mut v, 49, 9);
        proof {
            assert(v@ =~= Self::symbols());
        }
        v
    }
}

/// Alphabet with `A-Z0-9` symbols.
#[derive(Clone, Copy, Debug, PartialEq, Eq, PartialOrd, Ord, Hash)]
pub struct Base36Alphabet;

impl Alphabet for Base36Alphabet {
    open spec fn symbols() -> Seq<u8> {
        byte_run(65, 26) + byte_run(48, 10)
    }

    proof fn symbols_ascii() {
    }

    fn symbol_list() -> (v: Vec<u8>) {
        let mut v: Vec<u8> = Vec::new();
        push_run(&mut v, 65, 26);
        push_run(&mut v, 48, 10);
        proof {
            assert(v@ =~= Self::symbols());
        }
        v
    }
}

/// Alphabet with `a-z0-9` symbols.
#[derive(Clone, Copy, Debug, PartialEq, Eq, PartialOrd, Ord, Hash)]
pub struct Base36LowercaseAlphabet;

impl Alphabet for Base36LowercaseAlphabet {
    open spec fn symbols() -> Seq<u8> {
        byte_run(97, 26) + byte_run(48, 10)
    }

    proof fn symbols_ascii() {
    }

    fn symbol_list() -> (v: Vec<u8>) {
        let mut v: Vec<u8> = Vec::new();
        push_run(&mut v, 97, 26);
        push_run(&mut v, 48, 10);
        proof {
            assert(v@ =~= Self::symbols());
        }
        v
    }
}

/// Alphabet with `A-Z2-7` symbols.
#[derive(Clone, Copy, Debug, PartialEq, Eq, PartialOrd, Ord, Hash)]
pub struct Base32Alphabet;

impl Alphabet for Base32Alphabet {
    open spec fn symbols() -> Seq<u8> {
        byte_run(65, 26) + byte_run(50, 6)
    }

    proof fn symbols_ascii() {
    }

    fn symbol_list() -> (v: Vec<u8>) {
        let mut v: Vec<u8> = Vec::new();
        push_run(&mut v, 65, 26);
        push_run(&mut v, 50, 6);
        proof {
            assert(v@ =~= Self::symbols());
        }
        v
    }
}

/// Alphabet with `a-z2-7` symbols.
#[derive(Clone, Copy, Debug, PartialEq, Eq, PartialOrd, Ord, Hash)]
pub struct Base32LowercaseAlphabet;

impl Alphabet for Base32LowercaseAlphabet {
    open spec fn symbols() -> Seq<u8> {
        byte_run(97, 26) + byte_run(50, 6)
    }

    proof fn symbols_ascii() {
    }

    fn symbol_list() -> (v: Vec<u8>) {
        let mut v: Vec<u8> = Vec::new();
        push_run(&mut v, 97, 26);
        push_run(&mut v, 50, 6);
        proof {
            assert(v@ =~= Self::symbols());
        }
        v
    }
}

/// Alphabet with `A-F0-9` symbols.
#[derive(Clone, Copy, Debug, PartialEq, Eq, PartialOrd, Ord, Hash)]
pub struct Base16Alphabet;

impl Alphabet for Base16Alphabet {
    open spec fn symbols() -> Seq<u8> {
        byte_run(65, 6) + byte_run(48, 10)
    }

    proof fn symbols_ascii() {
    }

    fn symbol_list() -> (v: Vec<u8>) {
        let mut v: Vec<u8> = Vec::new();
        push_run(&mut v, 65, 6);
        push_run(&mut v, 48, 10);
        proof {
            assert(v@ =~= Self::symbols());
        }
        v
    }
}

/// Alphabet with `a-f0-9` symbols.
#[derive(Clone, Copy, Debug, PartialEq, Eq, PartialOrd, Ord, Hash)]
pub struct Base16LowercaseAlphabet;

impl Alphabet for Base16LowercaseAlphabet {
    open spec fn symbols() -> Seq<u8> {
        byte_run(97, 6) + byte_run(48, 10)
    }

    proof fn symbols_ascii() {
    }

    fn symbol_list() -> (v: Vec<u8>) {
        let mut v: Vec<u8> = Vec::new();
        push_run(&mut v, 97, 6);
        push_run(&mut v, 48, 10);
        proof {
            assert(v@ =~= Self::symbols());
        }
        v
    }
}

} // verus!
