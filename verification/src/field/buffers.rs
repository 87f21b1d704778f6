//! Buffers of field elements: zeroed vectors, and the bytes that elements are
//! held in.

use vstd::prelude::*;
use crate::bytes::start_address;
use crate::errors::SerializationError;
use crate::field::traits::StarkField;

verus! {

/// The bytes that a sequence of elements is held in, one element after the
/// other.
pub open spec fn raw_bytes_of<B: StarkField>(elements: Seq<B>) -> Seq<u8> {
    Seq::new(
        elements.len() * B::num_bytes(),
        |i: int|
            elements[i / B::num_bytes() as int].raw_bytes()[i % B::num_bytes() as int],
    )
}

/// The elements that are held in the given bytes, one after the other.
pub open spec fn elements_in<B: StarkField>(bytes: Seq<u8>) -> Seq<B> {
    Seq::new(
        bytes.len() / B::num_bytes(),
        |i: int|
            B::from_raw(
                bytes.subrange(i * B::num_bytes(), (i + 1) * B::num_bytes()),
            ),
    )
}

/// What reading elements out of a buffer answers: the buffer must hold a
/// whole number of elements and start at an address that is a multiple of
/// the element size.
pub open spec fn read_elements<B: StarkField>(bytes: Seq<u8>, address: int) -> Result<
    Seq<B>,
    SerializationError,
> {
    if bytes.len() % B::num_bytes() != 0 {
        Err(SerializationError::InvalidLength)
    } else if address % B::num_bytes() as int != 0 {
        Err(SerializationError::InvalidAlignment)
    } else {
        Ok(elements_in::<B>(bytes))
    }
}

/// A vector of `n` zeros.
pub fn zeroed_vector<B: StarkField>(n: usize) -> (r: Vec<B>)
    ensures
        r@.len() == n,
        forall|i: int| 0 <= i < n ==> (#[trigger] r@[i]).value() == 0,
{
    let mut result: Vec<B> = Vec::new();
    let mut i: usize = 0;
    while i < n
        invariant
            i <= n,
            result@.len() == i,
            forall|j: int| 0 <= j < i ==> (#[trigger] result@[j]).value() == 0,
        decreases n - i,
    {
        result.push(B::zero());
        i = i + 1;
    }
    result
}

/// The bytes that the elements are held in, one element after the other.
pub fn elements_as_bytes<B: StarkField>(elements: &[B]) -> (bytes: Vec<u8>)
    requires
        elements@.len() * B::num_bytes() <= usize::MAX,
    ensures
        bytes@ == raw_bytes_of::<B>(elements@),
{
    let mut bytes: Vec<u8> = Vec::new();
    let mut i: usize = 0;
    let ghost nb = B::num_bytes() as int;
    proof {
        B::lemma_field();
    }
    while i < elements.len()
        invariant
            nb == B::num_bytes(),
            nb > 0,
            i <= elements@.len(),
            bytes@.len() == i * nb,
            forall|k: int|
                0 <= k < i * nb ==> #[trigger] bytes@[k] == elements@[k / nb].raw_bytes()[k
                    % nb],
        decreases elements@.len() - i,
    {
        let mut chunk = elements[i].to_raw_bytes();
        let ghost before = bytes@;
        proof {
            elements@[i as int].lemma_value();
        }
        bytes.append(&mut chunk);
        proof {
            let e = elements@[i as int].raw_bytes();
            assert(bytes@ == before + e);
            assert((i + 1) * nb == i * nb + nb) by (nonlinear_arith);
            assert forall|k: int| 0 <= k < (i + 1) * nb implies #[trigger] bytes@[k]
                == elements@[k / nb].raw_bytes()[k % nb] by {
                if k >= i * nb {
                    vstd::arithmetic::div_mod::lemma_fundamental_div_mod_converse(
                        k,
                        nb,
                        i as int,
                        k - i * nb,
                    );
                }
            }
        }
        i = i + 1;
    }
    proof {
        assert(bytes@ =~= raw_bytes_of::<B>(elements@));
    }
    bytes
}

/// The elements held in a buffer that starts at `address`.
pub fn bytes_as_elements_at<B: StarkField>(bytes: &[u8], address: usize) -> (r: Result<
    Vec<B>,
    SerializationError,
>)
    ensures
        match r {
            Ok(elements) => read_elements::<B>(bytes@, address as int) == Ok::<
                Seq<B>,
                SerializationError,
            >(elements@),
            Err(e) => read_elements::<B>(bytes@, address as int) == Err::<
                Seq<B>,
                SerializationError,
            >(e),
        },
{
    let nb = B::element_bytes();
    proof {
        B::lemma_field();
    }
    if bytes.len() % nb != 0 {
        return Err(SerializationError::InvalidLength);
    }
    if address % nb != 0 {
        return Err(SerializationError::InvalidAlignment);
    }
    let total = bytes.len();
    let n = total / nb;
    let mut result: Vec<B> = Vec::new();
    let mut i: usize = 0;
    while i < n
        invariant
            nb == B::num_bytes(),
            nb > 0,
            total == bytes@.len(),
            n == (bytes@.len() as int) / (nb as int),
            (bytes@.len() as int) % (nb as int) == 0,
            i <= n,
            result@.len() == i,
            forall|k: int|
                0 <= k < i ==> #[trigger] result@[k] == B::from_raw(
                    bytes@.subrange(k * nb, (k + 1) * nb),
                ),
        decreases n - i,
    {
        proof {
            vstd::arithmetic::div_mod::lemma_fundamental_div_mod(bytes@.len() as int, nb as int);
            assert(n * nb == bytes@.len()) by (nonlinear_arith)
                requires
                    bytes@.len() == nb * n + 0,
            ;
            assert((i + 1) * nb <= n * nb) by (nonlinear_arith)
                requires
                    i + 1 <= n,
                    nb > 0,
            ;
            assert((i + 1) * nb == i * nb + nb) by (nonlinear_arith);
            assert(0 <= i * nb) by (nonlinear_arith)
                requires
                    i >= 0,
                    nb > 0,
            ;
        }
        let first: usize = i * nb;
        let chunk = vstd::slice::slice_subrange(bytes, first, first + nb);
        result.push(B::from_raw_bytes(chunk));
        i = i + 1;
    }
    proof {
        assert(result@ =~= elements_in::<B>(bytes@));
    }
    Ok(result)
}

/// The elements held in a buffer. The buffer must hold a whole number of
/// elements, or else the length is invalid; and it must start at an address
/// that is a multiple of the element size, or else the alignment is.
pub fn bytes_as_elements<B: StarkField>(bytes: &[u8]) -> (r: Result<Vec<B>, SerializationError>)
    ensures
        match r {
            Ok(elements) => bytes@.len() % B::num_bytes() == 0 && elements@
                == elements_in::<B>(bytes@),
            Err(e) => if bytes@.len() % B::num_bytes() != 0 {
                e == SerializationError::InvalidLength
            } else {
                e == SerializationError::InvalidAlignment
            },
        },
{
    bytes_as_elements_at(bytes, start_address(bytes))
}

/// An element read from random bytes as from its canonical encoding; none
/// where the bytes encode no residue.
pub fn from_random_bytes<B: StarkField>(bytes: &[u8]) -> (r: Option<B>)
    ensures
        match r {
            Some(e) => bytes@ == B::encode(e.value()) && e.is_normalized(),
            None => forall|v: int|
                0 <= v < B::modulus() ==> bytes@ != #[trigger] B::encode(v),
        },
{
    match B::try_from_bytes(bytes) {
        Ok(e) => Some(e),
        Err(_) => None,
    }
}

/// A copy of the elements.
pub fn copy_elements<B: StarkField>(elements: &[B]) -> (r: Vec<B>)
    ensures
        r@ == elements@,
{
    let mut result: Vec<B> = Vec::new();
    let mut i: usize = 0;
    while i < elements.len()
        invariant
            i <= elements@.len(),
            result@ == elements@.take(i as int),
        decreases elements@.len() - i,
    {
        result.push(elements[i]);
        proof {
            assert(result@ =~= elements@.take(i + 1));
        }
        i = i + 1;
    }
    proof {
        assert(elements@.take(elements@.len() as int) =~= elements@);
    }
    result
}

/// The canonical encodings of a sequence of elements, one after the other.
pub open spec fn encoding_of<B: StarkField>(elements: Seq<B>) -> Seq<u8> {
    Seq::new(
        elements.len() * B::num_bytes(),
        |i: int| B::encode(elements[i / B::num_bytes() as int].value())[i % B::num_bytes() as int],
    )
}

/// Whether the bytes are the canonical encoding of a residue.
pub open spec fn is_encoding<B: StarkField>(bytes: Seq<u8>) -> bool {
    exists|v: int| 0 <= v < B::modulus() && bytes == #[trigger] B::encode(v)
}

/// Whether the bytes are the canonical encodings of `count` residues, one after
/// the other.
pub open spec fn is_encoding_of_many<B: StarkField>(bytes: Seq<u8>, count: nat) -> bool {
    &&& bytes.len() == count * B::num_bytes()
    &&& forall|i: int|
        0 <= i < count ==> is_encoding::<B>(
            #[trigger] bytes.subrange(i * B::num_bytes(), (i + 1) * B::num_bytes()),
        )
}

/// The canonical encodings of the elements, one after the other.
pub fn elements_to_bytes<B: StarkField>(elements: &[B]) -> (bytes: Vec<u8>)
    ensures
        bytes@ == encoding_of::<B>(elements@),
{
    let mut bytes: Vec<u8> = Vec::new();
    let mut i: usize = 0;
    let ghost nb = B::num_bytes() as int;
    proof {
        B::lemma_field();
    }
    while i < elements.len()
        invariant
            nb == B::num_bytes(),
            nb > 0,
            i <= elements@.len(),
            bytes@.len() == i * nb,
            forall|k: int|
                0 <= k < i * nb ==> #[trigger] bytes@[k] == B::encode(elements@[k / nb].value())[k
                    % nb],
        decreases elements@.len() - i,
    {
        let mut chunk = elements[i].to_bytes();
        let ghost before = bytes@;
        proof {
            elements@[i as int].lemma_value();
        }
        bytes.append(&mut chunk);
        proof {
            let e = B::encode(elements@[i as int].value());
            assert(bytes@ == before + e);
            assert((i + 1) * nb == i * nb + nb) by (nonlinear_arith);
            assert forall|k: int| 0 <= k < (i + 1) * nb implies #[trigger] bytes@[k] == B::encode(
                elements@[k / nb].value(),
            )[k % nb] by {
                if k >= i * nb {
                    vstd::arithmetic::div_mod::lemma_fundamental_div_mod_converse(
                        k,
                        nb,
                        i as int,
                        k - i * nb,
                    );
                }
            }
        }
        i = i + 1;
    }
    proof {
        assert(bytes@ =~= encoding_of::<B>(elements@));
    }
    bytes
}

/// Reads `count` elements from their canonical encodings: exactly `count`
/// times the element size in bytes, each run of which encodes a residue below
/// the modulus.
pub fn elements_from_encoding<B: StarkField>(bytes: &[u8], count: usize) -> (r: Result<
    Vec<B>,
    SerializationError,
>)
    requires
        count * B::num_bytes() <= usize::MAX,
    ensures
        match r {
            Ok(elements) => elements@.len() == count && bytes@ == encoding_of::<B>(elements@)
                && forall|i: int| 0 <= i < count ==> (#[trigger] elements@[i]).is_normalized(),
            Err(e) => e == SerializationError::InvalidFieldElement && !is_encoding_of_many::<B>(
                bytes@,
                count as nat,
            ),
        },
{
    let nb = B::element_bytes();
    let total = bytes.len();
    proof {
        B::lemma_field();
    }
    if total != count * nb {
        return Err(SerializationError::InvalidFieldElement);
    }
    let mut result: Vec<B> = Vec::new();
    let mut i: usize = 0;
    while i < count
        invariant
            nb == B::num_bytes(),
            nb > 0,
            total == bytes@.len(),
            total == count * nb,
            i <= count,
            result@.len() == i,
            forall|k: int|
                0 <= k < i ==> bytes@.subrange(k * nb, (k + 1) * nb) == B::encode(
                    (#[trigger] result@[k]).value(),
                ) && result@[k].is_normalized(),
        decreases count - i,
    {
        proof {
            assert((i + 1) * nb <= count * nb) by (nonlinear_arith)
                requires
                    i + 1 <= count,
                    nb > 0,
            ;
            assert((i + 1) * nb == i * nb + nb) by (nonlinear_arith);
            assert(0 <= i * nb) by (nonlinear_arith)
                requires
                    i >= 0,
                    nb > 0,
            ;
        }
        let first: usize = i * nb;
        let chunk = vstd::slice::slice_subrange(bytes, first, first + nb);
        match B::try_from_bytes(chunk) {
            Ok(e) => {
                result.push(e);
            },
            Err(_) => {
                proof {
                    assert(!is_encoding::<B>(bytes@.subrange(i * nb, (i + 1) * nb)));
                }
                return Err(SerializationError::InvalidFieldElement);
            },
        }
        i = i + 1;
    }
    proof {
        let enc = encoding_of::<B>(result@);
        assert forall|k: int| 0 <= k < bytes@.len() implies bytes@[k] == enc[k] by {
            let q = k / nb as int;
            let w = k % nb as int;
            vstd::arithmetic::div_mod::lemma_fundamental_div_mod(k, nb as int);
            assert(q < count) by (nonlinear_arith)
                requires
                    k == nb * q + w,
                    0 <= w,
                    k < count * nb,
                    nb > 0,
            ;
            assert(0 <= q) by (nonlinear_arith)
                requires
                    k == nb * q + w,
                    w < nb,
                    k >= 0,
                    nb > 0,
            ;
            assert((q + 1) * nb == q * nb + nb) by (nonlinear_arith);
            assert(q * nb == nb * q) by (nonlinear_arith);
            assert((q + 1) * nb <= count * nb) by (nonlinear_arith)
                requires
                    q + 1 <= count,
                    nb > 0,
            ;
            assert(bytes@.subrange(q * nb, (q + 1) * nb)[w] == bytes@[k]);
        }
        assert(bytes@ =~= enc);
    }
    Ok(result)
}

} // verus!
