//! Packing values into bytes and unpacking them again, in either byte order.
use crate::bytes::{
    lemma_le_bytes_len, lemma_pow256_positive, lemma_pow256_values, le_bytes,
    le_value, pow256, uint_from_bytes, uint_to_bytes,
};
use crate::cursor::{ByteCursor, IoError};
use crate::ident::Class;
use vstd::prelude::*;

verus! {

/// An error while unpacking
#[derive(Debug)]
pub enum UnpackError {
    /// An invalid magic sequence was unpacked
    InvalidMagic {
        /// The expected sequence
        expected: Vec<u8>,
        /// The unpacked sequence
        got: Vec<u8>,
    },
    /// An invalid enum variant was unpacked
    InvalidEnumVariant {
        /// The name of the enum to give hints
        name: String,
        /// The invalid variant
        variant: usize,
    },
    /// Reading the source failed
    IO(IoError),
}

/// What an [`UnpackError`] says, as mathematical values.
pub enum UnpackErrorView {
    InvalidMagic { expected: Seq<u8>, got: Seq<u8> },
    InvalidEnumVariant { name: Seq<char>, variant: nat },
    IO(IoError),
}

impl View for UnpackError {
    type V = UnpackErrorView;

    open spec fn view(&self) -> UnpackErrorView {
        match self {
            UnpackError::InvalidMagic { expected, got } => UnpackErrorView::InvalidMagic {
                expected: expected@,
                got: got@,
            },
            UnpackError::InvalidEnumVariant { name, variant } => {
                UnpackErrorView::InvalidEnumVariant { name: name@, variant: *variant as nat }
            },
            UnpackError::IO(e) => UnpackErrorView::IO(*e),
        }
    }
}

/// The error of a read that ran past the end of the source.
pub open spec fn truncated() -> UnpackErrorView {
    UnpackErrorView::IO(IoError::UnexpectedEof)
}

impl From<IoError> for UnpackError {
    fn from(value: IoError) -> (r: Self)
        ensures
            r == UnpackError::IO(value),
    {
        UnpackError::IO(value)
    }
}

impl vstd::std_specs::convert::FromSpecImpl<IoError> for UnpackError {
    open spec fn obeys_from_spec() -> bool {
        true
    }

    open spec fn from_spec(v: IoError) -> UnpackError {
        UnpackError::IO(v)
    }
}

/// The number of bytes of a class-width field: 4 for the 32-bit class and 8
/// for the 64-bit class.
pub open spec fn class_width(class: Class) -> nat {
    match class {
        Class::ELF32 => 4,
        Class::ELF64 => 8,
    }
}

/// Whether `v` fits a class-width field of `class` without truncation.
pub open spec fn fits_class(v: u64, class: Class) -> bool {
    v < pow256(class_width(class))
}

/// The `n` bytes ahead of the position of `c`.
pub open spec fn ahead(c: ByteCursor, n: nat) -> Seq<u8> {
    c.bytes().subrange(c.pos() as int, (c.pos() + n) as int)
}

/// The bytes from the position of `c` to the end; empty where the position
/// lies beyond the end.
pub open spec fn rest(c: ByteCursor) -> Seq<u8> {
    bytes_from(c.bytes(), c.pos())
}

/// The bytes of `d` from position `p` to the end; empty where `p` lies
/// beyond the end.
pub open spec fn bytes_from(d: Seq<u8>, p: nat) -> Seq<u8> {
    if p <= d.len() {
        d.subrange(p as int, d.len() as int)
    } else {
        Seq::empty()
    }
}

/// Whether at least `n` bytes remain after the position of `c`.
pub open spec fn has_ahead(c: ByteCursor, n: nat) -> bool {
    c.pos() + n <= c.bytes().len()
}

/// The number that the `n` bytes of `s` at `at` denote in the given byte
/// order.
pub open spec fn field(s: Seq<u8>, at: nat, n: nat, big_endian: bool) -> nat {
    uint_from_bytes(s.subrange(at as int, (at + n) as int), big_endian)
}

/// A cursor `off` bytes past `c0` over the same bytes has `n` bytes ahead
/// exactly when the rest of `c0` holds `off + n`, and they are the bytes of
/// that rest at `off`.
pub proof fn lemma_ahead_in_rest(c0: ByteCursor, c: ByteCursor, off: nat, n: nat)
    requires
        n > 0,
        c.bytes() == c0.bytes(),
        c.pos() == c0.pos() + off,
    ensures
        has_ahead(c, n) <==> rest(c0).len() >= off + n,
        has_ahead(c, n) ==> ahead(c, n) == rest(c0).subrange(off as int, (off + n) as int),
{
    if has_ahead(c, n) {
        assert(ahead(c, n) =~= rest(c0).subrange(off as int, (off + n) as int));
    }
}

proof fn lemma_pow256_monotone(a: nat, b: nat)
    requires
        a <= b,
    ensures
        pow256(a) <= pow256(b),
    decreases b,
{
    if a < b {
        lemma_pow256_monotone(a, (b - 1) as nat);
        lemma_pow256_positive((b - 1) as nat);
    }
}

/// Appends to `out` the `width` low bytes of `v` in the given byte order.
pub(crate) fn encode_uint(out: &mut Vec<u8>, v: u128, width: usize, big_endian: bool)
    requires
        width <= 16,
    ensures
        final(out)@ == old(out)@ + uint_to_bytes(v as nat, width as nat, big_endian),
{
    let mut le: Vec<u8> = Vec::new();
    let mut x: u128 = v;
    let mut i: usize = 0;
    while i < width
        invariant
            i <= width,
            le@ + le_bytes(x as nat, (width - i) as nat) == le_bytes(v as nat, width as nat),
        decreases width - i,
    {
        let ghost before = le@;
        let ghost k = (width - i) as nat;
        le.push((x % 256) as u8);
        assert(le_bytes(x as nat, k) == seq![(x % 256) as u8] + le_bytes((x / 256) as nat, (k
            - 1) as nat));
        assert(before + le_bytes(x as nat, k) =~= le@ + le_bytes((x / 256) as nat, (k
            - 1) as nat));
        x = x / 256;
        i = i + 1;
    }
    assert(le@ =~= le_bytes(v as nat, width as nat));
    proof {
        lemma_le_bytes_len(v as nat, width as nat);
    }
    if big_endian {
        let ghost start = out@;
        let mut j: usize = 0;
        while j < width
            invariant
                le@.len() == width,
                j <= width,
                out@.len() == start.len() + j,
                forall|k: int| 0 <= k < start.len() ==> #[trigger] out@[k] == start[k],
                forall|k: int|
                    0 <= k < j ==> #[trigger] out@[start.len() + k] == le@[width - 1 - k],
            decreases width - j,
        {
            out.push(le[width - 1 - j]);
            j = j + 1;
        }
        assert forall|k: int| start.len() <= k < out@.len() implies out@[k] == (start
            + le@.reverse())[k] by {
            let m = k - start.len();
            assert(out@[start.len() + m] == le@[width - 1 - m]);
        }
        assert(out@ =~= start + le@.reverse());
    } else {
        out.append(&mut le);
    }
}

/// The number that at most sixteen bytes denote in the given byte order.
pub(crate) fn decode_uint(b: &Vec<u8>, big_endian: bool) -> (r: u128)
    requires
        b@.len() <= 16,
    ensures
        r == uint_from_bytes(b@, big_endian),
        r < pow256(b@.len()),
{
    let n = b.len();
    let ghost src = if big_endian {
        b@.reverse()
    } else {
        b@
    };
    let mut acc: u128 = 0;
    let mut i: usize = 0;
    while i < n
        invariant
            n == b@.len() <= 16,
            src == (if big_endian {
                b@.reverse()
            } else {
                b@
            }),
            i <= n,
            acc == le_value(src.subrange(n - i, n as int)),
            acc < pow256(i as nat),
        decreases n - i,
    {
        let byte = if big_endian {
            b[i]
        } else {
            b[n - 1 - i]
        };
        let ghost k = n - 1 - i;
        assert(src[k] == byte);
        assert(src.subrange(k, n as int).drop_first() =~= src.subrange(n - i, n as int));
        proof {
            lemma_pow256_monotone((i + 1) as nat, 16);
            lemma_pow256_values();
        }
        acc = acc * 256 + byte as u128;
        i = i + 1;
    }
    assert(src.subrange(0, n as int) =~= src);
    acc
}

/// Reads a `width`-byte unsigned integer in the given byte order.
pub(crate) fn read_uint(r: &mut ByteCursor, width: usize, big_endian: bool) -> (res: Result<
    u128,
    UnpackError,
>)
    requires
        width <= 16,
    ensures
        final(r).bytes() == old(r).bytes(),
        res is Ok <==> has_ahead(*old(r), width as nat),
        match res {
            Ok(v) => {
                &&& v == uint_from_bytes(ahead(*old(r), width as nat), big_endian)
                &&& v < pow256(width as nat)
                &&& final(r).pos() == old(r).pos() + width
            },
            Err(e) => e@ == truncated(),
        },
{
    match r.read_exact(width) {
        Ok(b) => Ok(decode_uint(&b, big_endian)),
        Err(e) => Err(UnpackError::from(e)),
    }
}

/// Allows the implementing structs to be serialized and
/// deserialized from a binary stream
pub trait Packable: Sized {
    /// Pack `self` to the end of `w`
    /// # Arguments
    /// * `w` - The buffer to append to
    /// * `big_endian` - Whether the stream should be written to in big endian form
    fn pack(&self, w: &mut Vec<u8>, big_endian: bool);

    /// Unpack `Self` from `r`
    /// # Arguments
    /// * `r` - The stream to read from
    /// * `big_endian` - Whether the stream should be read from in big endian form
    fn unpack(r: &mut ByteCursor, big_endian: bool) -> Result<Self, UnpackError>;
}

/// A special form of the [Packable] trait - a pointer that can be stored in `32` or `64` bits
pub trait PackableClass: Sized {
    /// Pack `self` to the end of `w`
    /// # Arguments
    /// * `w` - The buffer to append to
    /// * `big_endian` - Whether the stream should be written to in big endian form
    /// * `class` - The ELF class to use for packing
    fn pack_class(&self, w: &mut Vec<u8>, big_endian: bool, class: Class);

    /// Unpack `Self` from `r`
    /// # Arguments
    /// * `r` - The stream to read from
    /// * `big_endian` - Whether the stream should be read from in big endian form
    /// * `class` - The ELF class to use for unpacking
    fn unpack_class(r: &mut ByteCursor, big_endian: bool, class: Class) -> Result<
        Self,
        UnpackError,
    >;
}

impl Packable for u8 {
    fn pack(&self, w: &mut Vec<u8>, big_endian: bool)
        ensures
            final(w)@ == old(w)@ + uint_to_bytes(*self as nat, 1, big_endian),
    {
        encode_uint(w, *self as u128, 1, big_endian);
    }

    fn unpack(r: &mut ByteCursor, big_endian: bool) -> (res: Result<u8, UnpackError>)
        ensures
            final(r).bytes() == old(r).bytes(),
            res is Ok <==> has_ahead(*old(r), 1),
            match res {
                Ok(v) => {
                    &&& v == uint_from_bytes(ahead(*old(r), 1), big_endian)
                    &&& final(r).pos() == old(r).pos() + 1
                },
                Err(e) => e@ == truncated(),
            },
    {
        let v = read_uint(r, 1, big_endian)?;
        proof {
            lemma_pow256_values();
        }
        Ok(v as u8)
    }
}

impl Packable for u16 {
    fn pack(&self, w: &mut Vec<u8>, big_endian: bool)
        ensures
            final(w)@ == old(w)@ + uint_to_bytes(*self as nat, 2, big_endian),
    {
        encode_uint(w, *self as u128, 2, big_endian);
    }

    fn unpack(r: &mut ByteCursor, big_endian: bool) -> (res: Result<u16, UnpackError>)
        ensures
            final(r).bytes() == old(r).bytes(),
            res is Ok <==> has_ahead(*old(r), 2),
            match res {
                Ok(v) => {
                    &&& v == uint_from_bytes(ahead(*old(r), 2), big_endian)
                    &&& final(r).pos() == old(r).pos() + 2
                },
                Err(e) => e@ == truncated(),
            },
    {
        let v = read_uint(r, 2, big_endian)?;
        proof {
            lemma_pow256_values();
        }
        Ok(v as u16)
    }
}

impl Packable for u32 {
    fn pack(&self, w: &mut Vec<u8>, big_endian: bool)
        ensures
            final(w)@ == old(w)@ + uint_to_bytes(*self as nat, 4, big_endian),
    {
        encode_uint(w, *self as u128, 4, big_endian);
    }

    fn unpack(r: &mut ByteCursor, big_endian: bool) -> (res: Result<u32, UnpackError>)
        ensures
            final(r).bytes() == old(r).bytes(),
            res is Ok <==> has_ahead(*old(r), 4),
            match res {
                Ok(v) => {
                    &&& v == uint_from_bytes(ahead(*old(r), 4), big_endian)
                    &&& final(r).pos() == old(r).pos() + 4
                },
                Err(e) => e@ == truncated(),
            },
    {
        let v = read_uint(r, 4, big_endian)?;
        proof {
            lemma_pow256_values();
        }
        Ok(v as u32)
    }
}

impl Packable for u64 {
    fn pack(&self, w: &mut Vec<u8>, big_endian: bool)
        ensures
            final(w)@ == old(w)@ + uint_to_bytes(*self as nat, 8, big_endian),
    {
        encode_uint(w, *self as u128, 8, big_endian);
    }

    fn unpack(r: &mut ByteCursor, big_endian: bool) -> (res: Result<u64, UnpackError>)
        ensures
            final(r).bytes() == old(r).bytes(),
            res is Ok <==> has_ahead(*old(r), 8),
            match res {
                Ok(v) => {
                    &&& v == uint_from_bytes(ahead(*old(r), 8), big_endian)
                    &&& final(r).pos() == old(r).pos() + 8
                },
                Err(e) => e@ == truncated(),
            },
    {
        let v = read_uint(r, 8, big_endian)?;
        proof {
            lemma_pow256_values();
        }
        Ok(v as u64)
    }
}

impl Packable for u128 {
    fn pack(&self, w: &mut Vec<u8>, big_endian: bool)
        ensures
            final(w)@ == old(w)@ + uint_to_bytes(*self as nat, 16, big_endian),
    {
        encode_uint(w, *self as u128, 16, big_endian);
    }

    fn unpack(r: &mut ByteCursor, big_endian: bool) -> (res: Result<u128, UnpackError>)
        ensures
            final(r).bytes() == old(r).bytes(),
            res is Ok <==> has_ahead(*old(r), 16),
            match res {
                Ok(v) => {
                    &&& v == uint_from_bytes(ahead(*old(r), 16), big_endian)
                    &&& final(r).pos() == old(r).pos() + 16
                },
                Err(e) => e@ == truncated(),
            },
    {
        let v = read_uint(r, 16, big_endian)?;
        proof {
            lemma_pow256_values();
        }
        Ok(v as u128)
    }
}

/// Two's complement: the bytes of the unsigned number with the same bits.
impl Packable for i8 {
    fn pack(&self, w: &mut Vec<u8>, big_endian: bool)
        ensures
            final(w)@ == old(w)@ + uint_to_bytes((#[verifier::truncate] (*self as u8)) as nat, 1, big_endian),
    {
        encode_uint(w, (#[verifier::truncate] (*self as u8)) as u128, 1, big_endian);
    }

    fn unpack(r: &mut ByteCursor, big_endian: bool) -> (res: Result<i8, UnpackError>)
        ensures
            final(r).bytes() == old(r).bytes(),
            res is Ok <==> has_ahead(*old(r), 1),
            match res {
                Ok(v) => {
                    &&& (#[verifier::truncate] (v as u8)) == uint_from_bytes(ahead(*old(r), 1), big_endian)
                    &&& final(r).pos() == old(r).pos() + 1
                },
                Err(e) => e@ == truncated(),
            },
    {
        let v = u8::unpack(r, big_endian)?;
        assert((#[verifier::truncate] (v as i8)) as u8 == v) by (bit_vector);
        Ok(#[verifier::truncate] (v as i8))
    }
}

/// Two's complement: the bytes of the unsigned number with the same bits.
impl Packable for i16 {
    fn pack(&self, w: &mut Vec<u8>, big_endian: bool)
        ensures
            final(w)@ == old(w)@ + uint_to_bytes((#[verifier::truncate] (*self as u16)) as nat, 2, big_endian),
    {
        encode_uint(w, (#[verifier::truncate] (*self as u16)) as u128, 2, big_endian);
    }

    fn unpack(r: &mut ByteCursor, big_endian: bool) -> (res: Result<i16, UnpackError>)
        ensures
            final(r).bytes() == old(r).bytes(),
            res is Ok <==> has_ahead(*old(r), 2),
            match res {
                Ok(v) => {
                    &&& (#[verifier::truncate] (v as u16)) == uint_from_bytes(ahead(*old(r), 2), big_endian)
                    &&& final(r).pos() == old(r).pos() + 2
                },
                Err(e) => e@ == truncated(),
            },
    {
        let v = u16::unpack(r, big_endian)?;
        assert((#[verifier::truncate] (v as i16)) as u16 == v) by (bit_vector);
        Ok(#[verifier::truncate] (v as i16))
    }
}

/// Two's complement: the bytes of the unsigned number with the same bits.
impl Packable for i32 {
    fn pack(&self, w: &mut Vec<u8>, big_endian: bool)
        ensures
            final(w)@ == old(w)@ + uint_to_bytes((#[verifier::truncate] (*self as u32)) as nat, 4, big_endian),
    {
        encode_uint(w, (#[verifier::truncate] (*self as u32)) as u128, 4, big_endian);
    }

    fn unpack(r: &mut ByteCursor, big_endian: bool) -> (res: Result<i32, UnpackError>)
        ensures
            final(r).bytes() == old(r).bytes(),
            res is Ok <==> has_ahead(*old(r), 4),
            match res {
                Ok(v) => {
                    &&& (#[verifier::truncate] (v as u32)) == uint_from_bytes(ahead(*old(r), 4), big_endian)
                    &&& final(r).pos() == old(r).pos() + 4
                },
                Err(e) => e@ == truncated(),
            },
    {
        let v = u32::unpack(r, big_endian)?;
        assert((#[verifier::truncate] (v as i32)) as u32 == v) by (bit_vector);
        Ok(#[verifier::truncate] (v as i32))
    }
}

/// Two's complement: the bytes of the unsigned number with the same bits.
impl Packable for i64 {
    fn pack(&self, w: &mut Vec<u8>, big_endian: bool)
        ensures
            final(w)@ == old(w)@ + uint_to_bytes((#[verifier::truncate] (*self as u64)) as nat, 8, big_endian),
    {
        encode_uint(w, (#[verifier::truncate] (*self as u64)) as u128, 8, big_endian);
    }

    fn unpack(r: &mut ByteCursor, big_endian: bool) -> (res: Result<i64, UnpackError>)
        ensures
            final(r).bytes() == old(r).bytes(),
            res is Ok <==> has_ahead(*old(r), 8),
            match res {
                Ok(v) => {
                    &&& (#[verifier::truncate] (v as u64)) == uint_from_bytes(ahead(*old(r), 8), big_endian)
                    &&& final(r).pos() == old(r).pos() + 8
                },
                Err(e) => e@ == truncated(),
            },
    {
        let v = u64::unpack(r, big_endian)?;
        assert((#[verifier::truncate] (v as i64)) as u64 == v) by (bit_vector);
        Ok(#[verifier::truncate] (v as i64))
    }
}

/// Two's complement: the bytes of the unsigned number with the same bits.
impl Packable for i128 {
    fn pack(&self, w: &mut Vec<u8>, big_endian: bool)
        ensures
            final(w)@ == old(w)@ + uint_to_bytes((#[verifier::truncate] (*self as u128)) as nat, 16, big_endian),
    {
        encode_uint(w, (#[verifier::truncate] (*self as u128)) as u128, 16, big_endian);
    }

    fn unpack(r: &mut ByteCursor, big_endian: bool) -> (res: Result<i128, UnpackError>)
        ensures
            final(r).bytes() == old(r).bytes(),
            res is Ok <==> has_ahead(*old(r), 16),
            match res {
                Ok(v) => {
                    &&& (#[verifier::truncate] (v as u128)) == uint_from_bytes(ahead(*old(r), 16), big_endian)
                    &&& final(r).pos() == old(r).pos() + 16
                },
                Err(e) => e@ == truncated(),
            },
    {
        let v = u128::unpack(r, big_endian)?;
        assert((#[verifier::truncate] (v as i128)) as u128 == v) by (bit_vector);
        Ok(#[verifier::truncate] (v as i128))
    }
}

impl PackableClass for u64 {
    /// Writes 8 bytes for the 64-bit class; for the 32-bit class, the low 32
    /// bits in 4 bytes.
    fn pack_class(&self, w: &mut Vec<u8>, big_endian: bool, class: Class)
        ensures
            final(w)@ == old(w)@ + uint_to_bytes(*self as nat, class_width(class), big_endian),
    {
        match class {
            Class::ELF64 => encode_uint(w, *self as u128, 8, big_endian),
            Class::ELF32 => encode_uint(w, *self as u128, 4, big_endian),
        }
    }

    /// Reads 8 bytes for the 64-bit class; for the 32-bit class, 4 bytes,
    /// zero-extended.
    fn unpack_class(r: &mut ByteCursor, big_endian: bool, class: Class) -> (res: Result<
        u64,
        UnpackError,
    >)
        ensures
            final(r).bytes() == old(r).bytes(),
            res is Ok <==> has_ahead(*old(r), class_width(class)),
            match res {
                Ok(v) => {
                    &&& v == uint_from_bytes(ahead(*old(r), class_width(class)), big_endian)
                    &&& final(r).pos() == old(r).pos() + class_width(class)
                },
                Err(e) => e@ == truncated(),
            },
    {
        let width: usize = match class {
            Class::ELF64 => 8,
            Class::ELF32 => 4,
        };
        let v = read_uint(r, width, big_endian)?;
        proof {
            lemma_pow256_values();
        }
        Ok(v as u64)
    }
}

} // verus!
