//! The raw, C-ABI-shaped form of one chain record, held as plain values.
//!
//! The kernel exports each statistic as a fixed-layout record: fixed-length,
//! NUL-terminated text buffers, small integer tags, and a pointer to an
//! untyped data area. [`RawRecord`] holds that shape as owned plain values so
//! that the decoding logic can be stated and checked over byte sequences.

use vstd::prelude::*;
use vstd::string::StringSliceAdditionalSpecFns;
use vstd::utf8::{decode_utf8, valid_utf8};

use crate::Error;

verus! {

/// Length of the fixed, NUL-terminated string buffers in the kernel ABI.
pub const KSTAT_STRLEN: usize = 31;

/// Size in bytes of the value area backing a named entry's scalar union.
pub const NAMED_VALUE_LEN: usize = 16;

/// One name/value entry of a named record, in its raw on-disk shape.
#[derive(Clone, Debug)]
pub struct RawNamed {
    /// Fixed-length, NUL-terminated name buffer.
    pub name: Vec<u8>,
    /// Tag selecting which scalar shape the value area holds.
    pub data_type: u8,
    /// The 16-byte value area backing the union of scalar shapes.
    pub value: Vec<u8>,
    /// The bytes behind the string-value pointer of the union; `None` stands
    /// for a null pointer.
    pub str_data: Option<Vec<u8>>,
}

/// The kernel-owned memory behind a record's data pointer.
#[derive(Clone, Debug)]
pub enum RawData {
    /// A null data pointer.
    Null,
    /// An untyped byte blob, as behind raw, interrupt, I/O and timer records.
    Bytes(Vec<u8>),
    /// An array of fixed-size name/value entries, as behind named records.
    Entries(Vec<RawNamed>),
}

/// One record of the kernel's statistics chain, as plain values.
#[derive(Clone, Debug)]
pub struct RawRecord {
    /// Creation time of the statistic, in nanoseconds.
    pub ks_crtime: i64,
    /// Time of the last update, in nanoseconds.
    pub ks_snaptime: i64,
    /// Fixed-length, NUL-terminated module buffer.
    pub ks_module: Vec<u8>,
    /// Instance number of the statistic.
    pub ks_instance: i32,
    /// Fixed-length, NUL-terminated name buffer.
    pub ks_name: Vec<u8>,
    /// Declared type tag of the record.
    pub ks_type: u8,
    /// Fixed-length, NUL-terminated class buffer.
    pub ks_class: Vec<u8>,
    /// Kernel-declared element count of the payload.
    pub ks_ndata: u32,
    /// The data area the record points to.
    pub ks_data: RawData,
}

/// The prefix of a byte buffer up to (excluding) its first NUL terminator;
/// the whole buffer when no NUL occurs.
pub open spec fn nul_prefix(b: Seq<u8>) -> Seq<u8>
    decreases b.len(),
{
    if b.len() == 0 {
        b
    } else if b[0] == 0 {
        Seq::empty()
    } else {
        seq![b[0]] + nul_prefix(b.skip(1))
    }
}

/// `nul_prefix` is the prefix ending at the first NUL, or the whole buffer.
proof fn lemma_nul_prefix_take(b: Seq<u8>, i: int)
    requires
        0 <= i <= b.len(),
        forall|j: int| 0 <= j < i ==> b[j] != 0,
        i < b.len() ==> b[i] == 0,
    ensures
        nul_prefix(b) == b.take(i),
    decreases i,
{
    if b.len() == 0 {
        assert(nul_prefix(b) =~= b.take(i));
    } else if i == 0 {
        assert(b[0] == 0);
        assert(nul_prefix(b) =~= b.take(0));
    } else {
        assert(b[0] != 0);
        lemma_nul_prefix_take(b.skip(1), i - 1);
        assert(seq![b[0]] + b.skip(1).take(i - 1) =~= b.take(i));
    }
}

/// The characters of a fixed-length, NUL-terminated text buffer, when its
/// NUL-terminated prefix is valid UTF-8.
pub open spec fn spec_str_parse(b: Seq<u8>) -> Result<Seq<char>, Error> {
    if valid_utf8(nul_prefix(b)) {
        Ok(decode_utf8(nul_prefix(b)))
    } else {
        Err(Error::InvalidString)
    }
}

/// Relies on `core::str::from_utf8`: it returns `Ok` exactly on valid UTF-8
/// input, and the returned string is backed by the given bytes.
#[verifier::external_body]
fn parse_utf8(b: &[u8]) -> (r: Option<&str>)
    ensures
        r is Some <==> valid_utf8(b@),
        r matches Some(s) ==> s.spec_bytes() == b@,
{
    core::str::from_utf8(b).ok()
}

/// Decode a fixed-length, NUL-terminated text buffer: locate the terminator
/// and validate UTF-8, as the kernel ABI requires of its string fields.
pub fn kstat_str_parse(b: &[u8]) -> (r: Result<String, Error>)
    ensures
        match r {
            Ok(s) => spec_str_parse(b@) == Ok::<Seq<char>, Error>(s@),
            Err(e) => spec_str_parse(b@) == Err::<Seq<char>, Error>(e),
        },
{
    let n = b.len();
    let mut i: usize = 0;
    while i < n && *vstd::slice::slice_index_get(b, i) != 0
        invariant
            0 <= i <= n,
            n == b@.len(),
            forall|j: int| 0 <= j < i ==> b@[j] != 0,
        decreases n - i,
    {
        i = i + 1;
    }
    proof {
        lemma_nul_prefix_take(b@, i as int);
    }
    let prefix = vstd::slice::slice_subrange(b, 0, i);
    match parse_utf8(prefix) {
        Some(s) => {
            proof {
                vstd::utf8::encode_utf8_decode_utf8(s@);
            }
            Ok(s.to_owned())
        },
        None => Err(Error::InvalidString),
    }
}

} // verus!
