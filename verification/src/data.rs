//! Typed values decoded from a record's payload, and the decoding itself.
//!
//! Each record's payload is an untyped data area that must be interpreted
//! according to the record's declared type tag. The decoders here validate
//! tags, reconcile kernel-declared element counts against the sizes actually
//! present, and either produce a fully typed value or report exactly why the
//! payload could not be decoded.

use vstd::arithmetic::div_mod::{lemma_fundamental_div_mod, lemma_mod_bound};
use vstd::arithmetic::mul::lemma_mul_inequality;
use vstd::bytes::{spec_u32_from_le_bytes, spec_u64_from_le_bytes, u32_from_le_bytes, u64_from_le_bytes};
use vstd::prelude::*;
use vstd::slice::{slice_subrange, slice_to_vec};
use vstd::utf8::{decode_utf8, valid_utf8};

use crate::raw::{nul_prefix, spec_str_parse, kstat_str_parse, RawData, RawNamed, RawRecord, NAMED_VALUE_LEN};
use crate::types::{NamedType, Type, KSTAT_DATA_STRING};
use crate::Error;

verus! {

/// Size in bytes of an interrupt payload: five unsigned 32-bit counters.
pub const INTR_SIZE: usize = 20;

/// Size in bytes of an I/O payload: twelve fixed-width fields.
pub const IO_SIZE: usize = 80;

/// Size in bytes of one timer record: a 31-byte name buffer, one reserved
/// byte, and six 64-bit fields.
pub const TIMER_SIZE: usize = 80;

/// Data from a single kstat.
#[derive(Clone, Debug, PartialEq)]
pub enum Data {
    Raw(Vec<Vec<u8>>),
    Named(Vec<Named>),
    Intr(Intr),
    Io(Io),
    Timer(Vec<Timer>),
    Null,
}

/// An I/O kernel statistic.
#[derive(Clone, Copy, Debug, PartialEq, Eq, Structural)]
pub struct Io {
    pub nread: u64,
    pub nwritten: u64,
    pub reads: u32,
    pub writes: u32,
    pub wtime: i64,
    pub wlentime: i64,
    pub wlastupdate: i64,
    pub rtime: i64,
    pub rlentime: i64,
    pub rlastupdate: i64,
    pub wcnt: u32,
    pub rcnt: u32,
}

/// A timer kernel statistic.
#[derive(Clone, Debug, PartialEq)]
pub struct Timer {
    pub name: String,
    pub num_events: usize,
    pub elapsed_time: i64,
    pub min_time: i64,
    pub max_time: i64,
    pub start_time: i64,
    pub stop_time: i64,
}

/// Interrupt kernel statistic.
#[derive(Clone, Copy, Debug, PartialEq, Eq, Structural)]
pub struct Intr {
    pub hard: u32,
    pub soft: u32,
    pub watchdog: u32,
    pub spurious: u32,
    pub multisvc: u32,
}

/// A name/value data element from a named kernel statistic.
#[derive(Clone, Debug, PartialEq)]
pub struct Named {
    pub name: String,
    pub value: NamedData,
}

/// The value part of a name/value kernel statistic.
#[derive(Clone, Debug, PartialEq)]
pub enum NamedData {
    Char(Vec<u8>),
    Int32(i32),
    UInt32(u32),
    Int64(i64),
    UInt64(u64),
    String(String),
}

impl NamedData {
    /// The type under which this value classifies itself.
    pub open spec fn spec_data_type(&self) -> NamedType {
        match self {
            NamedData::Char(_) => NamedType::Char,
            NamedData::Int32(_) => NamedType::Int32,
            NamedData::UInt32(_) => NamedType::UInt32,
            NamedData::Int64(_) => NamedType::Int64,
            NamedData::UInt64(_) => NamedType::UInt64,
            NamedData::String(_) => NamedType::String,
        }
    }

    /// Return the data type of a named kernel statistic.
    pub fn data_type(&self) -> (t: NamedType)
        ensures
            t == self.spec_data_type(),
    {
        match self {
            NamedData::Char(_) => NamedType::Char,
            NamedData::Int32(_) => NamedType::Int32,
            NamedData::UInt32(_) => NamedType::UInt32,
            NamedData::Int64(_) => NamedType::Int64,
            NamedData::UInt64(_) => NamedType::UInt64,
            NamedData::String(_) => NamedType::String,
        }
    }
}

impl Named {
    /// Return the data type of a named kernel statistic.
    pub fn data_type(&self) -> (t: NamedType)
        ensures
            t == self.value.spec_data_type(),
    {
        self.value.data_type()
    }
}

/// Why one name/value entry fails to decode, if it does: an unreadable name,
/// an unknown data type tag, a malformed value area, or, for string values, an
/// absent pointer or unreadable text.
pub open spec fn named_entry_err(e: RawNamed) -> Option<Error> {
    if spec_str_parse(e.name@) is Err {
        Some(Error::InvalidString)
    } else if NamedType::spec_try_from(e.data_type) is Err {
        Some(Error::InvalidNamedType(e.data_type))
    } else if e.value@.len() != NAMED_VALUE_LEN {
        Some(Error::SizeMismatch)
    } else if e.data_type == KSTAT_DATA_STRING {
        match e.str_data {
            None => Some(Error::NullData),
            Some(sv) => if valid_utf8(nul_prefix(sv@)) {
                None
            } else {
                Some(Error::InvalidString)
            },
        }
    } else {
        None
    }
}

/// The decoded entry `n` is exactly what the raw entry `e` declares: the name
/// is `e`'s NUL-terminated name text, and the value is the scalar shape
/// selected by `e`'s data type tag, read from `e`'s value area.
pub open spec fn named_entry_matches(n: Named, e: RawNamed) -> bool {
    &&& n.name@ == decode_utf8(nul_prefix(e.name@))
    &&& match n.value {
        NamedData::Char(c) => NamedType::spec_try_from(e.data_type) == Ok::<NamedType, Error>(
            NamedType::Char,
        ) && c@ == e.value@,
        NamedData::Int32(i) => NamedType::spec_try_from(e.data_type) == Ok::<NamedType, Error>(
            NamedType::Int32,
        ) && i == spec_u32_from_le_bytes(e.value@.subrange(0, 4)) as i32,
        NamedData::UInt32(u) => NamedType::spec_try_from(e.data_type) == Ok::<NamedType, Error>(
            NamedType::UInt32,
        ) && u == spec_u32_from_le_bytes(e.value@.subrange(0, 4)),
        NamedData::Int64(i) => NamedType::spec_try_from(e.data_type) == Ok::<NamedType, Error>(
            NamedType::Int64,
        ) && i == spec_u64_from_le_bytes(e.value@.subrange(0, 8)) as i64,
        NamedData::UInt64(u) => NamedType::spec_try_from(e.data_type) == Ok::<NamedType, Error>(
            NamedType::UInt64,
        ) && u == spec_u64_from_le_bytes(e.value@.subrange(0, 8)),
        NamedData::String(s) => NamedType::spec_try_from(e.data_type) == Ok::<NamedType, Error>(
            NamedType::String,
        ) && (e.str_data matches Some(sv) && s@ == decode_utf8(nul_prefix(sv@))),
    }
}

impl Named {
    /// Decode one fixed-size name/value entry of a named record.
    pub fn try_from(e: &RawNamed) -> (r: Result<Named, Error>)
        ensures
            match r {
                Ok(n) => named_entry_err(*e) is None && named_entry_matches(n, *e),
                Err(err) => named_entry_err(*e) == Some(err),
            },
    {
        let name = match kstat_str_parse(e.name.as_slice()) {
            Ok(s) => s,
            Err(err) => {
                return Err(err);
            },
        };
        let ty = match NamedType::try_from(e.data_type) {
            Ok(t) => t,
            Err(err) => {
                return Err(err);
            },
        };
        if e.value.len() != NAMED_VALUE_LEN {
            return Err(Error::SizeMismatch);
        }
        match ty {
            NamedType::Char => {
                let c = slice_to_vec(e.value.as_slice());
                Ok(Named { name, value: NamedData::Char(c) })
            },
            NamedType::Int32 => {
                let u = u32_from_le_bytes(slice_subrange(e.value.as_slice(), 0, 4));
                Ok(Named { name, value: NamedData::Int32(#[verifier::truncate] (u as i32)) })
            },
            NamedType::UInt32 => {
                let u = u32_from_le_bytes(slice_subrange(e.value.as_slice(), 0, 4));
                Ok(Named { name, value: NamedData::UInt32(u) })
            },
            NamedType::Int64 => {
                let u = u64_from_le_bytes(slice_subrange(e.value.as_slice(), 0, 8));
                Ok(Named { name, value: NamedData::Int64(#[verifier::truncate] (u as i64)) })
            },
            NamedType::UInt64 => {
                let u = u64_from_le_bytes(slice_subrange(e.value.as_slice(), 0, 8));
                Ok(Named { name, value: NamedData::UInt64(u) })
            },
            NamedType::String => {
                match &e.str_data {
                    None => Err(Error::NullData),
                    Some(sv) => match kstat_str_parse(sv.as_slice()) {
                        Ok(s) => Ok(Named { name, value: NamedData::String(s) }),
                        Err(err) => Err(err),
                    },
                }
            },
        }
    }
}

/// The usable element count of a named record: the smaller of the
/// kernel-declared count and the count actually backed by the payload.
pub open spec fn usable_count(ndata: u32, available: int) -> int {
    if ndata as int <= available {
        ndata as int
    } else {
        available
    }
}

/// The first failure among the entries with indices in `[i, count)`, if any.
pub open spec fn named_list_err_from(es: Seq<RawNamed>, i: int, count: int) -> Option<Error>
    decreases count - i,
{
    if i < 0 || i >= count {
        None
    } else if named_entry_err(es[i]) is Some {
        named_entry_err(es[i])
    } else {
        named_list_err_from(es, i + 1, count)
    }
}

/// Decode the entries of a named record. Only the usable count of entries is
/// read, so a kernel-declared count larger than the payload never reads out
/// of bounds; any entry that fails to decode fails the whole read.
pub fn decode_named_list(es: &Vec<RawNamed>, ndata: u32) -> (r: Result<Vec<Named>, Error>)
    ensures
        ({
            let count = usable_count(ndata, es@.len() as int);
            match r {
                Ok(v) => {
                    &&& named_list_err_from(es@, 0, count) is None
                    &&& v@.len() == count
                    &&& forall|k: int|
                        0 <= k < count ==> named_entry_matches(#[trigger] v@[k], es@[k])
                },
                Err(err) => named_list_err_from(es@, 0, count) == Some(err),
            }
        }),
{
    let count: usize = if (ndata as usize) < es.len() {
        ndata as usize
    } else {
        es.len()
    };
    let mut out: Vec<Named> = Vec::new();
    let mut k: usize = 0;
    while k < count
        invariant
            0 <= k <= count,
            count == usable_count(ndata, es@.len() as int),
            count <= es@.len(),
            out@.len() == k,
            forall|j: int| 0 <= j < k ==> named_entry_matches(#[trigger] out@[j], es@[j]),
            named_list_err_from(es@, 0, count as int) == named_list_err_from(
                es@,
                k as int,
                count as int,
            ),
        decreases count - k,
    {
        match Named::try_from(&es[k]) {
            Ok(n) => {
                out.push(n);
            },
            Err(err) => {
                return Err(err);
            },
        }
        k = k + 1;
    }
    Ok(out)
}

/// The decoded chunks `v` slice the raw payload `b` into `ndata` consecutive
/// pieces of `b.len() / ndata` bytes each; a declared count of zero yields no
/// chunks at all.
pub open spec fn raw_chunks_match(v: Seq<Vec<u8>>, b: Seq<u8>, ndata: u32) -> bool {
    &&& v.len() == ndata
    &&& ({
        let item = b.len() as int / ndata as int;
        ndata > 0 ==> forall|k: int|
            0 <= k < ndata ==> (#[trigger] v[k])@ == b.subrange(k * item, (k + 1) * item)
    })
}

/// Decode a raw record's payload: split it into the declared number of
/// fixed-width chunks, the width being implied by the payload size.
pub fn decode_raw_chunks(bytes: &Vec<u8>, ndata: u32) -> (r: Vec<Vec<u8>>)
    ensures
        raw_chunks_match(r@, bytes@, ndata),
{
    let mut out: Vec<Vec<u8>> = Vec::new();
    if ndata == 0 {
        return out;
    }
    let n: usize = ndata as usize;
    let total: usize = bytes.len();
    let item: usize = total / n;
    proof {
        lemma_fundamental_div_mod(bytes@.len() as int, n as int);
        lemma_mod_bound(bytes@.len() as int, n as int);
    }
    let mut k: usize = 0;
    while k < n
        invariant
            0 <= k <= n,
            n == ndata,
            n > 0,
            total == bytes@.len(),
            item == bytes@.len() as int / n as int,
            n * item <= total,
            out@.len() == k,
            forall|j: int|
                0 <= j < k ==> (#[trigger] out@[j])@ == bytes@.subrange(
                    j * item as int,
                    (j + 1) * item as int,
                ),
        decreases n - k,
    {
        proof {
            lemma_mul_inequality(k as int + 1, n as int, item as int);
            assert((k as int + 1) * item as int == k as int * item as int + item as int)
                by (nonlinear_arith);
            assert(k as int * item as int >= 0) by (nonlinear_arith)
                requires
                    k as int >= 0,
                    item as int >= 0,
            ;
        }
        let chunk = slice_to_vec(slice_subrange(bytes.as_slice(), k * item, k * item + item));
        out.push(chunk);
        k = k + 1;
    }
    out
}

/// The interrupt counters `x` are the five unsigned 32-bit little-endian
/// fields of the fixed-size payload `b`.
pub open spec fn intr_matches(x: Intr, b: Seq<u8>) -> bool {
    &&& x.hard == spec_u32_from_le_bytes(b.subrange(0, 4))
    &&& x.soft == spec_u32_from_le_bytes(b.subrange(4, 8))
    &&& x.watchdog == spec_u32_from_le_bytes(b.subrange(8, 12))
    &&& x.spurious == spec_u32_from_le_bytes(b.subrange(12, 16))
    &&& x.multisvc == spec_u32_from_le_bytes(b.subrange(16, 20))
}

/// Decode the fixed-shape interrupt payload, field for field.
fn decode_intr(b: &[u8]) -> (r: Intr)
    requires
        b@.len() == INTR_SIZE,
    ensures
        intr_matches(r, b@),
{
    Intr {
        hard: u32_from_le_bytes(slice_subrange(b, 0, 4)),
        soft: u32_from_le_bytes(slice_subrange(b, 4, 8)),
        watchdog: u32_from_le_bytes(slice_subrange(b, 8, 12)),
        spurious: u32_from_le_bytes(slice_subrange(b, 12, 16)),
        multisvc: u32_from_le_bytes(slice_subrange(b, 16, 20)),
    }
}

/// The I/O statistic `x` reads the twelve fixed-width little-endian fields of
/// the fixed-size payload `b` at their ABI offsets.
pub open spec fn io_matches(x: Io, b: Seq<u8>) -> bool {
    &&& x.nread == spec_u64_from_le_bytes(b.subrange(0, 8))
    &&& x.nwritten == spec_u64_from_le_bytes(b.subrange(8, 16))
    &&& x.reads == spec_u32_from_le_bytes(b.subrange(16, 20))
    &&& x.writes == spec_u32_from_le_bytes(b.subrange(20, 24))
    &&& x.wtime == spec_u64_from_le_bytes(b.subrange(24, 32)) as i64
    &&& x.wlentime == spec_u64_from_le_bytes(b.subrange(32, 40)) as i64
    &&& x.wlastupdate == spec_u64_from_le_bytes(b.subrange(40, 48)) as i64
    &&& x.rtime == spec_u64_from_le_bytes(b.subrange(48, 56)) as i64
    &&& x.rlentime == spec_u64_from_le_bytes(b.subrange(56, 64)) as i64
    &&& x.rlastupdate == spec_u64_from_le_bytes(b.subrange(64, 72)) as i64
    &&& x.wcnt == spec_u32_from_le_bytes(b.subrange(72, 76))
    &&& x.rcnt == spec_u32_from_le_bytes(b.subrange(76, 80))
}

/// Decode the fixed-shape I/O payload, field for field.
fn decode_io(b: &[u8]) -> (r: Io)
    requires
        b@.len() == IO_SIZE,
    ensures
        io_matches(r, b@),
{
    Io {
        nread: u64_from_le_bytes(slice_subrange(b, 0, 8)),
        nwritten: u64_from_le_bytes(slice_subrange(b, 8, 16)),
        reads: u32_from_le_bytes(slice_subrange(b, 16, 20)),
        writes: u32_from_le_bytes(slice_subrange(b, 20, 24)),
        wtime: #[verifier::truncate] (u64_from_le_bytes(slice_subrange(b, 24, 32)) as i64),
        wlentime: #[verifier::truncate] (u64_from_le_bytes(slice_subrange(b, 32, 40)) as i64),
        wlastupdate: #[verifier::truncate] (u64_from_le_bytes(slice_subrange(b, 40, 48)) as i64),
        rtime: #[verifier::truncate] (u64_from_le_bytes(slice_subrange(b, 48, 56)) as i64),
        rlentime: #[verifier::truncate] (u64_from_le_bytes(slice_subrange(b, 56, 64)) as i64),
        rlastupdate: #[verifier::truncate] (u64_from_le_bytes(slice_subrange(b, 64, 72)) as i64),
        wcnt: u32_from_le_bytes(slice_subrange(b, 72, 76)),
        rcnt: u32_from_le_bytes(slice_subrange(b, 76, 80)),
    }
}

/// Why one fixed-size timer record fails to decode, if it does: an unreadable
/// name, or an event count too large for this machine.
pub open spec fn timer_entry_err(b: Seq<u8>) -> Option<Error> {
    if !valid_utf8(nul_prefix(b.subrange(0, 31))) {
        Some(Error::InvalidString)
    } else if spec_u64_from_le_bytes(b.subrange(32, 40)) as int > usize::MAX as int {
        Some(Error::SizeMismatch)
    } else {
        None
    }
}

/// The timer `t` reads the name buffer and the six fixed-width little-endian
/// fields of the fixed-size record `b` at their ABI offsets.
pub open spec fn timer_matches(t: Timer, b: Seq<u8>) -> bool {
    &&& t.name@ == decode_utf8(nul_prefix(b.subrange(0, 31)))
    &&& t.num_events as int == spec_u64_from_le_bytes(b.subrange(32, 40)) as int
    &&& t.elapsed_time == spec_u64_from_le_bytes(b.subrange(40, 48)) as i64
    &&& t.min_time == spec_u64_from_le_bytes(b.subrange(48, 56)) as i64
    &&& t.max_time == spec_u64_from_le_bytes(b.subrange(56, 64)) as i64
    &&& t.start_time == spec_u64_from_le_bytes(b.subrange(64, 72)) as i64
    &&& t.stop_time == spec_u64_from_le_bytes(b.subrange(72, 80)) as i64
}

/// Decode one fixed-size timer record.
fn decode_timer(b: &[u8]) -> (r: Result<Timer, Error>)
    requires
        b@.len() == TIMER_SIZE,
    ensures
        match r {
            Ok(t) => timer_entry_err(b@) is None && timer_matches(t, b@),
            Err(err) => timer_entry_err(b@) == Some(err),
        },
{
    let name = match kstat_str_parse(slice_subrange(b, 0, 31)) {
        Ok(s) => s,
        Err(err) => {
            return Err(err);
        },
    };
    let ev = u64_from_le_bytes(slice_subrange(b, 32, 40));
    if ev > usize::MAX as u64 {
        return Err(Error::SizeMismatch);
    }
    Ok(Timer {
        name,
        num_events: ev as usize,
        elapsed_time: #[verifier::truncate] (u64_from_le_bytes(slice_subrange(b, 40, 48)) as i64),
        min_time: #[verifier::truncate] (u64_from_le_bytes(slice_subrange(b, 48, 56)) as i64),
        max_time: #[verifier::truncate] (u64_from_le_bytes(slice_subrange(b, 56, 64)) as i64),
        start_time: #[verifier::truncate] (u64_from_le_bytes(slice_subrange(b, 64, 72)) as i64),
        stop_time: #[verifier::truncate] (u64_from_le_bytes(slice_subrange(b, 72, 80)) as i64),
    })
}

/// The bytes of the timer record at index `i` of a timer payload.
pub open spec fn timer_slice(b: Seq<u8>, i: int) -> Seq<u8> {
    b.subrange(i * TIMER_SIZE as int, (i + 1) * TIMER_SIZE as int)
}

/// The first failure among the timer records with indices in `[i, n)`, if any.
pub open spec fn timer_list_err_from(b: Seq<u8>, i: int, n: int) -> Option<Error>
    decreases n - i,
{
    if i < 0 || i >= n {
        None
    } else if timer_entry_err(timer_slice(b, i)) is Some {
        timer_entry_err(timer_slice(b, i))
    } else {
        timer_list_err_from(b, i + 1, n)
    }
}

/// Decode the records of a timer payload, whose size the dispatcher has
/// already checked to be exactly `ndata` fixed-size records.
fn decode_timer_list(bytes: &Vec<u8>, ndata: u32) -> (r: Result<Vec<Timer>, Error>)
    requires
        bytes@.len() as int == ndata as int * TIMER_SIZE as int,
    ensures
        match r {
            Ok(v) => {
                &&& timer_list_err_from(bytes@, 0, ndata as int) is None
                &&& v@.len() == ndata
                &&& forall|k: int|
                    0 <= k < ndata ==> timer_matches(#[trigger] v@[k], timer_slice(bytes@, k))
            },
            Err(err) => timer_list_err_from(bytes@, 0, ndata as int) == Some(err),
        },
{
    let n: usize = ndata as usize;
    let total: usize = bytes.len();
    let mut out: Vec<Timer> = Vec::new();
    let mut k: usize = 0;
    while k < n
        invariant
            0 <= k <= n,
            n == ndata,
            total == bytes@.len(),
            bytes@.len() as int == n as int * TIMER_SIZE as int,
            out@.len() == k,
            forall|j: int|
                0 <= j < k ==> timer_matches(#[trigger] out@[j], timer_slice(bytes@, j)),
            timer_list_err_from(bytes@, 0, n as int) == timer_list_err_from(
                bytes@,
                k as int,
                n as int,
            ),
        decreases n - k,
    {
        proof {
            lemma_mul_inequality(k as int + 1, n as int, TIMER_SIZE as int);
            assert((k as int + 1) * TIMER_SIZE as int == k as int * TIMER_SIZE as int
                + TIMER_SIZE as int) by (nonlinear_arith);
            assert(k as int * TIMER_SIZE as int >= 0) by (nonlinear_arith)
                requires
                    k as int >= 0,
            ;
        }
        let rec = slice_subrange(bytes.as_slice(), k * TIMER_SIZE, k * TIMER_SIZE + TIMER_SIZE);
        match decode_timer(rec) {
            Ok(t) => {
                out.push(t);
            },
            Err(err) => {
                return Err(err);
            },
        }
        k = k + 1;
    }
    Ok(out)
}

/// Why decoding a record under type `ty` fails, if it does. A record fails
/// when its data area is absent, when the data area's shape contradicts the
/// declared type or its fixed expected size, or when an element inside the
/// payload fails to decode.
pub open spec fn record_err(rec: RawRecord, ty: Type) -> Option<Error> {
    match rec.ks_data {
        RawData::Null => Some(Error::NullData),
        RawData::Bytes(b) => match ty {
            Type::Raw => None,
            Type::Named => Some(Error::SizeMismatch),
            Type::Intr => if rec.ks_ndata == 1 && b@.len() == INTR_SIZE {
                None
            } else {
                Some(Error::SizeMismatch)
            },
            Type::Io => if rec.ks_ndata == 1 && b@.len() == IO_SIZE {
                None
            } else {
                Some(Error::SizeMismatch)
            },
            Type::Timer => if b@.len() as int == rec.ks_ndata as int * TIMER_SIZE as int {
                timer_list_err_from(b@, 0, rec.ks_ndata as int)
            } else {
                Some(Error::SizeMismatch)
            },
        },
        RawData::Entries(es) => match ty {
            Type::Named => named_list_err_from(es@, 0, usable_count(rec.ks_ndata, es@.len() as int)),
            _ => Some(Error::SizeMismatch),
        },
    }
}

/// The decoded value `d` is exactly what the record `rec` holds under the
/// declared type `ty`: the variant is the one `ty` selects, and its contents
/// are the payload's, element for element.
pub open spec fn record_matches(rec: RawRecord, ty: Type, d: Data) -> bool {
    match rec.ks_data {
        RawData::Null => false,
        RawData::Bytes(b) => match ty {
            Type::Raw => d matches Data::Raw(v) && raw_chunks_match(v@, b@, rec.ks_ndata),
            Type::Named => false,
            Type::Intr => d matches Data::Intr(x) && intr_matches(x, b@),
            Type::Io => d matches Data::Io(x) && io_matches(x, b@),
            Type::Timer => d matches Data::Timer(v) && v@.len() == rec.ks_ndata && (forall|k: int|
                0 <= k < rec.ks_ndata ==> timer_matches(#[trigger] v@[k], timer_slice(b@, k))),
        },
        RawData::Entries(es) => match ty {
            Type::Named => d matches Data::Named(v) && {
                let count = usable_count(rec.ks_ndata, es@.len() as int);
                v@.len() == count && (forall|k: int|
                    0 <= k < count ==> named_entry_matches(#[trigger] v@[k], es@[k]))
            },
            _ => false,
        },
    }
}

/// Decode a record's payload according to the declared type `ty`, validating
/// shape and size before any payload interpretation. A read either fully
/// succeeds or reports exactly why it could not.
pub fn decode_record(rec: &RawRecord, ty: Type) -> (r: Result<Data, Error>)
    ensures
        match r {
            Ok(d) => record_err(*rec, ty) is None && record_matches(*rec, ty, d),
            Err(err) => record_err(*rec, ty) == Some(err),
        },
{
    match &rec.ks_data {
        RawData::Null => Err(Error::NullData),
        RawData::Bytes(b) => match ty {
            Type::Raw => Ok(Data::Raw(decode_raw_chunks(b, rec.ks_ndata))),
            Type::Named => Err(Error::SizeMismatch),
            Type::Intr => {
                if rec.ks_ndata == 1 && b.len() == INTR_SIZE {
                    Ok(Data::Intr(decode_intr(b.as_slice())))
                } else {
                    Err(Error::SizeMismatch)
                }
            },
            Type::Io => {
                if rec.ks_ndata == 1 && b.len() == IO_SIZE {
                    Ok(Data::Io(decode_io(b.as_slice())))
                } else {
                    Err(Error::SizeMismatch)
                }
            },
            Type::Timer => {
                if (b.len() as u64) == (rec.ks_ndata as u64) * (TIMER_SIZE as u64) {
                    match decode_timer_list(b, rec.ks_ndata) {
                        Ok(v) => Ok(Data::Timer(v)),
                        Err(err) => Err(err),
                    }
                } else {
                    Err(Error::SizeMismatch)
                }
            },
        },
        RawData::Entries(es) => match ty {
            Type::Named => match decode_named_list(es, rec.ks_ndata) {
                Ok(v) => Ok(Data::Named(v)),
                Err(err) => Err(err),
            },
            _ => Err(Error::SizeMismatch),
        },
    }
}

} // verus!
