//! The snapshot handle and the walk over its chain of records.
//!
//! A [`Ctl`] owns one snapshot of the kernel's statistics chain. Walking it
//! yields lightweight [`Kstat`] descriptors; a record whose text fields or
//! type tag cannot be decoded is skipped, never surfaced as an error. A
//! descriptor can then be read back through the handle, which re-reads the
//! record it points at and decodes the payload.

use vstd::prelude::*;
use vstd::string::StrSliceExecFns;
use vstd::utf8::decode_utf8;

use crate::data::{decode_record, record_err, record_matches, Data};
use crate::raw::{nul_prefix, spec_str_parse, kstat_str_parse, RawRecord};
use crate::types::Type;
use crate::Error;

verus! {

/// `Ctl` is a handle to one snapshot of the kernel's statistics chain.
///
/// Its view is the sequence of raw records of the snapshot, in chain order.
#[derive(Debug)]
pub struct Ctl {
    chain: Vec<RawRecord>,
}

impl View for Ctl {
    type V = Seq<RawRecord>;

    closed spec fn view(&self) -> Seq<RawRecord> {
        self.chain@
    }
}

/// `Kstat` represents a single kernel statistic: a lightweight descriptor of
/// one record of the chain, valid as long as the owning snapshot is.
#[derive(Clone, Debug, PartialEq, Eq)]
pub struct Kstat {
    /// The creation time of the stat, in nanoseconds.
    pub ks_crtime: i64,
    /// The time of the last update, in nanoseconds.
    pub ks_snaptime: i64,
    /// The module of the kstat.
    pub ks_module: String,
    /// The instance of the kstat.
    pub ks_instance: i32,
    /// The name of the kstat.
    pub ks_name: String,
    /// The type of the kstat.
    pub ks_type: Type,
    /// The class of the kstat.
    pub ks_class: String,
    /// The back-reference to the underlying record: its position in the
    /// owning snapshot's chain.
    pub ks: usize,
}

impl Kstat {
    /// The position in the owning snapshot's chain that this descriptor
    /// refers back to.
    pub open spec fn chain_index(&self) -> int {
        self.ks as int
    }
}

/// Why a record yields no descriptor, if it does not: one of its fixed text
/// buffers is not readable text, or its type tag is unknown.
pub open spec fn record_desc_err(rec: RawRecord) -> Option<Error> {
    if spec_str_parse(rec.ks_module@) is Err {
        Some(Error::InvalidString)
    } else if spec_str_parse(rec.ks_name@) is Err {
        Some(Error::InvalidString)
    } else if Type::spec_try_from(rec.ks_type) is Err {
        Some(Error::InvalidType(rec.ks_type))
    } else if spec_str_parse(rec.ks_class@) is Err {
        Some(Error::InvalidString)
    } else {
        None
    }
}

/// A record that yields a descriptor: all text fields decode and the type
/// tag is known.
pub open spec fn record_ok(rec: RawRecord) -> bool {
    record_desc_err(rec) is None
}

/// The descriptor `k` reads exactly the identifying fields of the record
/// `rec`, which sits at position `idx` of the chain.
pub open spec fn kstat_matches(k: Kstat, rec: RawRecord, idx: int) -> bool {
    &&& k.ks_crtime == rec.ks_crtime
    &&& k.ks_snaptime == rec.ks_snaptime
    &&& k.ks_module@ == decode_utf8(nul_prefix(rec.ks_module@))
    &&& k.ks_instance == rec.ks_instance
    &&& k.ks_name@ == decode_utf8(nul_prefix(rec.ks_name@))
    &&& Type::spec_try_from(rec.ks_type) == Ok::<Type, Error>(k.ks_type)
    &&& k.ks_class@ == decode_utf8(nul_prefix(rec.ks_class@))
    &&& k.chain_index() == idx
}

impl Kstat {
    /// Decode the identifying fields of one chain record into a descriptor,
    /// remembering the record's position for later reads.
    pub fn try_from(rec: &RawRecord, index: usize) -> (r: Result<Kstat, Error>)
        ensures
            match r {
                Ok(k) => record_ok(*rec) && kstat_matches(k, *rec, index as int),
                Err(err) => record_desc_err(*rec) == Some(err),
            },
    {
        let ks_module = match kstat_str_parse(rec.ks_module.as_slice()) {
            Ok(s) => s,
            Err(e) => {
                return Err(e);
            },
        };
        let ks_name = match kstat_str_parse(rec.ks_name.as_slice()) {
            Ok(s) => s,
            Err(e) => {
                return Err(e);
            },
        };
        let ks_type = match Type::try_from(rec.ks_type) {
            Ok(t) => t,
            Err(e) => {
                return Err(e);
            },
        };
        let ks_class = match kstat_str_parse(rec.ks_class.as_slice()) {
            Ok(s) => s,
            Err(e) => {
                return Err(e);
            },
        };
        Ok(
            Kstat {
                ks_crtime: rec.ks_crtime,
                ks_snaptime: rec.ks_snaptime,
                ks_module,
                ks_instance: rec.ks_instance,
                ks_name,
                ks_type,
                ks_class,
                ks: index,
            },
        )
    }
}

/// The position of the first record at or after `i` that yields a
/// descriptor; the chain's length when there is none.
pub open spec fn first_ok(chain: Seq<RawRecord>, i: int) -> int
    decreases chain.len() - i,
{
    if i < 0 || i >= chain.len() {
        chain.len() as int
    } else if record_ok(chain[i]) {
        i
    } else {
        first_ok(chain, i + 1)
    }
}

/// A lazy walk over the records of one snapshot, yielding a descriptor per
/// decodable record and silently skipping the rest.
#[derive(Debug)]
pub struct Iter<'a> {
    ctl: &'a Ctl,
    pos: usize,
}

impl<'a> Iter<'a> {
    /// The chain being walked.
    pub closed spec fn chain(&self) -> Seq<RawRecord> {
        self.ctl@
    }

    /// The position of the next record the walk will look at.
    pub closed spec fn pos(&self) -> int {
        self.pos as int
    }

    /// The descriptor of the next decodable record, advancing past it; `None`
    /// once every remaining record has been looked at.
    pub fn next(&mut self) -> (r: Option<Kstat>)
        ensures
            final(self).chain() == old(self).chain(),
            ({
                let f = first_ok(old(self).chain(), old(self).pos());
                match r {
                    Some(k) => {
                        &&& f < old(self).chain().len()
                        &&& kstat_matches(k, old(self).chain()[f], f)
                        &&& final(self).pos() == f + 1
                    },
                    None => f == old(self).chain().len() && final(self).pos() == f,
                }
            }),
    {
        let n = self.ctl.chain.len();
        let mut i = self.pos;
        while i < n
            invariant
                n == self.chain().len(),
                *self == *old(self),
                first_ok(self.chain(), old(self).pos()) == first_ok(self.chain(), i as int),
            decreases n - i,
        {
            match Kstat::try_from(&self.ctl.chain[i], i) {
                Ok(k) => {
                    proof {
                        assert(first_ok(self.chain(), i as int) == i);
                    }
                    self.pos = i + 1;
                    return Some(k);
                },
                Err(_) => {
                    proof {
                        assert(first_ok(self.chain(), i as int) == first_ok(
                            self.chain(),
                            i as int + 1,
                        ));
                    }
                    i = i + 1;
                },
            }
        }
        self.pos = n;
        None
    }
}

/// Whether a record is selected by the given criteria: it matches at least
/// one of the supplied ones; with no criterion supplied, every record is.
pub open spec fn criteria_match(
    rec: RawRecord,
    module: Option<Seq<char>>,
    instance: Option<i32>,
    name: Option<Seq<char>>,
) -> bool {
    ||| (module matches Some(m) && m == decode_utf8(nul_prefix(rec.ks_module@)))
    ||| (instance matches Some(i) && i == rec.ks_instance)
    ||| (name matches Some(n) && n == decode_utf8(nul_prefix(rec.ks_name@)))
    ||| (module is None && instance is None && name is None)
}

/// The view of an optional borrowed string criterion.
pub open spec fn view_str_opt(s: Option<&str>) -> Option<Seq<char>> {
    match s {
        Some(x) => Some(x@),
        None => None,
    }
}

/// The positions, in chain order from `i` on, of the records that yield a
/// descriptor and are selected by the given criteria.
pub open spec fn kept_indices(
    chain: Seq<RawRecord>,
    i: int,
    module: Option<Seq<char>>,
    instance: Option<i32>,
    name: Option<Seq<char>>,
) -> Seq<int>
    decreases chain.len() - i,
{
    if i < 0 || i >= chain.len() {
        Seq::empty()
    } else {
        let rest = kept_indices(chain, i + 1, module, instance, name);
        if record_ok(chain[i]) && criteria_match(chain[i], module, instance, name) {
            seq![i] + rest
        } else {
            rest
        }
    }
}

/// The positions, in chain order from `i` on, of every record that yields a
/// descriptor: the positions iteration stops at.
pub open spec fn ok_indices(chain: Seq<RawRecord>, i: int) -> Seq<int>
    decreases chain.len() - i,
{
    if i < 0 || i >= chain.len() {
        Seq::empty()
    } else {
        let rest = ok_indices(chain, i + 1);
        if record_ok(chain[i]) {
            seq![i] + rest
        } else {
            rest
        }
    }
}

/// Compare two strings by their characters.
pub(crate) fn str_eq(a: &str, b: &str) -> (r: bool)
    ensures
        r == (a@ == b@),
{
    let la = a.unicode_len();
    let lb = b.unicode_len();
    if la != lb {
        return false;
    }
    let mut i: usize = 0;
    while i < la
        invariant
            0 <= i <= la,
            la == a@.len(),
            lb == b@.len(),
            la == lb,
            forall|j: int| 0 <= j < i ==> a@[j] == b@[j],
        decreases la - i,
    {
        let ca = a.get_char(i);
        let cb = b.get_char(i);
        if ca != cb {
            return false;
        }
        i = i + 1;
    }
    proof {
        assert(a@ =~= b@);
    }
    true
}

impl Ctl {
    /// Create a handle holding one snapshot of the kernel's chain.
    pub fn new(chain: Vec<RawRecord>) -> (r: Ctl)
        ensures
            r@ == chain@,
    {
        Ctl { chain }
    }

    /// Bring this handle in sync with a newer snapshot of the chain.
    ///
    /// The handle is consumed and returned: descriptors derived from the old
    /// snapshot must not be trusted against the new one.
    pub fn update(self, chain: Vec<RawRecord>) -> (r: Ctl)
        ensures
            r@ == chain@,
    {
        Ctl { chain }
    }

    /// Return an iterator over the [`Kstat`]s in `self`.
    ///
    /// Note that this will only return `Kstat`s which are successfully
    /// decoded; for example, it skips those with non-UTF-8 names.
    pub fn iter(&self) -> (r: Iter<'_>)
        ensures
            r.chain() == self@,
            r.pos() == 0,
    {
        Iter { ctl: self, pos: 0 }
    }

    /// Read a [`Kstat`], returning the data for it.
    ///
    /// The record the descriptor points back at is re-read: the descriptor's
    /// last-update time is refreshed from it, and its payload is decoded
    /// under the descriptor's type. A descriptor whose record is no longer
    /// behind the handle reports absent data.
    pub fn read(&self, kstat: &mut Kstat) -> (r: Result<Data, Error>)
        ensures
            old(kstat).chain_index() < self@.len() ==> ({
                let rec = self@[old(kstat).chain_index()];
                &&& final(kstat).ks_snaptime == rec.ks_snaptime
                &&& final(kstat).ks_crtime == old(kstat).ks_crtime
                &&& final(kstat).ks_module == old(kstat).ks_module
                &&& final(kstat).ks_instance == old(kstat).ks_instance
                &&& final(kstat).ks_name == old(kstat).ks_name
                &&& final(kstat).ks_type == old(kstat).ks_type
                &&& final(kstat).ks_class == old(kstat).ks_class
                &&& final(kstat).chain_index() == old(kstat).chain_index()
                &&& match r {
                    Ok(d) => record_err(rec, old(kstat).ks_type) is None && record_matches(
                        rec,
                        old(kstat).ks_type,
                        d,
                    ),
                    Err(err) => record_err(rec, old(kstat).ks_type) == Some(err),
                }
            }),
            old(kstat).chain_index() >= self@.len() ==> r == Err::<Data, Error>(Error::NullData)
                && *final(kstat) == *old(kstat),
    {
        let idx = kstat.ks;
        if idx >= self.chain.len() {
            return Err(Error::NullData);
        }
        kstat.ks_snaptime = self.chain[idx].ks_snaptime;
        decode_record(&self.chain[idx], kstat.ks_type)
    }

    /// Find [`Kstat`]s by module, instance, and/or name.
    ///
    /// A descriptor is returned when it matches at least one of the supplied
    /// criteria; with no criterion supplied, every descriptor is returned.
    pub fn filter(&self, module: Option<&str>, instance: Option<i32>, name: Option<&str>) -> (r:
        Vec<Kstat>)
        ensures
            ({
                let keep = kept_indices(self@, 0, view_str_opt(module), instance, view_str_opt(name));
                &&& r@.len() == keep.len()
                &&& forall|j: int|
                    0 <= j < keep.len() ==> kstat_matches(#[trigger] r@[j], self@[keep[j]], keep[j])
            }),
    {
        let ghost m = view_str_opt(module);
        let ghost nm = view_str_opt(name);
        let n = self.chain.len();
        let mut out: Vec<Kstat> = Vec::new();
        let ghost mut kept: Seq<int> = Seq::empty();
        let mut i: usize = 0;
        while i < n
            invariant
                0 <= i <= n,
                n == self@.len(),
                m == view_str_opt(module),
                nm == view_str_opt(name),
                kept_indices(self@, 0, m, instance, nm) == kept + kept_indices(
                    self@,
                    i as int,
                    m,
                    instance,
                    nm,
                ),
                out@.len() == kept.len(),
                forall|j: int|
                    0 <= j < kept.len() ==> kstat_matches(#[trigger] out@[j], self@[kept[j]], kept[j]),
            decreases n - i,
        {
            match Kstat::try_from(&self.chain[i], i) {
                Ok(k) => {
                    let m_hit = match module {
                        Some(s) => str_eq(s, k.ks_module.as_str()),
                        None => false,
                    };
                    let i_hit = match instance {
                        Some(v) => v == k.ks_instance,
                        None => false,
                    };
                    let n_hit = match name {
                        Some(s) => str_eq(s, k.ks_name.as_str()),
                        None => false,
                    };
                    let wildcard = module.is_none() && instance.is_none() && name.is_none();
                    if m_hit || i_hit || n_hit || wildcard {
                        proof {
                            assert(criteria_match(self@[i as int], m, instance, nm));
                            assert(kept + kept_indices(self@, i as int, m, instance, nm) =~= (kept
                                + seq![i as int]) + kept_indices(self@, i as int + 1, m, instance, nm));
                            kept = kept + seq![i as int];
                        }
                        out.push(k);
                    } else {
                        proof {
                            assert(!criteria_match(self@[i as int], m, instance, nm));
                        }
                    }
                },
                Err(_) => {
                    proof {
                        assert(!record_ok(self@[i as int]));
                    }
                },
            }
            i = i + 1;
        }
        proof {
            assert(kept_indices(self@, 0, m, instance, nm) =~= kept);
        }
        out
    }
}

} // verus!
