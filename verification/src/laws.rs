//! Laws the library's operations obey, stated and proved once for every
//! input rather than checked on samples.

use vstd::prelude::*;
use vstd::utf8::decode_utf8;

use crate::chain::{criteria_match, first_ok, kept_indices, ok_indices, record_ok};
use crate::data::{named_entry_matches, record_matches, Data, Named};
use crate::raw::{nul_prefix, RawNamed, RawRecord};
use crate::types::{NamedType, Type};
use crate::Error;

verus! {

/// A decoded value's variant always matches the type tag that selected it:
/// decoding never reinterprets a payload under a mismatched shape.
pub proof fn lemma_decoded_variant_matches_tag(rec: RawRecord, ty: Type, d: Data)
    requires
        record_matches(rec, ty, d),
    ensures
        ty is Raw ==> d is Raw,
        ty is Named ==> d is Named,
        ty is Intr ==> d is Intr,
        ty is Io ==> d is Io,
        ty is Timer ==> d is Timer,
{
}

/// Tag/value consistency: a decoded named entry classifies itself under
/// exactly the data type tag that selected its decode branch.
pub proof fn lemma_named_tag_consistency(n: Named, e: RawNamed)
    requires
        named_entry_matches(n, e),
    ensures
        NamedType::spec_try_from(e.data_type) == Ok::<NamedType, Error>(n.value.spec_data_type()),
{
}

/// Tag/value consistency over a whole decoded table: each entry of a named
/// record's decoded value carries the data type its raw entry declared.
pub proof fn lemma_named_table_tags(es: Seq<RawNamed>, v: Seq<Named>, count: int)
    requires
        v.len() == count,
        forall|k: int| 0 <= k < count ==> named_entry_matches(#[trigger] v[k], es[k]),
    ensures
        forall|k: int|
            0 <= k < count ==> NamedType::spec_try_from(#[trigger] es[k].data_type) == Ok::<
                NamedType,
                Error,
            >(v[k].value.spec_data_type()),
{
    assert forall|k: int| 0 <= k < count implies NamedType::spec_try_from(
        #[trigger] es[k].data_type,
    ) == Ok::<NamedType, Error>(v[k].value.spec_data_type()) by {
        lemma_named_tag_consistency(v[k], es[k]);
    }
}

/// The wildcard identity law: filtering with every criterion absent keeps
/// exactly the positions that iteration yields.
pub proof fn lemma_filter_wildcard_identity(chain: Seq<RawRecord>, i: int)
    ensures
        kept_indices(chain, i, None, None, None) == ok_indices(chain, i),
    decreases chain.len() - i,
{
    if 0 <= i && i < chain.len() {
        lemma_filter_wildcard_identity(chain, i + 1);
    }
}

/// The union-of-criteria law: a record whose name matches the name criterion
/// is kept whatever the module and instance criteria say — criteria combine
/// by or, not by and.
pub proof fn lemma_filter_or_semantics(
    chain: Seq<RawRecord>,
    i: int,
    module: Option<Seq<char>>,
    instance: Option<i32>,
    name: Seq<char>,
    idx: int,
)
    requires
        0 <= i <= idx < chain.len(),
        record_ok(chain[idx]),
        name == decode_utf8(nul_prefix(chain[idx].ks_name@)),
    ensures
        kept_indices(chain, i, module, instance, Some(name)).contains(idx),
    decreases chain.len() - i,
{
    let kept = kept_indices(chain, i, module, instance, Some(name));
    if i == idx {
        assert(criteria_match(chain[i], module, instance, Some(name)));
        assert(kept[0] == idx);
    } else {
        lemma_filter_or_semantics(chain, i + 1, module, instance, name, idx);
        let rest = kept_indices(chain, i + 1, module, instance, Some(name));
        let k = choose|k: int| 0 <= k < rest.len() && rest[k] == idx;
        if record_ok(chain[i]) && criteria_match(chain[i], module, instance, Some(name)) {
            assert(kept[k + 1] == idx);
        }
    }
}

/// Iteration stops exactly at the ok positions: the position the walk stops
/// at next is the head of the remaining ok positions, and the walk then
/// continues with their tail.
pub proof fn lemma_iteration_visits_ok_indices(chain: Seq<RawRecord>, i: int)
    requires
        0 <= i,
    ensures
        ok_indices(chain, i).len() == 0 ==> first_ok(chain, i) == chain.len(),
        ok_indices(chain, i).len() > 0 ==> first_ok(chain, i) == ok_indices(chain, i)[0]
            && ok_indices(chain, first_ok(chain, i) + 1) == ok_indices(chain, i).skip(1),
    decreases chain.len() - i,
{
    if i >= chain.len() {
    } else if record_ok(chain[i]) {
        assert(ok_indices(chain, i) =~= seq![i] + ok_indices(chain, i + 1));
        assert((seq![i] + ok_indices(chain, i + 1)).skip(1) =~= ok_indices(chain, i + 1));
    } else {
        lemma_iteration_visits_ok_indices(chain, i + 1);
    }
}

} // verus!
