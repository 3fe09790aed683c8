//! The merge pass: walks the symbol list, filters by name, normalizes
//! each symbol's path, preserves the curated fields of a prior record
//! with the same name, recomputes address, wire type and length, and
//! produces the two new record sets together with the advisory report.

use vstd::prelude::*;
use std::collections::HashMap;
use crate::address::{
    offset_to_address, translate_spec, is_known_space, FailureKind, MARKER_REF_ID, HOLDINGS_REF_ID,
    INPUTS_REF_ID,
};
use crate::types::{TypeNode, TypeNodeV, dict_view, resolve_spec, get_modbus_length_type};
use crate::text::{normalize, normalized_name, description_seed, str_eq};
use crate::filter::{NameFilter, regex_match};
use crate::records::{
    Symbol, SymbolV, CSVEntryHoldings, CSVEntryHoldingsV, CSVEntryInputs, CSVEntryInputsV,
    ReportLine, ReportLineV, Family, holdings_default_v, inputs_default_v, seq_views,
};

verus! {

/// The marker and holdings spaces both feed the Holdings-family set.
pub open spec fn is_holdings_family(id: u32) -> bool {
    id == MARKER_REF_ID || id == HOLDINGS_REF_ID
}

/// The output family a recognized address-space id feeds.
pub open spec fn family_of(id: u32) -> Family {
    if id == INPUTS_REF_ID {
        Family::Inputs
    } else {
        Family::Holdings
    }
}

/// The first Holdings-family record carrying `name`, if any.
pub open spec fn find_holdings(recs: Seq<CSVEntryHoldingsV>, name: Seq<char>) -> Option<
    CSVEntryHoldingsV,
>
    decreases recs.len(),
{
    if recs.len() == 0 {
        None
    } else if recs[0].name == name {
        Some(recs[0])
    } else {
        find_holdings(recs.skip(1), name)
    }
}

/// The first Inputs-family record carrying `name`, if any.
pub open spec fn find_inputs(recs: Seq<CSVEntryInputsV>, name: Seq<char>) -> Option<
    CSVEntryInputsV,
>
    decreases recs.len(),
{
    if recs.len() == 0 {
        None
    } else if recs[0].name == name {
        Some(recs[0])
    } else {
        find_inputs(recs.skip(1), name)
    }
}

/// The record a Holdings-family symbol starts from: the curated record
/// carrying its name, or a fresh default seeded with name and
/// description.
pub open spec fn holdings_base(
    old: Seq<CSVEntryHoldingsV>,
    name: Seq<char>,
    desc: Seq<char>,
) -> CSVEntryHoldingsV {
    match find_holdings(old, name) {
        Some(r) => r,
        None => (CSVEntryHoldingsV { name: name, description: desc, ..holdings_default_v() }),
    }
}

/// The record an Inputs-family symbol starts from.
pub open spec fn inputs_base(
    old: Seq<CSVEntryInputsV>,
    name: Seq<char>,
    desc: Seq<char>,
) -> CSVEntryInputsV {
    match find_inputs(old, name) {
        Some(r) => r,
        None => (CSVEntryInputsV { name: name, description: desc, ..inputs_default_v() }),
    }
}

/// The Holdings-family record a symbol produces: its base record with
/// the freshly computed address (kept as it was when translation
/// failed), register length and wire tag.
pub open spec fn holdings_record_for(
    sym: SymbolV,
    dict: Map<u32, TypeNodeV>,
    old: Seq<CSVEntryHoldingsV>,
) -> CSVEntryHoldingsV {
    let base = holdings_base(old, normalized_name(sym.path), description_seed(sym.path));
    CSVEntryHoldingsV {
        address: match translate_spec(sym.ref_id, sym.offset) {
            Ok(a) => a,
            Err(_) => base.address,
        },
        length: resolve_spec(dict, sym.type_id).0,
        type_: resolve_spec(dict, sym.type_id).1,
        ..base
    }
}

/// The Inputs-family record a symbol produces.
pub open spec fn inputs_record_for(
    sym: SymbolV,
    dict: Map<u32, TypeNodeV>,
    old: Seq<CSVEntryInputsV>,
) -> CSVEntryInputsV {
    let base = inputs_base(old, normalized_name(sym.path), description_seed(sym.path));
    CSVEntryInputsV {
        address: match translate_spec(sym.ref_id, sym.offset) {
            Ok(a) => a,
            Err(_) => base.address,
        },
        length: resolve_spec(dict, sym.type_id).0,
        type_: resolve_spec(dict, sym.type_id).1,
        ..base
    }
}

/// What a symbol contributes to the Holdings-family output set: one
/// record if it belongs to the family, passes the name filter, its
/// type resolves to a positive length and its offset translates;
/// nothing otherwise.
pub open spec fn holdings_outcome(
    sym: SymbolV,
    dict: Map<u32, TypeNodeV>,
    pattern: Seq<char>,
    old: Seq<CSVEntryHoldingsV>,
) -> Seq<CSVEntryHoldingsV> {
    if is_holdings_family(sym.ref_id) && regex_match(pattern, normalized_name(sym.path))
        && resolve_spec(dict, sym.type_id).0 > 0 && translate_spec(sym.ref_id, sym.offset) is Ok {
        seq![holdings_record_for(sym, dict, old)]
    } else {
        Seq::empty()
    }
}

/// What a symbol contributes to the Inputs-family output set.
pub open spec fn inputs_outcome(
    sym: SymbolV,
    dict: Map<u32, TypeNodeV>,
    pattern: Seq<char>,
    old: Seq<CSVEntryInputsV>,
) -> Seq<CSVEntryInputsV> {
    if sym.ref_id == INPUTS_REF_ID && regex_match(pattern, normalized_name(sym.path))
        && resolve_spec(dict, sym.type_id).0 > 0 && translate_spec(sym.ref_id, sym.offset) is Ok {
        seq![inputs_record_for(sym, dict, old)]
    } else {
        Seq::empty()
    }
}

/// What a symbol contributes to the report: a success line with the
/// computed address, or a skip line with the failure reason, but only
/// for a recognized, filter-matching symbol whose type resolved.
pub open spec fn report_outcome(
    sym: SymbolV,
    dict: Map<u32, TypeNodeV>,
    pattern: Seq<char>,
) -> Seq<ReportLineV> {
    if is_known_space(sym.ref_id) && regex_match(pattern, normalized_name(sym.path))
        && resolve_spec(dict, sym.type_id).0 > 0 {
        match translate_spec(sym.ref_id, sym.offset) {
            Ok(a) => seq![
                (ReportLineV::Success {
                    family: family_of(sym.ref_id),
                    address: a,
                    name: normalized_name(sym.path),
                }),
            ],
            Err(e) => seq![
                (ReportLineV::Skip {
                    offset: sym.offset,
                    name: normalized_name(sym.path),
                    reason: e,
                }),
            ],
        }
    } else {
        Seq::empty()
    }
}

/// The Holdings-family output set: each symbol's contribution, in the
/// input traversal order.
pub open spec fn merge_holdings_spec(
    syms: Seq<SymbolV>,
    dict: Map<u32, TypeNodeV>,
    pattern: Seq<char>,
    old: Seq<CSVEntryHoldingsV>,
) -> Seq<CSVEntryHoldingsV>
    decreases syms.len(),
{
    if syms.len() == 0 {
        Seq::empty()
    } else {
        merge_holdings_spec(syms.drop_last(), dict, pattern, old) + holdings_outcome(
            syms.last(),
            dict,
            pattern,
            old,
        )
    }
}

/// The Inputs-family output set, in the input traversal order.
pub open spec fn merge_inputs_spec(
    syms: Seq<SymbolV>,
    dict: Map<u32, TypeNodeV>,
    pattern: Seq<char>,
    old: Seq<CSVEntryInputsV>,
) -> Seq<CSVEntryInputsV>
    decreases syms.len(),
{
    if syms.len() == 0 {
        Seq::empty()
    } else {
        merge_inputs_spec(syms.drop_last(), dict, pattern, old) + inputs_outcome(
            syms.last(),
            dict,
            pattern,
            old,
        )
    }
}

/// The report lines, in the input traversal order.
pub open spec fn merge_report_spec(
    syms: Seq<SymbolV>,
    dict: Map<u32, TypeNodeV>,
    pattern: Seq<char>,
) -> Seq<ReportLineV>
    decreases syms.len(),
{
    if syms.len() == 0 {
        Seq::empty()
    } else {
        merge_report_spec(syms.drop_last(), dict, pattern) + report_outcome(
            syms.last(),
            dict,
            pattern,
        )
    }
}

/// Law: a record that `find_holdings` returns carries the very name it
/// was looked up by.
pub proof fn lemma_find_holdings_name(recs: Seq<CSVEntryHoldingsV>, name: Seq<char>)
    ensures
        find_holdings(recs, name) matches Some(r) ==> r.name == name,
    decreases recs.len(),
{
    if recs.len() > 0 && recs[0].name != name {
        lemma_find_holdings_name(recs.skip(1), name);
    }
}

/// Law: a record that `find_inputs` returns carries the very name it
/// was looked up by.
pub proof fn lemma_find_inputs_name(recs: Seq<CSVEntryInputsV>, name: Seq<char>)
    ensures
        find_inputs(recs, name) matches Some(r) ==> r.name == name,
    decreases recs.len(),
{
    if recs.len() > 0 && recs[0].name != name {
        lemma_find_inputs_name(recs.skip(1), name);
    }
}

/// Finds the first Holdings-family record with the given name.
pub fn find_holdings_entry<'a>(recs: &'a Vec<CSVEntryHoldings>, name: &str) -> (r: Option<
    &'a CSVEntryHoldings,
>)
    ensures
        (match r {
            Some(e) => find_holdings(seq_views(recs@), name@) == Some(e@),
            None => find_holdings(seq_views(recs@), name@) is None,
        }),
{
    let ghost rv = seq_views(recs@);
    proof {
        assert(rv.skip(0) =~= rv);
    }
    let mut i: usize = 0;
    while i < recs.len()
        invariant
            i <= recs.len(),
            rv == seq_views(recs@),
            find_holdings(rv, name@) == find_holdings(rv.skip(i as int), name@),
        decreases recs.len() - i,
    {
        proof {
            assert(rv.skip(i as int)[0] == rv[i as int]);
        }
        if str_eq(recs[i].name.as_str(), name) {
            return Some(&recs[i]);
        }
        proof {
            assert(rv.skip(i as int).skip(1) =~= rv.skip(i as int + 1));
        }
        i = i + 1;
    }
    proof {
        assert(rv.skip(recs@.len() as int) =~= Seq::<CSVEntryHoldingsV>::empty());
    }
    None
}

/// Finds the first Inputs-family record with the given name.
pub fn find_inputs_entry<'a>(recs: &'a Vec<CSVEntryInputs>, name: &str) -> (r: Option<
    &'a CSVEntryInputs,
>)
    ensures
        (match r {
            Some(e) => find_inputs(seq_views(recs@), name@) == Some(e@),
            None => find_inputs(seq_views(recs@), name@) is None,
        }),
{
    let ghost rv = seq_views(recs@);
    proof {
        assert(rv.skip(0) =~= rv);
    }
    let mut i: usize = 0;
    while i < recs.len()
        invariant
            i <= recs.len(),
            rv == seq_views(recs@),
            find_inputs(rv, name@) == find_inputs(rv.skip(i as int), name@),
        decreases recs.len() - i,
    {
        proof {
            assert(rv.skip(i as int)[0] == rv[i as int]);
        }
        if str_eq(recs[i].name.as_str(), name) {
            return Some(&recs[i]);
        }
        proof {
            assert(rv.skip(i as int).skip(1) =~= rv.skip(i as int + 1));
        }
        i = i + 1;
    }
    proof {
        assert(rv.skip(recs@.len() as int) =~= Seq::<CSVEntryInputsV>::empty());
    }
    None
}

/// Law: when a curated Holdings-family record carries the symbol's
/// normalized name and the offset translates, the emitted record keeps
/// every curated field and takes only the freshly computed address,
/// register length and wire tag.
pub proof fn lemma_curated_fields_preserved_holdings(
    sym: SymbolV,
    dict: Map<u32, TypeNodeV>,
    old: Seq<CSVEntryHoldingsV>,
    cur: CSVEntryHoldingsV,
)
    requires
        find_holdings(old, normalized_name(sym.path)) == Some(cur),
        translate_spec(sym.ref_id, sym.offset) is Ok,
    ensures
        holdings_record_for(sym, dict, old) == (CSVEntryHoldingsV {
            address: translate_spec(sym.ref_id, sym.offset)->Ok_0,
            length: resolve_spec(dict, sym.type_id).0,
            type_: resolve_spec(dict, sym.type_id).1,
            ..cur
        }),
{
}

/// Law: when a curated Inputs-family record carries the symbol's
/// normalized name and the offset translates, the emitted record keeps
/// every curated field and takes only the freshly computed address,
/// register length and wire tag.
pub proof fn lemma_curated_fields_preserved_inputs(
    sym: SymbolV,
    dict: Map<u32, TypeNodeV>,
    old: Seq<CSVEntryInputsV>,
    cur: CSVEntryInputsV,
)
    requires
        find_inputs(old, normalized_name(sym.path)) == Some(cur),
        translate_spec(sym.ref_id, sym.offset) is Ok,
    ensures
        inputs_record_for(sym, dict, old) == (CSVEntryInputsV {
            address: translate_spec(sym.ref_id, sym.offset)->Ok_0,
            length: resolve_spec(dict, sym.type_id).0,
            type_: resolve_spec(dict, sym.type_id).1,
            ..cur
        }),
{
}

/// Law: a symbol whose type resolves to length 0 contributes no record
/// to either output set, whatever its address translates to.
pub proof fn lemma_zero_length_dropped(
    sym: SymbolV,
    dict: Map<u32, TypeNodeV>,
    pattern: Seq<char>,
    oldh: Seq<CSVEntryHoldingsV>,
    oldi: Seq<CSVEntryInputsV>,
)
    requires
        resolve_spec(dict, sym.type_id).0 == 0,
    ensures
        holdings_outcome(sym, dict, pattern, oldh) == Seq::<CSVEntryHoldingsV>::empty(),
        inputs_outcome(sym, dict, pattern, oldi) == Seq::<CSVEntryInputsV>::empty(),
{
}

/// Law: every record of either output set has a positive register
/// length: symbols with unresolvable types never appear in the output.
pub proof fn lemma_outputs_resolve_positive(
    syms: Seq<SymbolV>,
    dict: Map<u32, TypeNodeV>,
    pattern: Seq<char>,
    oldh: Seq<CSVEntryHoldingsV>,
    oldi: Seq<CSVEntryInputsV>,
)
    ensures
        forall|i: int|
            0 <= i < merge_holdings_spec(syms, dict, pattern, oldh).len()
                ==> #[trigger] merge_holdings_spec(syms, dict, pattern, oldh)[i].length > 0,
        forall|i: int|
            0 <= i < merge_inputs_spec(syms, dict, pattern, oldi).len()
                ==> #[trigger] merge_inputs_spec(syms, dict, pattern, oldi)[i].length > 0,
    decreases syms.len(),
{
    if syms.len() > 0 {
        lemma_outputs_resolve_positive(syms.drop_last(), dict, pattern, oldh, oldi);
        let ah = merge_holdings_spec(syms.drop_last(), dict, pattern, oldh);
        let bh = holdings_outcome(syms.last(), dict, pattern, oldh);
        assert forall|i: int| 0 <= i < (ah + bh).len() implies (ah + bh)[i].length > 0 by {
            if i < ah.len() {
                assert((ah + bh)[i] == ah[i]);
            } else {
                assert((ah + bh)[i] == bh[i - ah.len()]);
            }
        }
        let ai = merge_inputs_spec(syms.drop_last(), dict, pattern, oldi);
        let bi = inputs_outcome(syms.last(), dict, pattern, oldi);
        assert forall|i: int| 0 <= i < (ai + bi).len() implies (ai + bi)[i].length > 0 by {
            if i < ai.len() {
                assert((ai + bi)[i] == ai[i]);
            } else {
                assert((ai + bi)[i] == bi[i - ai.len()]);
            }
        }
    }
}

/// Law: the output order matches the input traversal order: what the
/// first `j` symbols contribute to the Holdings-family set stands
/// unchanged as a prefix of the final set.
pub proof fn lemma_merge_holdings_prefix(
    syms: Seq<SymbolV>,
    dict: Map<u32, TypeNodeV>,
    pattern: Seq<char>,
    old: Seq<CSVEntryHoldingsV>,
    j: int,
)
    requires
        0 <= j <= syms.len(),
    ensures
        merge_holdings_spec(syms.take(j), dict, pattern, old).len() <= merge_holdings_spec(
            syms,
            dict,
            pattern,
            old,
        ).len(),
        merge_holdings_spec(syms.take(j), dict, pattern, old) == merge_holdings_spec(
            syms,
            dict,
            pattern,
            old,
        ).take(merge_holdings_spec(syms.take(j), dict, pattern, old).len() as int),
    decreases syms.len(),
{
    let full = merge_holdings_spec(syms, dict, pattern, old);
    if j == syms.len() {
        assert(syms.take(j) =~= syms);
        assert(full =~= full.take(full.len() as int));
    } else {
        lemma_merge_holdings_prefix(syms.drop_last(), dict, pattern, old, j);
        assert(syms.drop_last().take(j) =~= syms.take(j));
        let pre = merge_holdings_spec(syms.take(j), dict, pattern, old);
        let a = merge_holdings_spec(syms.drop_last(), dict, pattern, old);
        let b = holdings_outcome(syms.last(), dict, pattern, old);
        assert(full == a + b);
        assert((a + b).take(pre.len() as int) =~= a.take(pre.len() as int));
    }
}

/// Law: the output order matches the input traversal order: what the
/// first `j` symbols contribute to the Inputs-family set stands
/// unchanged as a prefix of the final set.
pub proof fn lemma_merge_inputs_prefix(
    syms: Seq<SymbolV>,
    dict: Map<u32, TypeNodeV>,
    pattern: Seq<char>,
    old: Seq<CSVEntryInputsV>,
    j: int,
)
    requires
        0 <= j <= syms.len(),
    ensures
        merge_inputs_spec(syms.take(j), dict, pattern, old).len() <= merge_inputs_spec(
            syms,
            dict,
            pattern,
            old,
        ).len(),
        merge_inputs_spec(syms.take(j), dict, pattern, old) == merge_inputs_spec(
            syms,
            dict,
            pattern,
            old,
        ).take(merge_inputs_spec(syms.take(j), dict, pattern, old).len() as int),
    decreases syms.len(),
{
    let full = merge_inputs_spec(syms, dict, pattern, old);
    if j == syms.len() {
        assert(syms.take(j) =~= syms);
        assert(full =~= full.take(full.len() as int));
    } else {
        lemma_merge_inputs_prefix(syms.drop_last(), dict, pattern, old, j);
        assert(syms.drop_last().take(j) =~= syms.take(j));
        let pre = merge_inputs_spec(syms.take(j), dict, pattern, old);
        let a = merge_inputs_spec(syms.drop_last(), dict, pattern, old);
        let b = inputs_outcome(syms.last(), dict, pattern, old);
        assert(full == a + b);
        assert((a + b).take(pre.len() as int) =~= a.take(pre.len() as int));
    }
}

/// True when no two records of the set share a name.
pub open spec fn distinct_names_holdings(recs: Seq<CSVEntryHoldingsV>) -> bool {
    forall|i: int, j: int|
        0 <= i < j < recs.len() ==> #[trigger] recs[i].name != #[trigger] recs[j].name
}

/// True when no two records of the set share a name.
pub open spec fn distinct_names_inputs(recs: Seq<CSVEntryInputsV>) -> bool {
    forall|i: int, j: int|
        0 <= i < j < recs.len() ==> #[trigger] recs[i].name != #[trigger] recs[j].name
}

/// Law: in a set without repeated names, looking a record's own name
/// up finds exactly that record.
pub proof fn lemma_find_distinct_holdings(recs: Seq<CSVEntryHoldingsV>, k: int)
    requires
        distinct_names_holdings(recs),
        0 <= k < recs.len(),
    ensures
        find_holdings(recs, recs[k].name) == Some(recs[k]),
    decreases recs.len(),
{
    if k > 0 {
        assert(recs[0].name != recs[k].name);
        assert(distinct_names_holdings(recs.skip(1)));
        lemma_find_distinct_holdings(recs.skip(1), k - 1);
        assert(recs.skip(1)[k - 1] == recs[k]);
    }
}

/// Law: in a set without repeated names, looking a record's own name
/// up finds exactly that record.
pub proof fn lemma_find_distinct_inputs(recs: Seq<CSVEntryInputsV>, k: int)
    requires
        distinct_names_inputs(recs),
        0 <= k < recs.len(),
    ensures
        find_inputs(recs, recs[k].name) == Some(recs[k]),
    decreases recs.len(),
{
    if k > 0 {
        assert(recs[0].name != recs[k].name);
        assert(distinct_names_inputs(recs.skip(1)));
        lemma_find_distinct_inputs(recs.skip(1), k - 1);
        assert(recs.skip(1)[k - 1] == recs[k]);
    }
}

proof fn lemma_emitted_record_in_output_holdings(
    syms: Seq<SymbolV>,
    dict: Map<u32, TypeNodeV>,
    pattern: Seq<char>,
    old: Seq<CSVEntryHoldingsV>,
    j: int,
)
    requires
        0 <= j < syms.len(),
        holdings_outcome(syms[j], dict, pattern, old).len() == 1,
    ensures
        exists|k: int|
            0 <= k < merge_holdings_spec(syms, dict, pattern, old).len()
                && #[trigger] merge_holdings_spec(syms, dict, pattern, old)[k]
                == holdings_record_for(syms[j], dict, old),
{
    let full = merge_holdings_spec(syms, dict, pattern, old);
    let pre = merge_holdings_spec(syms.take(j), dict, pattern, old);
    let step = merge_holdings_spec(syms.take(j + 1), dict, pattern, old);
    assert(syms.take(j + 1).drop_last() =~= syms.take(j));
    assert(syms.take(j + 1).last() == syms[j]);
    assert(step == pre + holdings_outcome(syms[j], dict, pattern, old));
    assert(step[pre.len() as int] == holdings_record_for(syms[j], dict, old));
    lemma_merge_holdings_prefix(syms, dict, pattern, old, j + 1);
    assert(full.take(step.len() as int)[pre.len() as int] == full[pre.len() as int]);
    assert(full[pre.len() as int] == holdings_record_for(syms[j], dict, old));
}

proof fn lemma_emitted_record_in_output_inputs(
    syms: Seq<SymbolV>,
    dict: Map<u32, TypeNodeV>,
    pattern: Seq<char>,
    old: Seq<CSVEntryInputsV>,
    j: int,
)
    requires
        0 <= j < syms.len(),
        inputs_outcome(syms[j], dict, pattern, old).len() == 1,
    ensures
        exists|k: int|
            0 <= k < merge_inputs_spec(syms, dict, pattern, old).len()
                && #[trigger] merge_inputs_spec(syms, dict, pattern, old)[k]
                == inputs_record_for(syms[j], dict, old),
{
    let full = merge_inputs_spec(syms, dict, pattern, old);
    let pre = merge_inputs_spec(syms.take(j), dict, pattern, old);
    let step = merge_inputs_spec(syms.take(j + 1), dict, pattern, old);
    assert(syms.take(j + 1).drop_last() =~= syms.take(j));
    assert(syms.take(j + 1).last() == syms[j]);
    assert(step == pre + inputs_outcome(syms[j], dict, pattern, old));
    assert(step[pre.len() as int] == inputs_record_for(syms[j], dict, old));
    lemma_merge_inputs_prefix(syms, dict, pattern, old, j + 1);
    assert(full.take(step.len() as int)[pre.len() as int] == full[pre.len() as int]);
    assert(full[pre.len() as int] == inputs_record_for(syms[j], dict, old));
}

proof fn lemma_second_run_take_holdings(
    syms: Seq<SymbolV>,
    dict: Map<u32, TypeNodeV>,
    pattern: Seq<char>,
    oldh: Seq<CSVEntryHoldingsV>,
    j: int,
)
    requires
        0 <= j <= syms.len(),
        distinct_names_holdings(merge_holdings_spec(syms, dict, pattern, oldh)),
    ensures
        merge_holdings_spec(
            syms.take(j),
            dict,
            pattern,
            merge_holdings_spec(syms, dict, pattern, oldh),
        ) == merge_holdings_spec(syms.take(j), dict, pattern, oldh),
    decreases j,
{
    let out = merge_holdings_spec(syms, dict, pattern, oldh);
    if j == 0 {
        assert(syms.take(0) =~= Seq::<SymbolV>::empty());
    } else {
        lemma_second_run_take_holdings(syms, dict, pattern, oldh, j - 1);
        assert(syms.take(j).drop_last() =~= syms.take(j - 1));
        assert(syms.take(j).last() == syms[j - 1]);
        let sym = syms[j - 1];
        let n = normalized_name(sym.path);
        if is_holdings_family(sym.ref_id) && regex_match(pattern, n) && resolve_spec(
            dict,
            sym.type_id,
        ).0 > 0 && translate_spec(sym.ref_id, sym.offset) is Ok {
            let r1 = holdings_record_for(sym, dict, oldh);
            lemma_find_holdings_name(oldh, n);
            assert(r1.name == n);
            lemma_emitted_record_in_output_holdings(syms, dict, pattern, oldh, j - 1);
            let k = choose|k: int| 0 <= k < out.len() && #[trigger] out[k] == r1;
            lemma_find_distinct_holdings(out, k);
            assert(find_holdings(out, n) == Some(r1));
            assert(holdings_record_for(sym, dict, out) == r1);
        }
    }
}

proof fn lemma_second_run_take_inputs(
    syms: Seq<SymbolV>,
    dict: Map<u32, TypeNodeV>,
    pattern: Seq<char>,
    oldi: Seq<CSVEntryInputsV>,
    j: int,
)
    requires
        0 <= j <= syms.len(),
        distinct_names_inputs(merge_inputs_spec(syms, dict, pattern, oldi)),
    ensures
        merge_inputs_spec(
            syms.take(j),
            dict,
            pattern,
            merge_inputs_spec(syms, dict, pattern, oldi),
        ) == merge_inputs_spec(syms.take(j), dict, pattern, oldi),
    decreases j,
{
    let out = merge_inputs_spec(syms, dict, pattern, oldi);
    if j == 0 {
        assert(syms.take(0) =~= Seq::<SymbolV>::empty());
    } else {
        lemma_second_run_take_inputs(syms, dict, pattern, oldi, j - 1);
        assert(syms.take(j).drop_last() =~= syms.take(j - 1));
        assert(syms.take(j).last() == syms[j - 1]);
        let sym = syms[j - 1];
        let n = normalized_name(sym.path);
        if sym.ref_id == INPUTS_REF_ID && regex_match(pattern, n) && resolve_spec(
            dict,
            sym.type_id,
        ).0 > 0 && translate_spec(sym.ref_id, sym.offset) is Ok {
            let r1 = inputs_record_for(sym, dict, oldi);
            lemma_find_inputs_name(oldi, n);
            assert(r1.name == n);
            lemma_emitted_record_in_output_inputs(syms, dict, pattern, oldi, j - 1);
            let k = choose|k: int| 0 <= k < out.len() && #[trigger] out[k] == r1;
            lemma_find_distinct_inputs(out, k);
            assert(find_inputs(out, n) == Some(r1));
            assert(inputs_record_for(sym, dict, out) == r1);
        }
    }
}

/// Law: the merge is idempotent on the Holdings-family set. When the
/// records a run produces carry pairwise-distinct names, a second run
/// over the same document, fed that output as its curated set,
/// reproduces it unchanged.
pub proof fn lemma_merge_idempotent_holdings(
    syms: Seq<SymbolV>,
    dict: Map<u32, TypeNodeV>,
    pattern: Seq<char>,
    oldh: Seq<CSVEntryHoldingsV>,
)
    requires
        distinct_names_holdings(merge_holdings_spec(syms, dict, pattern, oldh)),
    ensures
        merge_holdings_spec(syms, dict, pattern, merge_holdings_spec(syms, dict, pattern, oldh))
            == merge_holdings_spec(syms, dict, pattern, oldh),
{
    lemma_second_run_take_holdings(syms, dict, pattern, oldh, syms.len() as int);
    assert(syms.take(syms.len() as int) =~= syms);
}

/// Law: the merge is idempotent on the Inputs-family set. When the
/// records a run produces carry pairwise-distinct names, a second run
/// over the same document, fed that output as its curated set,
/// reproduces it unchanged.
pub proof fn lemma_merge_idempotent_inputs(
    syms: Seq<SymbolV>,
    dict: Map<u32, TypeNodeV>,
    pattern: Seq<char>,
    oldi: Seq<CSVEntryInputsV>,
)
    requires
        distinct_names_inputs(merge_inputs_spec(syms, dict, pattern, oldi)),
    ensures
        merge_inputs_spec(syms, dict, pattern, merge_inputs_spec(syms, dict, pattern, oldi))
            == merge_inputs_spec(syms, dict, pattern, oldi),
{
    lemma_second_run_take_inputs(syms, dict, pattern, oldi, syms.len() as int);
    assert(syms.take(syms.len() as int) =~= syms);
}

/// Everything one merge pass produces.
pub struct MergeResult {
    pub holdings: Vec<CSVEntryHoldings>,
    pub inputs: Vec<CSVEntryInputs>,
    pub report: Vec<ReportLine>,
}

/// Walks the symbol list once and produces the two new record sets and
/// the report, exactly as the per-symbol outcome model prescribes and
/// in the input traversal order.
pub fn merge_symbols(
    symbols: &Vec<Symbol>,
    types_map: &HashMap<u32, TypeNode>,
    filter: &NameFilter,
    csv_holdings: &Vec<CSVEntryHoldings>,
    csv_inputs: &Vec<CSVEntryInputs>,
) -> (r: MergeResult)
    ensures
        seq_views(r.holdings@) == merge_holdings_spec(
            seq_views(symbols@),
            dict_view(types_map@),
            filter.pattern_view(),
            seq_views(csv_holdings@),
        ),
        seq_views(r.inputs@) == merge_inputs_spec(
            seq_views(symbols@),
            dict_view(types_map@),
            filter.pattern_view(),
            seq_views(csv_inputs@),
        ),
        seq_views(r.report@) == merge_report_spec(
            seq_views(symbols@),
            dict_view(types_map@),
            filter.pattern_view(),
        ),
{
    let ghost symv = seq_views(symbols@);
    let ghost dictv = dict_view(types_map@);
    let ghost pat = filter.pattern_view();
    let ghost oldh = seq_views(csv_holdings@);
    let ghost oldi = seq_views(csv_inputs@);
    let mut out_h: Vec<CSVEntryHoldings> = Vec::new();
    let mut out_i: Vec<CSVEntryInputs> = Vec::new();
    let mut rep: Vec<ReportLine> = Vec::new();
    proof {
        assert(seq_views(out_h@) =~= merge_holdings_spec(symv.take(0), dictv, pat, oldh));
        assert(seq_views(out_i@) =~= merge_inputs_spec(symv.take(0), dictv, pat, oldi));
        assert(seq_views(rep@) =~= merge_report_spec(symv.take(0), dictv, pat));
    }
    let mut k: usize = 0;
    while k < symbols.len()
        invariant
            k <= symbols.len(),
            symv == seq_views(symbols@),
            dictv == dict_view(types_map@),
            pat == filter.pattern_view(),
            oldh == seq_views(csv_holdings@),
            oldi == seq_views(csv_inputs@),
            seq_views(out_h@) == merge_holdings_spec(symv.take(k as int), dictv, pat, oldh),
            seq_views(out_i@) == merge_inputs_spec(symv.take(k as int), dictv, pat, oldi),
            seq_views(rep@) == merge_report_spec(symv.take(k as int), dictv, pat),
        decreases symbols.len() - k,
    {
        let sym = &symbols[k];
        let ghost sv = symv[k as int];
        proof {
            assert(symv.take(k as int + 1).drop_last() =~= symv.take(k as int));
            assert(symv.take(k as int + 1).last() == sv);
            assert(sv == symbols@[k as int]@);
        }
        let ghost prev_h = seq_views(out_h@);
        let ghost prev_i = seq_views(out_i@);
        let ghost prev_r = seq_views(rep@);
        if sym.ref_id == MARKER_REF_ID || sym.ref_id == HOLDINGS_REF_ID || sym.ref_id
            == INPUTS_REF_ID {
            let normalized = normalize(sym.path.as_str());
            let name = normalized.0;
            let desc = normalized.1;
            if filter.is_match(name.as_str()) {
                let translated = offset_to_address(sym.ref_id, sym.offset);
                let resolved = get_modbus_length_type(sym.type_id, types_map);
                let length = resolved.0;
                let type_str = resolved.1;
                if sym.ref_id == INPUTS_REF_ID {
                    let mut entry: CSVEntryInputs = match find_inputs_entry(
                        csv_inputs,
                        name.as_str(),
                    ) {
                        Some(e) => e.duplicate(),
                        None => {
                            let mut d = CSVEntryInputs::default();
                            d.name = name.clone();
                            d.description = desc;
                            d
                        },
                    };
                    proof {
                        lemma_find_inputs_name(oldi, normalized_name(sv.path));
                        assert(entry@ == inputs_base(
                            oldi,
                            normalized_name(sv.path),
                            description_seed(sv.path),
                        ));
                        assert(entry@.name == normalized_name(sv.path));
                    }
                    match translated {
                        Ok(a) => {
                            entry.address = a;
                        },
                        Err(_) => {},
                    }
                    entry.length = length;
                    entry.type_ = type_str;
                    proof {
                        assert(entry@ == inputs_record_for(sv, dictv, oldi));
                    }
                    if length > 0 {
                        match translated {
                            Ok(_) => {
                                rep.push(
                                    ReportLine::Success {
                                        family: Family::Inputs,
                                        address: entry.address,
                                        name: entry.name.clone(),
                                    },
                                );
                                out_i.push(entry);
                            },
                            Err(why) => {
                                rep.push(
                                    ReportLine::Skip {
                                        offset: sym.offset,
                                        name: entry.name.clone(),
                                        reason: why,
                                    },
                                );
                            },
                        }
                    }
                } else {
                    let mut entry: CSVEntryHoldings = match find_holdings_entry(
                        csv_holdings,
                        name.as_str(),
                    ) {
                        Some(e) => e.duplicate(),
                        None => {
                            let mut d = CSVEntryHoldings::default();
                            d.name = name.clone();
                            d.description = desc;
                            d
                        },
                    };
                    proof {
                        lemma_find_holdings_name(oldh, normalized_name(sv.path));
                        assert(entry@ == holdings_base(
                            oldh,
                            normalized_name(sv.path),
                            description_seed(sv.path),
                        ));
                        assert(entry@.name == normalized_name(sv.path));
                    }
                    match translated {
                        Ok(a) => {
                            entry.address = a;
                        },
                        Err(_) => {},
                    }
                    entry.length = length;
                    entry.type_ = type_str;
                    proof {
                        assert(entry@ == holdings_record_for(sv, dictv, oldh));
                    }
                    if length > 0 {
                        match translated {
                            Ok(_) => {
                                rep.push(
                                    ReportLine::Success {
                                        family: Family::Holdings,
                                        address: entry.address,
                                        name: entry.name.clone(),
                                    },
                                );
                                out_h.push(entry);
                            },
                            Err(why) => {
                                rep.push(
                                    ReportLine::Skip {
                                        offset: sym.offset,
                                        name: entry.name.clone(),
                                        reason: why,
                                    },
                                );
                            },
                        }
                    }
                }
            }
        }
        proof {
            assert(seq_views(out_h@) =~= prev_h + holdings_outcome(sv, dictv, pat, oldh));
            assert(seq_views(out_i@) =~= prev_i + inputs_outcome(sv, dictv, pat, oldi));
            assert(seq_views(rep@) =~= prev_r + report_outcome(sv, dictv, pat));
        }
        k = k + 1;
    }
    proof {
        assert(symv.take(symbols@.len() as int) =~= symv);
    }
    MergeResult { holdings: out_h, inputs: out_i, report: rep }
}

} // verus!
