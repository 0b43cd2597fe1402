//! The requirement tree: for one section, the derived "what is still
//! missing" structure, one entry per still-unmet part, each carrying the
//! shortfall and the satisfying SKU set of every still-unmet requirement
//! line, in source order.

use vstd::prelude::*;

use crate::gap::get_amount_missing_for_next_promo;
use crate::gap::shortfall;
use crate::model::clone_string_vec;
use crate::model::Part;
use crate::model::PromoSection;

verus! {

use crate::model::AndOrType;

/// One shortfall line: how many more units are owed, and a copy of the
/// interchangeable SKU identifiers any of which satisfies the line.
pub struct MissingPartNumber {
    pub missing_part_numbers: Vec<String>,
    pub amount_needed: i64,
}

/// The tree entry for one still-unmet part: its join type tagged onto the
/// ordered shortfall lines of its still-unmet requirement lines.
pub struct NeededSections {
    pub missing_part_numbers: Vec<(AndOrType, Vec<MissingPartNumber>)>,
}

/// The shortfall line `mpn` reports exactly the `j`-th still-unmet
/// requirement line of `part`: its shortfall amount and its SKU set.
pub open spec fn missing_line_matches(part: Part, mpn: MissingPartNumber, j: int) -> bool {
    let tp = part.type_prod@[part.type_prods_for_next_promo_needed@[j] as int];
    &&& mpn.amount_needed == shortfall(tp.qty_needed as int, tp.total_qty as int)
    &&& mpn.missing_part_numbers@ == tp.part_numbers@
}

/// The tree entry `ns` reports exactly the `k`-th still-unmet part of `sec`:
/// one tagged list, tagged with that part's join type, one shortfall line
/// per still-unmet requirement line, in source order.
pub open spec fn section_entry_matches(sec: PromoSection, ns: NeededSections, k: int) -> bool {
    let part = sec.part@[sec.promo_parts_still_needed@[k] as int];
    &&& ns.missing_part_numbers@.len() == 1
    &&& ns.missing_part_numbers@[0].0 == part.part_type
    &&& ns.missing_part_numbers@[0].1@.len() == part.type_prods_for_next_promo_needed@.len()
    &&& forall|j: int|
        0 <= j < part.type_prods_for_next_promo_needed@.len() ==> missing_line_matches(
            part,
            #[trigger] ns.missing_part_numbers@[0].1@[j],
            j,
        )
}

/// Builds the requirement tree for one section: one entry per still-unmet
/// part, in the part's original relative order, each entry pairing the
/// part's join type with the shortfall lines of its still-unmet requirement
/// lines, also in original order.  Nothing is sorted, filtered or
/// deduplicated beyond what the still-unmet index lists already encode.
pub fn generate_missing_report_for_section(promo_section: &PromoSection) -> (rv: Vec<
    NeededSections,
>)
    requires
        promo_section.wf(),
    ensures
        rv@.len() == promo_section.promo_parts_still_needed@.len(),
        forall|k: int|
            0 <= k < rv@.len() ==> section_entry_matches(*promo_section, #[trigger] rv@[k], k),
{
    let mut rv: Vec<NeededSections> = Vec::new();
    let mut k: usize = 0;
    while k < promo_section.promo_parts_still_needed.len()
        invariant
            promo_section.wf(),
            k <= promo_section.promo_parts_still_needed@.len(),
            rv@.len() == k,
            forall|kk: int|
                0 <= kk < k ==> section_entry_matches(*promo_section, #[trigger] rv@[kk], kk),
        decreases promo_section.promo_parts_still_needed@.len() - k,
    {
        let part_index: usize = promo_section.promo_parts_still_needed[k];
        let part = &promo_section.part[part_index];
        let mut missing_pn: Vec<MissingPartNumber> = Vec::new();
        let mut j: usize = 0;
        while j < part.type_prods_for_next_promo_needed.len()
            invariant
                part.wf(),
                j <= part.type_prods_for_next_promo_needed@.len(),
                missing_pn@.len() == j,
                forall|jj: int|
                    0 <= jj < j ==> missing_line_matches(*part, #[trigger] missing_pn@[jj], jj),
            decreases part.type_prods_for_next_promo_needed@.len() - j,
        {
            let tp_index: usize = part.type_prods_for_next_promo_needed[j];
            let tp = &part.type_prod[tp_index];
            let rem = get_amount_missing_for_next_promo(tp.qty_needed, tp.total_qty);
            let missing = MissingPartNumber {
                missing_part_numbers: clone_string_vec(&tp.part_numbers),
                amount_needed: rem,
            };
            missing_pn.push(missing);
            j += 1;
        }
        let mut sec = NeededSections { missing_part_numbers: Vec::new() };
        sec.missing_part_numbers.push((part.part_type, missing_pn));
        rv.push(sec);
        k += 1;
    }
    rv
}

} // verus!
