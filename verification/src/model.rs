//! The promotion data model: one customer's full tiered-purchase program
//! state, as plain values.  The data-source collaborator (outside this
//! library) parses raw exports into these types; the library only reads them.

use vstd::prelude::*;

verus! {

/// Join semantics among sibling requirement lines of one `Part`.
///
/// `Or` joins rendered sibling lines inline with an "or" connective; `And`
/// and `NoJoin` put each sibling on its own line under the join-type's own
/// label ("And", "None"); `Any` also puts each sibling on its own line but
/// always displays the connective text "Or", its payload notwithstanding
/// (deliberate source behavior, kept as such).
#[derive(Clone, Copy, Debug, PartialEq, Eq, Structural)]
pub enum AndOrType {
    And,
    Or,
    Any(i64),
    NoJoin,
}

/// One matched transaction record, used only for detail listings and never
/// for gap arithmetic.  The quantity and sale price stay as the raw text the
/// export carried; the detail compositor parses the quantity itself.
pub struct TransactionRow {
    pub ship_date: String,
    pub customer_name: String,
    pub order_number: String,
    pub qty: String,
    pub part_number: String,
    pub description: String,
    pub sale_price: String,
}

/// One requirement line: a per-qualification threshold, the quantity already
/// credited, the set of interchangeable SKU identifiers that satisfy the
/// line, and the matched transaction records behind the credit.
pub struct TypeProd {
    pub qty_needed: i64,
    pub total_qty: i64,
    pub part_numbers: Vec<String>,
    pub found_numbers: Vec<TransactionRow>,
}

impl TypeProd {
    pub open spec fn wf(&self) -> bool {
        &&& self.qty_needed > 0
        &&& self.total_qty >= 0
    }
}

/// A requirement group: a join operator over its `TypeProd` children, and
/// the indices of the children still unmet toward the next qualification.
pub struct Part {
    pub part_type: AndOrType,
    pub type_prod: Vec<TypeProd>,
    pub type_prods_for_next_promo_needed: Vec<usize>,
}

impl Part {
    pub open spec fn wf(&self) -> bool {
        &&& forall|j: int|
            0 <= j < self.type_prods_for_next_promo_needed@.len()
                ==> (#[trigger] self.type_prods_for_next_promo_needed@[j])
                < self.type_prod@.len()
        &&& forall|i: int|
            0 <= i < self.type_prod@.len() ==> (#[trigger] self.type_prod@[i]).wf()
    }
}

/// One qualification tier: its rules, how often it has been fully qualified
/// so far, and the indices of the parts still unmet toward the next
/// qualification.
pub struct PromoSection {
    pub times_section_qualified: i64,
    pub part: Vec<Part>,
    pub promo_parts_still_needed: Vec<usize>,
}

impl PromoSection {
    pub open spec fn wf(&self) -> bool {
        &&& self.times_section_qualified >= 0
        &&& forall|k: int|
            0 <= k < self.promo_parts_still_needed@.len()
                ==> (#[trigger] self.promo_parts_still_needed@[k]) < self.part@.len()
        &&& forall|i: int| 0 <= i < self.part@.len() ==> (#[trigger] self.part@[i]).wf()
    }
}

/// One customer's full promotion state: an ordered sequence of sections.
pub struct Promotion {
    pub promo_sections: Vec<PromoSection>,
}

impl Promotion {
    pub open spec fn wf(&self) -> bool {
        forall|i: int|
            0 <= i < self.promo_sections@.len() ==> (#[trigger] self.promo_sections@[i]).wf()
    }
}

/// A customer name paired with that customer's promotion state.
pub struct Customer {
    pub name: String,
    pub promotion: Promotion,
}

/// Copies a vector of strings element by element.
pub fn clone_string_vec(v: &Vec<String>) -> (r: Vec<String>)
    ensures
        r@ == v@,
{
    let mut r: Vec<String> = Vec::new();
    let mut i: usize = 0;
    while i < v.len()
        invariant
            i <= v@.len(),
            r@ == v@.subrange(0, i as int),
        decreases v@.len() - i,
    {
        r.push(v[i].clone());
        proof {
            assert(v@.subrange(0, i as int).push(v@[i as int]) =~= v@.subrange(
                0,
                i as int + 1,
            ));
        }
        i += 1;
    }
    proof {
        assert(v@.subrange(0, v@.len() as int) =~= v@);
    }
    r
}

} // verus!
