//! The customer-facing plain-text report: for every customer, per section,
//! how often the section qualified and exactly which purchases are still
//! missing, rendered to a single string whose contents are pinned character
//! by character.

use vstd::prelude::*;

use crate::book::PromoBook;
use crate::gap::shortfall;
use crate::model::AndOrType;
use crate::model::Customer;
use crate::model::Part;
use crate::model::PromoSection;
use crate::textfmt::csv_of;
use crate::textfmt::dec_str_int;
use crate::textfmt::dec_str_nat;
use crate::textfmt::display_vec_of_strings_as_csv;
use crate::textfmt::i64_to_string;
use crate::textfmt::usize_to_string;
use crate::textfmt::views_of;
use crate::tree::generate_missing_report_for_section;
use crate::tree::missing_line_matches;
use crate::tree::section_entry_matches;
use crate::tree::MissingPartNumber;
use crate::tree::NeededSections;

verus! {

/// The connective after one shortfall line: inline " Or " between `Or`-joined
/// siblings, otherwise a line break.
pub open spec fn sep_text(join: AndOrType, idx: int, n: int) -> Seq<char> {
    if idx < n - 1 && join == AndOrType::Or {
        " Or "@
    } else {
        "\r\n"@
    }
}

/// One rendered shortfall line of the tree text.
pub open spec fn item_line_text(join: AndOrType, mpn: MissingPartNumber, idx: int, n: int) -> Seq<
    char,
> {
    dec_str_int(mpn.amount_needed as int) + " of a ( "@ + csv_of(
        views_of(mpn.missing_part_numbers@),
    ) + " )"@ + sep_text(join, idx, n)
}

/// The first `k` shortfall lines of one tagged list.
pub open spec fn items_text(join: AndOrType, items: Seq<MissingPartNumber>, k: int) -> Seq<char>
    decreases k,
{
    if k <= 0 {
        Seq::empty()
    } else {
        items_text(join, items, k - 1) + item_line_text(join, items[k - 1], k - 1, items.len() as int)
    }
}

/// The first `k` tagged lists of one tree entry.
pub open spec fn groups_text(groups: Seq<(AndOrType, Vec<MissingPartNumber>)>, k: int) -> Seq<char>
    decreases k,
{
    if k <= 0 {
        Seq::empty()
    } else {
        groups_text(groups, k - 1) + items_text(
            groups[k - 1].0,
            groups[k - 1].1@,
            groups[k - 1].1@.len() as int,
        )
    }
}

/// The first `k` entries of a rendered requirement tree.
pub open spec fn entries_text(secs: Seq<NeededSections>, k: int) -> Seq<char>
    decreases k,
{
    if k <= 0 {
        Seq::empty()
    } else {
        entries_text(secs, k - 1) + groups_text(
            secs[k - 1].missing_part_numbers@,
            secs[k - 1].missing_part_numbers@.len() as int,
        )
    }
}

/// The whole text of a rendered requirement tree.
pub open spec fn missing_report_text(secs: Seq<NeededSections>) -> Seq<char> {
    entries_text(secs, secs.len() as int)
}

/// One shortfall line, stated directly over the promotion model: the
/// shortfall of the `j`-th still-unmet requirement line of `part` and its
/// SKU set.
pub open spec fn line_text_of_part(part: Part, j: int, n: int) -> Seq<char> {
    let tp = part.type_prod@[part.type_prods_for_next_promo_needed@[j] as int];
    dec_str_int(shortfall(tp.qty_needed as int, tp.total_qty as int)) + " of a ( "@ + csv_of(
        views_of(tp.part_numbers@),
    ) + " )"@ + sep_text(part.part_type, j, n)
}

/// The first `k` shortfall lines of one part, stated over the model.
pub open spec fn part_lines_text(part: Part, k: int) -> Seq<char>
    decreases k,
{
    if k <= 0 {
        Seq::empty()
    } else {
        part_lines_text(part, k - 1) + line_text_of_part(
            part,
            k - 1,
            part.type_prods_for_next_promo_needed@.len() as int,
        )
    }
}

/// The first `k` still-unmet parts of one section, stated over the model.
pub open spec fn section_parts_text(sec: PromoSection, k: int) -> Seq<char>
    decreases k,
{
    if k <= 0 {
        Seq::empty()
    } else {
        let part = sec.part@[sec.promo_parts_still_needed@[k - 1] as int];
        section_parts_text(sec, k - 1) + part_lines_text(
            part,
            part.type_prods_for_next_promo_needed@.len() as int,
        )
    }
}

/// The tree text of one whole section, stated over the model.
pub open spec fn section_tree_text(sec: PromoSection) -> Seq<char> {
    section_parts_text(sec, sec.promo_parts_still_needed@.len() as int)
}

/// A requirement tree built faithfully from a section renders to exactly
/// the text that the model prescribes for that section.
pub proof fn lemma_tree_text_matches(sec: PromoSection, rv: Seq<NeededSections>)
    requires
        rv.len() == sec.promo_parts_still_needed@.len(),
        forall|k: int| 0 <= k < rv.len() ==> section_entry_matches(sec, #[trigger] rv[k], k),
    ensures
        missing_report_text(rv) == section_tree_text(sec),
{
    lemma_entries_text_matches(sec, rv, rv.len() as int);
}

proof fn lemma_entries_text_matches(sec: PromoSection, rv: Seq<NeededSections>, k: int)
    requires
        0 <= k <= rv.len(),
        rv.len() == sec.promo_parts_still_needed@.len(),
        forall|kk: int| 0 <= kk < rv.len() ==> section_entry_matches(sec, #[trigger] rv[kk], kk),
    ensures
        entries_text(rv, k) == section_parts_text(sec, k),
    decreases k,
{
    if k > 0 {
        lemma_entries_text_matches(sec, rv, k - 1);
        let ns = rv[k - 1];
        let part = sec.part@[sec.promo_parts_still_needed@[k - 1] as int];
        assert(section_entry_matches(sec, ns, k - 1));
        let groups = ns.missing_part_numbers@;
        assert(groups.len() == 1);
        assert(groups_text(groups, 1) == groups_text(groups, 0) + items_text(
            groups[0].0,
            groups[0].1@,
            groups[0].1@.len() as int,
        ));
        assert(Seq::empty() + items_text(groups[0].0, groups[0].1@, groups[0].1@.len() as int)
            =~= items_text(groups[0].0, groups[0].1@, groups[0].1@.len() as int));
        lemma_items_text_matches(part, groups[0].0, groups[0].1@, groups[0].1@.len() as int);
    }
}

proof fn lemma_items_text_matches(part: Part, join: AndOrType, items: Seq<MissingPartNumber>, k: int)
    requires
        0 <= k <= items.len(),
        join == part.part_type,
        items.len() == part.type_prods_for_next_promo_needed@.len(),
        forall|j: int|
            0 <= j < items.len() ==> missing_line_matches(part, #[trigger] items[j], j),
    ensures
        items_text(join, items, k) == part_lines_text(part, k),
    decreases k,
{
    if k > 0 {
        lemma_items_text_matches(part, join, items, k - 1);
        assert(missing_line_matches(part, items[k - 1], k - 1));
        assert(item_line_text(join, items[k - 1], k - 1, items.len() as int) == line_text_of_part(
            part,
            k - 1,
            items.len() as int,
        ));
    }
}

/// Renders a requirement tree as text: per entry, per tagged list, every
/// shortfall line as "<amount> of a ( <SKUs> )", `Or`-joined siblings
/// connected inline by " Or ", every other line ended by a line break.
pub fn write_missing_report(missing_report: &Vec<NeededSections>) -> (r: String)
    ensures
        r@ == missing_report_text(missing_report@),
{
    let mut out = String::new();
    let mut s: usize = 0;
    while s < missing_report.len()
        invariant
            s <= missing_report@.len(),
            out@ == entries_text(missing_report@, s as int),
        decreases missing_report@.len() - s,
    {
        let ghost entry_base = out@;
        let sec = &missing_report[s];
        let mut g: usize = 0;
        while g < sec.missing_part_numbers.len()
            invariant
                g <= sec.missing_part_numbers@.len(),
                *sec == missing_report@[s as int],
                s < missing_report@.len(),
                out@ == entry_base + groups_text(sec.missing_part_numbers@, g as int),
                entry_base == entries_text(missing_report@, s as int),
            decreases sec.missing_part_numbers@.len() - g,
        {
            let ghost group_base = out@;
            let join = sec.missing_part_numbers[g].0;
            let items = &sec.missing_part_numbers[g].1;
            let mut i: usize = 0;
            while i < items.len()
                invariant
                    i <= items@.len(),
                    join == sec.missing_part_numbers@[g as int].0,
                    *items == sec.missing_part_numbers@[g as int].1,
                    g < sec.missing_part_numbers@.len(),
                    out@ == group_base + items_text(join, items@, i as int),
                    group_base == entry_base + groups_text(sec.missing_part_numbers@, g as int),
                decreases items@.len() - i,
            {
                let amount = i64_to_string(items[i].amount_needed);
                out.append(amount.as_str());
                out.append(" of a ( ");
                let csv = display_vec_of_strings_as_csv(&items[i].missing_part_numbers);
                out.append(csv.as_str());
                out.append(" )");
                if i < items.len() - 1 {
                    match join {
                        AndOrType::Or => out.append(" Or "),
                        _ => out.append("\r\n"),
                    }
                } else {
                    out.append("\r\n");
                }
                proof {
                    assert(out@ =~= group_base + items_text(join, items@, i as int + 1));
                }
                i += 1;
            }
            proof {
                assert(out@ =~= entry_base + groups_text(
                    sec.missing_part_numbers@,
                    g as int + 1,
                ));
            }
            g += 1;
        }
        proof {
            assert(out@ =~= entries_text(missing_report@, s as int + 1));
        }
        s += 1;
    }
    out
}

/// The conditional label line of one section.
pub open spec fn label_text(times_qualified: int) -> Seq<char> {
    if times_qualified == 0 {
        "To get the promo you need to purchase:\r\n"@
    } else {
        "To get another you need to purchase:\r\n"@
    }
}

/// The full text block of one section (`sec_id` is its zero-based position).
pub open spec fn section_text(sec: PromoSection, sec_id: int) -> Seq<char> {
    "Qualified "@ + dec_str_int(sec.times_section_qualified as int) + " times for Promo "@
        + dec_str_nat(sec_id + 1) + "\r\n"@ + label_text(sec.times_section_qualified as int)
        + section_tree_text(sec)
}

/// The first `k` section blocks of one customer.
pub open spec fn sections_text(secs: Seq<PromoSection>, k: int) -> Seq<char>
    decreases k,
{
    if k <= 0 {
        Seq::empty()
    } else {
        sections_text(secs, k - 1) + section_text(secs[k - 1], k - 1)
    }
}

/// The full text block of one customer: the heading, every section block,
/// and a trailing blank line.
pub open spec fn customer_text(c: Customer) -> Seq<char> {
    "For Customer: "@ + c.name@ + "\r\n"@ + sections_text(
        c.promotion.promo_sections@,
        c.promotion.promo_sections@.len() as int,
    ) + "\r\n"@
}

/// The first `k` customer blocks of the whole report.
pub open spec fn customers_text(cs: Seq<Customer>, k: int) -> Seq<char>
    decreases k,
{
    if k <= 0 {
        Seq::empty()
    } else {
        customers_text(cs, k - 1) + customer_text(cs[k - 1])
    }
}

/// Renders the whole plain-text report: one block per customer, customers
/// in the book's strict ascending name order.
#[verifier::rlimit(60)]
pub fn display_missing_report(book: &PromoBook) -> (r: String)
    requires
        book.wf(),
    ensures
        r@ == customers_text(book.customers@, book.customers@.len() as int),
{
    let mut out = String::new();
    let mut c: usize = 0;
    while c < book.customers.len()
        invariant
            book.wf(),
            c <= book.customers@.len(),
            out@ == customers_text(book.customers@, c as int),
        decreases book.customers@.len() - c,
    {
        let ghost cust_base = out@;
        let cust = &book.customers[c];
        out.append("For Customer: ");
        out.append(cust.name.as_str());
        out.append("\r\n");
        let ghost head = out@;
        let secs = &cust.promotion.promo_sections;
        let mut s: usize = 0;
        while s < secs.len()
            invariant
                s <= secs@.len(),
                *secs == book.customers@[c as int].promotion.promo_sections,
                c < book.customers@.len(),
                book.wf(),
                out@ == head + sections_text(secs@, s as int),
                head == cust_base + "For Customer: "@ + book.customers@[c as int].name@ + "\r\n"@,
                cust_base == customers_text(book.customers@, c as int),
            decreases secs@.len() - s,
        {
            let ghost sec_base = out@;
            let sec = &secs[s];
            proof {
                assert(book.customers@[c as int].promotion.wf());
                assert(sec.wf());
            }
            out.append("Qualified ");
            let times = i64_to_string(sec.times_section_qualified);
            out.append(times.as_str());
            out.append(" times for Promo ");
            let promo_no = usize_to_string(s + 1);
            out.append(promo_no.as_str());
            out.append("\r\n");
            if sec.times_section_qualified == 0 {
                out.append("To get the promo you need to purchase:\r\n");
            } else {
                out.append("To get another you need to purchase:\r\n");
            }
            let tree = generate_missing_report_for_section(sec);
            let tree_text = write_missing_report(&tree);
            out.append(tree_text.as_str());
            proof {
                lemma_tree_text_matches(*sec, tree@);
                assert(out@ =~= sec_base + section_text(secs@[s as int], s as int));
                assert(out@ =~= head + sections_text(secs@, s as int + 1));
            }
            s += 1;
        }
        out.append("\r\n");
        proof {
            assert(out@ =~= cust_base + customer_text(book.customers@[c as int]));
            assert(out@ =~= customers_text(book.customers@, c as int + 1));
        }
        c += 1;
    }
    out
}

} // verus!
