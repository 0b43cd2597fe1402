//! The archive plan of one full run: one stand-alone report per customer,
//! plus one detail document per qualified section, each under its fixed
//! entry path.  The plan drives the unverified writer that renders each
//! document and appends it to the archive.

use vstd::prelude::*;

use crate::book::PromoBook;
use crate::model::Customer;
use crate::model::PromoSection;
use crate::textfmt::dec_str_nat;
use crate::textfmt::usize_to_string;

verus! {

/// Which document one archive entry holds.
#[derive(Clone, Copy, PartialEq, Eq, Structural)]
pub enum DocKind {
    CustomerReport { customer_index: usize },
    SectionDetail { customer_index: usize, section_index: usize },
}

/// One planned archive entry: its path inside the archive and which
/// document belongs there.
pub struct ArchiveEntryPlan {
    pub path: String,
    pub doc: DocKind,
}

/// The mathematical value of one planned archive entry.
#[verifier::ext_equal]
pub struct ArchiveEntryV {
    pub path: Seq<char>,
    pub doc: DocKind,
}

impl View for ArchiveEntryPlan {
    type V = ArchiveEntryV;

    open spec fn view(&self) -> ArchiveEntryV {
        ArchiveEntryV { path: self.path@, doc: self.doc }
    }
}

/// The entry values of a plan, in order.
pub open spec fn entry_views(s: Seq<ArchiveEntryPlan>) -> Seq<ArchiveEntryV> {
    Seq::new(s.len(), |i: int| s[i]@)
}

/// Appending one entry appends its value.
pub proof fn lemma_entry_views_push(s: Seq<ArchiveEntryPlan>, e: ArchiveEntryPlan)
    ensures
        entry_views(s.push(e)) == entry_views(s).push(e@),
{
    assert(entry_views(s.push(e)) =~= entry_views(s).push(e@));
}

/// The archive path of a customer's stand-alone report.
pub open spec fn report_path(name: Seq<char>) -> Seq<char> {
    "Missing_Reports/"@ + name + " Missing Report.pdf"@
}

/// The archive path of one qualified section's detail document
/// (`section_index` is the section's zero-based position).
pub open spec fn detail_path(name: Seq<char>, section_index: int) -> Seq<char> {
    name + "/Promo#"@ + dec_str_nat(section_index) + ".pdf"@
}

/// How many of the first `k` sections have qualified at least once.
pub open spec fn qualified_count(secs: Seq<PromoSection>, k: int) -> int
    decreases k,
{
    if k <= 0 {
        0int
    } else {
        qualified_count(secs, k - 1) + if secs[k - 1].times_section_qualified > 0 {
            1int
        } else {
            0int
        }
    }
}

/// The archive entry count owed for the first `k` customers: one report
/// per customer plus one detail document per qualified section.
pub open spec fn entry_count(cs: Seq<Customer>, k: int) -> int
    decreases k,
{
    if k <= 0 {
        0int
    } else {
        entry_count(cs, k - 1) + 1 + qualified_count(
            cs[k - 1].promotion.promo_sections@,
            cs[k - 1].promotion.promo_sections@.len() as int,
        )
    }
}

/// The detail entries of one customer's first `k` sections: one entry per
/// qualified section, under that customer's name and the section's
/// zero-based position.
pub open spec fn section_entries(c: Customer, ci: int, k: int) -> Seq<ArchiveEntryV>
    decreases k,
{
    if k <= 0 {
        Seq::empty()
    } else {
        section_entries(c, ci, k - 1) + (if c.promotion.promo_sections@[k
            - 1].times_section_qualified > 0 {
            seq![
                ArchiveEntryV {
                    path: detail_path(c.name@, k - 1),
                    doc: DocKind::SectionDetail {
                        customer_index: ci as usize,
                        section_index: (k - 1) as usize,
                    },
                },
            ]
        } else {
            Seq::empty()
        })
    }
}

/// The whole plan for the first `k` customers: per customer one report
/// entry, then that customer's detail entries, in book order.
pub open spec fn plan_spec(cs: Seq<Customer>, k: int) -> Seq<ArchiveEntryV>
    decreases k,
{
    if k <= 0 {
        Seq::empty()
    } else {
        plan_spec(cs, k - 1) + seq![
            ArchiveEntryV {
                path: report_path(cs[k - 1].name@),
                doc: DocKind::CustomerReport { customer_index: (k - 1) as usize },
            },
        ] + section_entries(cs[k - 1], k - 1, cs[k - 1].promotion.promo_sections@.len() as int)
    }
}

/// Plans the whole archive: per customer (in book order) one report entry
/// under `Missing_Reports/<name> Missing Report.pdf`, then per qualified
/// section one detail entry under `<name>/Promo#<index>.pdf`.  The plan
/// holds exactly one entry per customer plus one per qualified section,
/// each with its path and document pinned.
pub fn plan_archive(book: &PromoBook) -> (r: Vec<ArchiveEntryPlan>)
    ensures
        entry_views(r@) == plan_spec(book.customers@, book.customers@.len() as int),
        r@.len() == entry_count(book.customers@, book.customers@.len() as int),
{
    let ghost cs = book.customers@;
    let mut plan: Vec<ArchiveEntryPlan> = Vec::new();
    let mut c: usize = 0;
    while c < book.customers.len()
        invariant
            c <= cs.len(),
            cs == book.customers@,
            plan@.len() == entry_count(cs, c as int),
            entry_views(plan@) == plan_spec(cs, c as int),
        decreases cs.len() - c,
    {
        let cust = &book.customers[c];
        let mut path = String::from_str("Missing_Reports/");
        path.append(cust.name.as_str());
        path.append(" Missing Report.pdf");
        proof {
            assert(path@ == report_path(cust.name@));
        }
        let ghost report_v = ArchiveEntryV {
            path: report_path(cust.name@),
            doc: DocKind::CustomerReport { customer_index: c },
        };
        let entry = ArchiveEntryPlan { path, doc: DocKind::CustomerReport { customer_index: c } };
        let ghost entry_g = entry;
        let ghost before = plan@;
        plan.push(entry);
        proof {
            lemma_entry_views_push(before, entry_g);
            assert(entry_g@ == report_v);
            assert(entry_views(plan@) =~= plan_spec(cs, c as int) + seq![report_v]
                + section_entries(*cust, c as int, 0));
        }
        let secs = &cust.promotion.promo_sections;
        let mut s: usize = 0;
        while s < secs.len()
            invariant
                s <= secs@.len(),
                *secs == cust.promotion.promo_sections,
                *cust == cs[c as int],
                c < cs.len(),
                cs == book.customers@,
                report_v == (ArchiveEntryV {
                    path: report_path(cust.name@),
                    doc: DocKind::CustomerReport { customer_index: c },
                }),
                plan@.len() == entry_count(cs, c as int) + 1 + qualified_count(secs@, s as int),
                entry_views(plan@) == plan_spec(cs, c as int) + seq![report_v] + section_entries(
                    *cust,
                    c as int,
                    s as int,
                ),
            decreases secs@.len() - s,
        {
            if secs[s].times_section_qualified > 0 {
                let mut dpath = String::from_str("");
                dpath.append(cust.name.as_str());
                dpath.append("/Promo#");
                dpath.append(usize_to_string(s).as_str());
                dpath.append(".pdf");
                proof {
                    reveal_strlit("");
                    assert(Seq::<char>::empty() + cust.name@ =~= cust.name@);
                    assert(dpath@ == detail_path(cust.name@, s as int));
                }
                let detail = ArchiveEntryPlan {
                    path: dpath,
                    doc: DocKind::SectionDetail { customer_index: c, section_index: s },
                };
                let ghost detail_g = detail;
                let ghost before_d = plan@;
                plan.push(detail);
                proof {
                    lemma_entry_views_push(before_d, detail_g);
                    assert(detail_g@ == ArchiveEntryV {
                        path: detail_path(cust.name@, s as int),
                        doc: DocKind::SectionDetail { customer_index: c, section_index: s },
                    });
                    assert(entry_views(plan@) =~= plan_spec(cs, c as int) + seq![report_v]
                        + section_entries(*cust, c as int, s as int + 1));
                }
            } else {
                proof {
                    assert(entry_views(plan@) =~= plan_spec(cs, c as int) + seq![report_v]
                        + section_entries(*cust, c as int, s as int + 1));
                }
            }
            s += 1;
        }
        proof {
            assert(entry_views(plan@) =~= plan_spec(cs, c as int + 1));
        }
        c += 1;
    }
    plan
}

} // verus!
