//! The report compositor: translates the promotion book (qualification
//! counters and requirement trees) into the deterministic sequence of
//! abstract layout operations of one document, batched per page by the
//! interpreter.  Both render modes share one body: the batch document
//! forces a fresh page before every customer after the first, the
//! single-customer document never does.

use vstd::prelude::*;

use crate::book::PromoBook;
use crate::gap::shortfall;
use crate::model::AndOrType;
use crate::model::Customer;
use crate::model::Part;
use crate::model::PromoSection;
use crate::ops::op_views;
use crate::ops::report_page_setup;
use crate::ops::Align;
use crate::ops::BorderSpec;
use crate::ops::CellKind;
use crate::ops::DocPlan;
use crate::ops::Op;
use crate::ops::OpV;
use crate::ops::Row;
use crate::ops::RowKind;
use crate::ops::RowV;
use crate::ops::TableOp;
use crate::ops::TableOpV;
use crate::ops::TextOp;
use crate::ops::TextOpV;
use crate::textfmt::dec_str_int;
use crate::textfmt::dec_str_nat;
use crate::textfmt::i64_to_string;
use crate::textfmt::usize_to_string;
use crate::textfmt::views_of;
use crate::tree::generate_missing_report_for_section;
use crate::tree::missing_line_matches;
use crate::tree::section_entry_matches;
use crate::tree::MissingPartNumber;
use crate::tree::NeededSections;

verus! {

use crate::ops::lemma_op_views_push;
use crate::ops::report_page;
use crate::ops::row_views;

/// Appends one operation to the plan under construction.
fn push_op(out: &mut Vec<Op>, op: Op)
    ensures
        op_views(final(out)@) == op_views(old(out)@).push(op@),
{
    let ghost opg = op;
    let ghost before = out@;
    out.push(op);
    proof {
        lemma_op_views_push(before, opg);
    }
}

/// Appends one text operation built from the given parameters.
fn push_text(
    out: &mut Vec<Op>,
    col_start: usize,
    col_end: usize,
    new_page_first: bool,
    height_cin: usize,
    font_pt: usize,
    align: Align,
    text: String,
    group: Option<usize>,
)
    ensures
        op_views(final(out)@) == op_views(old(out)@).push(
            OpV::Text(
                TextOpV {
                    col_start,
                    col_end,
                    new_page_first,
                    height_cin,
                    font_pt,
                    align,
                    text: text@,
                    group,
                },
            ),
        ),
{
    push_op(
        out,
        Op::Text(
            TextOp { col_start, col_end, new_page_first, height_cin, font_pt, align, text, group },
        ),
    );
}

/// The connective label rendered for a join type; `Any` always shows "Or",
/// its payload notwithstanding.
pub open spec fn join_label(join: AndOrType) -> Seq<char> {
    match join {
        AndOrType::And => "And"@,
        AndOrType::Or => "Or"@,
        AndOrType::Any(_) => "Or"@,
        AndOrType::NoJoin => "None"@,
    }
}

/// The highlighted first shortfall line of one part's table.
pub open spec fn purchase_row(amount: int) -> RowV {
    RowV { cells: seq!["Purchase "@ + dec_str_int(amount) + " more"@], kind: RowKind::Highlight }
}

/// A highlighted follow-up shortfall line, prefixed by the join connective.
pub open spec fn joined_row(join: AndOrType, amount: int) -> RowV {
    RowV {
        cells: seq![join_label(join) + " purchase "@ + dec_str_int(amount) + " more"@],
        kind: RowKind::Highlight,
    }
}

/// The SKU identifiers of one shortfall line, wrapped into plain rows of at
/// most five entries each.
pub open spec fn chunk_rows(skus: Seq<Seq<char>>) -> Seq<RowV>
    decreases skus.len(),
{
    if skus.len() == 0 {
        Seq::empty()
    } else if skus.len() <= 5 {
        seq![RowV { cells: skus, kind: RowKind::Plain }]
    } else {
        seq![RowV { cells: skus.take(5), kind: RowKind::Plain }] + chunk_rows(skus.skip(5))
    }
}

/// The table rows of the `idx`-th shortfall line of one part.
pub open spec fn rows_for_item(join: AndOrType, mpn: MissingPartNumber, idx: int) -> Seq<RowV> {
    (if idx == 0 {
        seq![purchase_row(mpn.amount_needed as int)]
    } else {
        seq![joined_row(join, mpn.amount_needed as int)]
    }) + chunk_rows(views_of(mpn.missing_part_numbers@))
}

/// The table rows of the first `k` shortfall lines of one part.
pub open spec fn rows_for_items(join: AndOrType, items: Seq<MissingPartNumber>, k: int) -> Seq<
    RowV,
>
    decreases k,
{
    if k <= 0 {
        Seq::empty()
    } else {
        rows_for_items(join, items, k - 1) + rows_for_item(join, items[k - 1], k - 1)
    }
}

/// The table rows of one whole requirement-tree entry.
pub open spec fn entry_rows(ns: NeededSections) -> Seq<RowV> {
    rows_for_items(
        ns.missing_part_numbers@[0].0,
        ns.missing_part_numbers@[0].1@,
        ns.missing_part_numbers@[0].1@.len() as int,
    )
}

/// The five equal column widths of a requirement-tree table.
pub open spec fn tree_col_widths() -> Seq<usize> {
    seq![10usize, 10usize, 10usize, 10usize, 10usize]
}

/// Centre-everything alignment for the six declared tree-table columns.
pub open spec fn tree_col_aligns() -> Seq<Align> {
    seq![
        Align::CenterCenter,
        Align::CenterCenter,
        Align::CenterCenter,
        Align::CenterCenter,
        Align::CenterCenter,
        Align::CenterCenter,
    ]
}

/// Plain-text typing for the six declared tree-table columns.
pub open spec fn tree_cell_kinds() -> Seq<CellKind> {
    seq![
        CellKind::Text,
        CellKind::Text,
        CellKind::Text,
        CellKind::Text,
        CellKind::Text,
        CellKind::Text,
    ]
}

/// The start of the sub-range that centres the 50-unit tree table within
/// the outer range, computed relative to the range's width.
pub open spec fn half_start(range_start: int, range_end: int) -> int {
    (range_end - range_start) / 2 - 25
}

/// The end of the centring sub-range.
pub open spec fn half_end(range_start: int, range_end: int) -> int {
    (range_end - range_start) / 2 + 25
}

/// The table operation of one requirement-tree entry.
pub open spec fn tree_table_op(ns: NeededSections, hs: usize, he: usize, group: Option<usize>) -> OpV {
    OpV::Table(
        TableOpV {
            col_start: hs,
            col_end: he,
            col_widths: tree_col_widths(),
            header: Option::None,
            rows: entry_rows(ns),
            item_font_pt: 12,
            header_font_pt: 12,
            border: BorderSpec::All { line_tenths: 20, pad_tenths: 30 },
            black_border: false,
            header_border: true,
            cell_kinds: tree_cell_kinds(),
            col_aligns: tree_col_aligns(),
            group,
        },
    )
}

/// The "And" connective line placed between tree entries.
pub open spec fn and_line_op(hs: usize, he: usize, group: Option<usize>) -> OpV {
    OpV::Text(
        TextOpV {
            col_start: hs,
            col_end: he,
            new_page_first: false,
            height_cin: 30,
            font_pt: 12,
            align: Align::CenterCenter,
            text: "And"@,
            group,
        },
    )
}

/// The operations of the first `k` entries of a requirement tree: one table
/// per entry, an "And" line after every entry but the last.
pub open spec fn tree_ops(
    entries: Seq<NeededSections>,
    hs: usize,
    he: usize,
    group: Option<usize>,
    k: int,
) -> Seq<OpV>
    decreases k,
{
    if k <= 0 {
        Seq::empty()
    } else {
        tree_ops(entries, hs, he, group, k - 1) + seq![tree_table_op(entries[k - 1], hs, he, group)]
            + (if k - 1 < entries.len() - 1 {
            seq![and_line_op(hs, he, group)]
        } else {
            Seq::empty()
        })
    }
}

/// Emits the operations of a whole requirement tree, centred within the
/// given outer column range.
pub fn compose_needed_tree(
    range_start: usize,
    range_end: usize,
    missing_report: &Vec<NeededSections>,
    group: Option<usize>,
    out: &mut Vec<Op>,
)
    requires
        range_start <= range_end,
        range_end - range_start >= 50,
        range_end <= 100000,
        forall|k: int|
            0 <= k < missing_report@.len() ==> (#[trigger] missing_report@[k]).missing_part_numbers@.len()
                == 1,
    ensures
        op_views(final(out)@) == op_views(old(out)@) + tree_ops(
            missing_report@,
            half_start(range_start as int, range_end as int) as usize,
            half_end(range_start as int, range_end as int) as usize,
            group,
            missing_report@.len() as int,
        ),
{
    let width = range_end - range_start;
    let hs = width / 2 - 25;
    let he = width / 2 + 25;
    let ghost base = op_views(out@);
    let mut s: usize = 0;
    proof {
        assert(base + tree_ops(missing_report@, hs, he, group, 0) =~= base);
    }
    while s < missing_report.len()
        invariant
            s <= missing_report@.len(),
            hs == half_start(range_start as int, range_end as int),
            he == half_end(range_start as int, range_end as int),
            forall|k: int|
                0 <= k < missing_report@.len() ==> (
                #[trigger] missing_report@[k]).missing_part_numbers@.len() == 1,
            op_views(out@) == base + tree_ops(missing_report@, hs, he, group, s as int),
        decreases missing_report@.len() - s,
    {
        let ghost entry_base = op_views(out@);
        let sec = &missing_report[s];
        let join = sec.missing_part_numbers[0].0;
        let items = &sec.missing_part_numbers[0].1;
        let mut data: Vec<Row> = Vec::new();
        let mut i: usize = 0;
        while i < items.len()
            invariant
                i <= items@.len(),
                join == sec.missing_part_numbers@[0].0,
                *items == sec.missing_part_numbers@[0].1,
                row_views(data@) == rows_for_items(join, items@, i as int),
            decreases items@.len() - i,
        {
            let ghost item_base = row_views(data@);
            let amount = i64_to_string(items[i].amount_needed);
            let mut head_text = String::new();
            if i == 0 {
                head_text.append("Purchase ");
                head_text.append(amount.as_str());
                head_text.append(" more");
                proof {
                    assert(Seq::<char>::empty() + "Purchase "@ =~= "Purchase "@);
                }
            } else {
                let label: &str = match join {
                    AndOrType::And => "And",
                    AndOrType::Or => "Or",
                    AndOrType::Any(_) => "Or",
                    AndOrType::NoJoin => "None",
                };
                head_text.append(label);
                head_text.append(" purchase ");
                head_text.append(amount.as_str());
                head_text.append(" more");
                proof {
                    assert(Seq::<char>::empty() + join_label(join) =~= join_label(join));
                }
            }
            let head_row = Row { cells: vec![head_text], kind: RowKind::Highlight };
            proof {
                if i == 0 {
                    assert(head_row@ =~~= purchase_row(items@[i as int].amount_needed as int));
                } else {
                    assert(head_row@ =~~= joined_row(join, items@[i as int].amount_needed as int));
                }
            }
            let ghost head_v = head_row@;
            data.push(head_row);
            proof {
                assert(row_views(data@) =~= item_base.push(head_v));
            }
            // wrap the SKU identifiers into rows of at most five
            let skus = &items[i].missing_part_numbers;
            let ghost sv = views_of(skus@);
            let ghost chunk_base = row_views(data@);
            let mut p: usize = 0;
            proof {
                assert(sv.skip(0) =~= sv);
            }
            while p < skus.len()
                invariant
                    p <= skus@.len(),
                    sv == views_of(skus@),
                    *skus == items@[i as int].missing_part_numbers,
                    i < items@.len(),
                    row_views(data@) + chunk_rows(sv.skip(p as int)) == chunk_base + chunk_rows(sv),
                decreases skus@.len() - p,
            {
                let q = if skus.len() - p > 5 {
                    p + 5
                } else {
                    skus.len()
                };
                let mut cells: Vec<String> = Vec::new();
                let mut t: usize = p;
                while t < q
                    invariant
                        p <= t <= q,
                        q <= skus@.len(),
                        sv == views_of(skus@),
                        *skus == items@[i as int].missing_part_numbers,
                        views_of(cells@) == sv.subrange(p as int, t as int),
                    decreases q - t,
                {
                    let ghost old_cells = cells@;
                    cells.push(skus[t].clone());
                    proof {
                        assert(views_of(cells@) =~= views_of(old_cells).push(sv[t as int]));
                        assert(views_of(cells@) =~= sv.subrange(p as int, t as int + 1));
                    }
                    t += 1;
                }
                let ghost pre_chunk = row_views(data@);
                let row = Row { cells, kind: RowKind::Plain };
                let ghost row_v = row@;
                data.push(row);
                proof {
                    assert(row_views(data@) =~= pre_chunk.push(row_v));
                    let rem = sv.skip(p as int);
                    if rem.len() <= 5 {
                        assert(q == skus@.len());
                        assert(sv.subrange(p as int, q as int) =~= rem);
                        assert(row_v =~~= RowV { cells: rem, kind: RowKind::Plain });
                        assert(chunk_rows(rem) =~= seq![row_v]);
                        assert(row_views(data@) + chunk_rows(sv.skip(q as int)) =~= chunk_base
                            + chunk_rows(sv));
                    } else {
                        assert(q == p + 5);
                        assert(sv.subrange(p as int, q as int) =~= rem.take(5));
                        assert(row_v =~~= RowV { cells: rem.take(5), kind: RowKind::Plain });
                        assert(rem.skip(5) =~= sv.skip(q as int));
                        assert(chunk_rows(rem) =~= seq![row_v] + chunk_rows(sv.skip(q as int)));
                        assert(row_views(data@) + chunk_rows(sv.skip(q as int)) =~= chunk_base
                            + chunk_rows(sv));
                    }
                }
                p = q;
            }
            proof {
                assert(sv.skip(p as int).len() == 0);
                assert(chunk_rows(sv.skip(p as int)) =~= Seq::<RowV>::empty());
                assert(row_views(data@) =~= chunk_base + chunk_rows(sv));
                assert(row_views(data@) =~= rows_for_items(join, items@, i as int + 1));
            }
            i += 1;
        }
        let widths: Vec<usize> = vec![10, 10, 10, 10, 10];
        let kinds: Vec<CellKind> = vec![
            CellKind::Text,
            CellKind::Text,
            CellKind::Text,
            CellKind::Text,
            CellKind::Text,
            CellKind::Text,
        ];
        let aligns: Vec<Align> = vec![
            Align::CenterCenter,
            Align::CenterCenter,
            Align::CenterCenter,
            Align::CenterCenter,
            Align::CenterCenter,
            Align::CenterCenter,
        ];
        let table = Op::Table(
            TableOp {
                col_start: hs,
                col_end: he,
                col_widths: widths,
                header: Option::None,
                rows: data,
                item_font_pt: 12,
                header_font_pt: 12,
                border: BorderSpec::All { line_tenths: 20, pad_tenths: 30 },
                black_border: false,
                header_border: true,
                cell_kinds: kinds,
                col_aligns: aligns,
                group,
            },
        );
        proof {
            assert(table@ =~~= tree_table_op(missing_report@[s as int], hs, he, group));
        }
        let ghost table_v = table@;
        push_op(out, table);
        if s < missing_report.len() - 1 {
            push_text(
                out,
                hs,
                he,
                false,
                30,
                12,
                Align::CenterCenter,
                String::from_str("And"),
                group,
            );
        }
        proof {
            assert(op_views(out@) =~= base + tree_ops(
                missing_report@,
                hs,
                he,
                group,
                s as int + 1,
            ));
        }
        s += 1;
    }
}

/// The table rows of the `j`-th still-unmet line of `part`, stated directly
/// over the promotion model.
pub open spec fn model_rows_for_line(part: Part, j: int) -> Seq<RowV> {
    let tp = part.type_prod@[part.type_prods_for_next_promo_needed@[j] as int];
    let amount = shortfall(tp.qty_needed as int, tp.total_qty as int);
    (if j == 0 {
        seq![purchase_row(amount)]
    } else {
        seq![joined_row(part.part_type, amount)]
    }) + chunk_rows(views_of(tp.part_numbers@))
}

/// The table rows of the first `k` still-unmet lines of `part`.
pub open spec fn model_rows_for_part(part: Part, k: int) -> Seq<RowV>
    decreases k,
{
    if k <= 0 {
        Seq::empty()
    } else {
        model_rows_for_part(part, k - 1) + model_rows_for_line(part, k - 1)
    }
}

/// The table operation of the `k`-th still-unmet part of `sec`, stated over
/// the model.
pub open spec fn model_tree_entry_op(
    sec: PromoSection,
    k: int,
    hs: usize,
    he: usize,
    group: Option<usize>,
) -> OpV {
    let part = sec.part@[sec.promo_parts_still_needed@[k] as int];
    OpV::Table(
        TableOpV {
            col_start: hs,
            col_end: he,
            col_widths: tree_col_widths(),
            header: Option::None,
            rows: model_rows_for_part(part, part.type_prods_for_next_promo_needed@.len() as int),
            item_font_pt: 12,
            header_font_pt: 12,
            border: BorderSpec::All { line_tenths: 20, pad_tenths: 30 },
            black_border: false,
            header_border: true,
            cell_kinds: tree_cell_kinds(),
            col_aligns: tree_col_aligns(),
            group,
        },
    )
}

/// The operations of the first `k` tree entries of `sec`, stated over the
/// model.
pub open spec fn model_tree_ops(
    sec: PromoSection,
    hs: usize,
    he: usize,
    group: Option<usize>,
    k: int,
) -> Seq<OpV>
    decreases k,
{
    if k <= 0 {
        Seq::empty()
    } else {
        model_tree_ops(sec, hs, he, group, k - 1) + seq![model_tree_entry_op(sec, k - 1, hs, he, group)]
            + (if k - 1 < sec.promo_parts_still_needed@.len() - 1 {
            seq![and_line_op(hs, he, group)]
        } else {
            Seq::empty()
        })
    }
}

proof fn lemma_rows_match(part: Part, join: AndOrType, items: Seq<MissingPartNumber>, k: int)
    requires
        join == part.part_type,
        items.len() == part.type_prods_for_next_promo_needed@.len(),
        forall|j: int|
            0 <= j < items.len() ==> missing_line_matches(part, #[trigger] items[j], j),
        0 <= k <= items.len(),
    ensures
        rows_for_items(join, items, k) == model_rows_for_part(part, k),
    decreases k,
{
    if k > 0 {
        lemma_rows_match(part, join, items, k - 1);
        assert(missing_line_matches(part, items[k - 1], k - 1));
        assert(rows_for_item(join, items[k - 1], k - 1) == model_rows_for_line(part, k - 1));
    }
}

/// A requirement tree built faithfully from a section composes to exactly
/// the operations that the model prescribes for that section.
pub proof fn lemma_tree_ops_match(
    sec: PromoSection,
    entries: Seq<NeededSections>,
    hs: usize,
    he: usize,
    group: Option<usize>,
    k: int,
)
    requires
        entries.len() == sec.promo_parts_still_needed@.len(),
        forall|kk: int|
            0 <= kk < entries.len() ==> section_entry_matches(sec, #[trigger] entries[kk], kk),
        0 <= k <= entries.len(),
    ensures
        tree_ops(entries, hs, he, group, k) == model_tree_ops(sec, hs, he, group, k),
    decreases k,
{
    if k > 0 {
        lemma_tree_ops_match(sec, entries, hs, he, group, k - 1);
        assert(section_entry_matches(sec, entries[k - 1], k - 1));
        let part = sec.part@[sec.promo_parts_still_needed@[k - 1] as int];
        let groups = entries[k - 1].missing_part_numbers@;
        lemma_rows_match(part, groups[0].0, groups[0].1@, groups[0].1@.len() as int);
        assert(entry_rows(entries[k - 1]) == model_rows_for_part(
            part,
            part.type_prods_for_next_promo_needed@.len() as int,
        ));
        assert(tree_table_op(entries[k - 1], hs, he, group) =~~= model_tree_entry_op(
            sec,
            k - 1,
            hs,
            he,
            group,
        ));
    }
}

/// The customer heading line.
pub open spec fn heading_op(name: Seq<char>, new_page_first: bool) -> OpV {
    OpV::Text(
        TextOpV {
            col_start: 1,
            col_end: 99,
            new_page_first,
            height_cin: 25,
            font_pt: 16,
            align: Align::LeftBottom,
            text: "For Customer: "@ + name + "\r\n"@,
            group: Option::None,
        },
    )
}

/// The "Qualified N times for Promo M" line of one section.
pub open spec fn qualified_line_op(t: int, sec_id: int) -> OpV {
    OpV::Text(
        TextOpV {
            col_start: 1,
            col_end: 99,
            new_page_first: false,
            height_cin: 25,
            font_pt: 14,
            align: Align::LeftCenter,
            text: "Qualified "@ + dec_str_int(t) + " times for Promo "@ + dec_str_nat(sec_id + 1)
                + "\r\n"@,
            group: Option::None,
        },
    )
}

/// The empty line under the qualification counter.
pub open spec fn blank_line_op() -> OpV {
    OpV::Text(
        TextOpV {
            col_start: 1,
            col_end: 99,
            new_page_first: false,
            height_cin: 25,
            font_pt: 14,
            align: Align::LeftBottom,
            text: Seq::empty(),
            group: Option::None,
        },
    )
}

/// The conditional label: "To get the promo" for a never-yet-qualified
/// section, otherwise "To get another promo" (in a narrower range).
pub open spec fn label_op(t: int) -> OpV {
    if t == 0 {
        OpV::Text(
            TextOpV {
                col_start: 1,
                col_end: 99,
                new_page_first: false,
                height_cin: 25,
                font_pt: 12,
                align: Align::LeftCenter,
                text: "To get the promo"@,
                group: Option::None,
            },
        )
    } else {
        OpV::Text(
            TextOpV {
                col_start: 2,
                col_end: 80,
                new_page_first: false,
                height_cin: 25,
                font_pt: 12,
                align: Align::LeftCenter,
                text: "To get another promo"@,
                group: Option::None,
            },
        )
    }
}

/// The centred spacer after each section's tree.
pub open spec fn tree_spacer_op() -> OpV {
    OpV::Text(
        TextOpV {
            col_start: 8,
            col_end: 92,
            new_page_first: false,
            height_cin: 30,
            font_pt: 10,
            align: Align::CenterCenter,
            text: Seq::empty(),
            group: Option::None,
        },
    )
}

/// The centred spacer after each customer block of the batch document.
pub open spec fn customer_trailer_op() -> OpV {
    OpV::Text(
        TextOpV {
            col_start: 8,
            col_end: 92,
            new_page_first: false,
            height_cin: 25,
            font_pt: 10,
            align: Align::CenterCenter,
            text: Seq::empty(),
            group: Option::None,
        },
    )
}

/// The operations of one whole section: counter line, blank line, label,
/// the requirement tree centred within the full-width range, and a spacer.
pub open spec fn doc_section_ops(sec: PromoSection, sec_id: int, group: int) -> Seq<OpV> {
    seq![
        qualified_line_op(sec.times_section_qualified as int, sec_id),
        blank_line_op(),
        label_op(sec.times_section_qualified as int),
    ] + model_tree_ops(
        sec,
        half_start(1, 99) as usize,
        half_end(1, 99) as usize,
        Option::Some(group as usize),
        sec.promo_parts_still_needed@.len() as int,
    ) + seq![tree_spacer_op()]
}

/// The operations of the first `k` sections of one customer; the `i`-th
/// section is tagged with group `group0 + i`.
pub open spec fn doc_sections_ops(secs: Seq<PromoSection>, group0: int, k: int) -> Seq<OpV>
    decreases k,
{
    if k <= 0 {
        Seq::empty()
    } else {
        doc_sections_ops(secs, group0, k - 1) + doc_section_ops(secs[k - 1], k - 1, group0 + k - 1)
    }
}

/// The operations of one customer's whole report body.
pub open spec fn customer_ops(c: Customer, new_page_first: bool, group0: int) -> Seq<OpV> {
    seq![heading_op(c.name@, new_page_first)] + doc_sections_ops(
        c.promotion.promo_sections@,
        group0,
        c.promotion.promo_sections@.len() as int,
    )
}

/// How many sections the first `k` customers hold together: the group
/// counter a batch render has reached when it starts customer `k`.
pub open spec fn sections_count_before(cs: Seq<Customer>, k: int) -> int
    decreases k,
{
    if k <= 0 {
        0int
    } else {
        sections_count_before(cs, k - 1) + cs[k - 1].promotion.promo_sections@.len()
    }
}

/// The batch document's operations for the first `k` customers: every
/// customer after the first starts on a fresh page, and each customer block
/// ends with a trailing spacer.
pub open spec fn batch_ops_upto(cs: Seq<Customer>, k: int) -> Seq<OpV>
    decreases k,
{
    if k <= 0 {
        Seq::empty()
    } else {
        batch_ops_upto(cs, k - 1) + customer_ops(cs[k - 1], k - 1 > 0, sections_count_before(cs, k - 1))
            + seq![customer_trailer_op()]
    }
}

/// The whole batch document's operation sequence.
pub open spec fn batch_doc_ops(cs: Seq<Customer>) -> Seq<OpV> {
    batch_ops_upto(cs, cs.len() as int)
}

/// The whole single-customer document's operation sequence: the same body
/// as in the batch, with no forced leading page break and groups counted
/// from zero.
pub open spec fn customer_doc_ops(c: Customer) -> Seq<OpV> {
    customer_ops(c, false, 0)
}

/// The group counter never shrinks as more customers are counted.
pub proof fn lemma_sections_count_monotone(cs: Seq<Customer>, k1: int, k2: int)
    requires
        k1 <= k2,
    ensures
        sections_count_before(cs, k1) <= sections_count_before(cs, k2),
    decreases k2 - k1,
{
    if k1 < k2 {
        lemma_sections_count_monotone(cs, k1, k2 - 1);
    }
}

/// Emits one customer's whole report body: the heading (optionally on a
/// fresh page), then per section the counter line, the label, the
/// requirement tree tagged with the running group id, and a spacer.
pub fn compose_customer_body(cust: &Customer, new_page_first: bool, group0: usize, out: &mut Vec<Op>)
    requires
        cust.promotion.wf(),
        group0 + cust.promotion.promo_sections@.len() <= usize::MAX,
    ensures
        op_views(final(out)@) == op_views(old(out)@) + customer_ops(
            *cust,
            new_page_first,
            group0 as int,
        ),
{
    let ghost base = op_views(out@);
    let mut heading = String::from_str("For Customer: ");
    heading.append(cust.name.as_str());
    heading.append("\r\n");
    push_text(out, 1, 99, new_page_first, 25, 16, Align::LeftBottom, heading, Option::None);
    let ghost head = op_views(out@);
    proof {
        assert(head =~= base + seq![heading_op(cust.name@, new_page_first)]);
    }
    let secs = &cust.promotion.promo_sections;
    let mut s: usize = 0;
    proof {
        assert(head + doc_sections_ops(secs@, group0 as int, 0) =~= head);
    }
    while s < secs.len()
        invariant
            s <= secs@.len(),
            *secs == cust.promotion.promo_sections,
            cust.promotion.wf(),
            group0 + secs@.len() <= usize::MAX,
            op_views(out@) == head + doc_sections_ops(secs@, group0 as int, s as int),
            head == base + seq![heading_op(cust.name@, new_page_first)],
        decreases secs@.len() - s,
    {
        let sec = &secs[s];
        proof {
            assert(sec.wf());
        }
        let mut q = String::from_str("Qualified ");
        let times = i64_to_string(sec.times_section_qualified);
        q.append(times.as_str());
        q.append(" times for Promo ");
        let promo_no = usize_to_string(s + 1);
        q.append(promo_no.as_str());
        q.append("\r\n");
        push_text(out, 1, 99, false, 25, 14, Align::LeftCenter, q, Option::None);
        push_text(out, 1, 99, false, 25, 14, Align::LeftBottom, String::new(), Option::None);
        if sec.times_section_qualified == 0 {
            push_text(
                out,
                1,
                99,
                false,
                25,
                12,
                Align::LeftCenter,
                String::from_str("To get the promo"),
                Option::None,
            );
        } else {
            push_text(
                out,
                2,
                80,
                false,
                25,
                12,
                Align::LeftCenter,
                String::from_str("To get another promo"),
                Option::None,
            );
        }
        let tree = generate_missing_report_for_section(sec);
        proof {
            assert forall|k: int| 0 <= k < tree@.len() implies (
            #[trigger] tree@[k]).missing_part_numbers@.len() == 1 by {
                assert(section_entry_matches(*sec, tree@[k], k));
            }
        }
        compose_needed_tree(1, 99, &tree, Option::Some(group0 + s), out);
        push_text(out, 8, 92, false, 30, 10, Align::CenterCenter, String::new(), Option::None);
        proof {
            lemma_tree_ops_match(
                *sec,
                tree@,
                half_start(1, 99) as usize,
                half_end(1, 99) as usize,
                Option::Some((group0 + s) as usize),
                tree@.len() as int,
            );
            assert(op_views(out@) =~= head + doc_sections_ops(
                secs@,
                group0 as int,
                s as int + 1,
            ));
        }
        s += 1;
    }
}

/// Composes the batch document: every customer of the book, in the book's
/// strict ascending name order, each after the first on a fresh page, with
/// one group id per section running through the whole document.
pub fn compose_batch_report(book: &PromoBook) -> (r: DocPlan)
    requires
        book.wf(),
        sections_count_before(book.customers@, book.customers@.len() as int) <= usize::MAX,
    ensures
        r.page == report_page(),
        op_views(r.ops@) == batch_doc_ops(book.customers@),
{
    let ghost cs = book.customers@;
    let mut ops: Vec<Op> = Vec::new();
    let mut group: usize = 0;
    let mut c: usize = 0;
    proof {
        assert(op_views(ops@) =~= batch_ops_upto(cs, 0));
    }
    while c < book.customers.len()
        invariant
            c <= cs.len(),
            cs == book.customers@,
            book.wf(),
            sections_count_before(cs, cs.len() as int) <= usize::MAX,
            group == sections_count_before(cs, c as int),
            op_views(ops@) == batch_ops_upto(cs, c as int),
        decreases cs.len() - c,
    {
        let cust = &book.customers[c];
        proof {
            lemma_sections_count_monotone(cs, c as int + 1, cs.len() as int);
            assert(cust.promotion.wf());
        }
        compose_customer_body(cust, c > 0, group, &mut ops);
        push_text(&mut ops, 8, 92, false, 25, 10, Align::CenterCenter, String::new(), Option::None);
        proof {
            assert(op_views(ops@) =~= batch_ops_upto(cs, c as int + 1));
        }
        group = group + cust.promotion.promo_sections.len();
        c += 1;
    }
    DocPlan { page: report_page_setup(), ops }
}

/// Composes one customer's stand-alone document: the identical body, no
/// forced leading page break, groups counted from zero.
pub fn compose_customer_report(cust: &Customer) -> (r: DocPlan)
    requires
        cust.promotion.wf(),
    ensures
        r.page == report_page(),
        op_views(r.ops@) == customer_doc_ops(*cust),
{
    let mut ops: Vec<Op> = Vec::new();
    proof {
        vstd::std_specs::vec::axiom_spec_len(&cust.promotion.promo_sections);
    }
    compose_customer_body(cust, false, 0, &mut ops);
    proof {
        assert(op_views(ops@) =~= customer_doc_ops(*cust));
    }
    DocPlan { page: report_page_setup(), ops }
}

/// Composing is a pure function of the book: two renders of equal books
/// yield equal operation sequences, with no hidden randomness or
/// time-dependence.  Together with the entry points' contracts, which pin
/// each render to these spec functions, this makes repeated renders
/// byte-for-byte reproducible.
pub proof fn lemma_compose_deterministic(a: Seq<Customer>, b: Seq<Customer>)
    requires
        a == b,
    ensures
        batch_doc_ops(a) == batch_doc_ops(b),
{
}

} // verus!
