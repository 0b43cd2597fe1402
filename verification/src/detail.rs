//! The detail listing: for one qualified section, one table per
//! (part, requirement-line) pair holding that pair's matched transaction
//! rows sorted ascending by ship date, each table followed by its summed
//! quantity.  A pair whose quantities sum to (effectively) zero is omitted
//! entirely, yet still counts when deciding whether a trailing spacer is
//! owed.

use vstd::prelude::*;

use crate::book::lex_le;
use crate::book::lex_lt;
use crate::book::lemma_lex_lt_trans;
use crate::book::lemma_lex_trichotomy;
use crate::book::str_lex_lt;
use crate::model::clone_string_vec;
use crate::model::PromoSection;
use crate::model::TransactionRow;
use crate::ops::op_views;
use crate::ops::detail_page_setup;
use crate::ops::Align;
use crate::ops::BorderSpec;
use crate::ops::CellKind;
use crate::ops::DocPlan;
use crate::ops::Op;
use crate::ops::OpV;
use crate::ops::Row;
use crate::ops::RowKind;
use crate::ops::RowV;
use crate::ops::TableOp;
use crate::ops::TableOpV;
use crate::ops::TextOp;
use crate::ops::TextOpV;
use crate::qty::parse_qty_milli;
use crate::qty::milli_str;
use crate::qty::milli_to_string;
use crate::qty::qty_milli;
use crate::qty::valid_qty;
use crate::qty::QtyError;
use crate::textfmt::dec_str_int;
use crate::textfmt::i64_to_string;
use crate::textfmt::views_of;

verus! {

use vstd::multiset::Multiset;

use crate::ops::detail_page;
use crate::ops::lemma_op_views_push;
use crate::ops::row_views;

/// The quantity cell of one transaction row (fourth column).
pub open spec fn row_qty(row: Seq<String>) -> int {
    qty_milli(row[3]@)
}

/// Every quantity cell of every row of every table parses.
pub open spec fn all_qty_valid(tables: Seq<Vec<Vec<String>>>) -> bool {
    forall|i: int, j: int|
        0 <= i < tables.len() && 0 <= j < (#[trigger] tables[i])@.len() ==> valid_qty(
            (#[trigger] tables[i]@[j])@[3]@,
        )
}

/// The summed quantity of the first `k` rows of one table.
pub open spec fn row_sum_upto(table: Seq<Vec<String>>, k: int) -> int
    decreases k,
{
    if k <= 0 {
        0int
    } else {
        row_sum_upto(table, k - 1) + row_qty(table[k - 1]@)
    }
}

/// The summed quantity of one table, in thousandths of a unit.
pub open spec fn table_sum(table: Seq<Vec<String>>) -> int {
    row_sum_upto(table, table.len() as int)
}

/// A table is shown only when its summed quantity is positive (at least one
/// thousandth of a unit).
pub open spec fn visible(table: Seq<Vec<String>>) -> bool {
    table_sum(table) >= 1
}

/// The index of the last visible table among the first `k` (zero when none
/// is visible): the table after which no trailing spacer is owed.
pub open spec fn last_visible(tables: Seq<Vec<Vec<String>>>, k: int) -> int
    decreases k,
{
    if k <= 0 {
        0int
    } else if visible(tables[k - 1]@) {
        k - 1
    } else {
        last_visible(tables, k - 1)
    }
}

/// The heading line naming the customer.
pub open spec fn promo_for_op(customer: Seq<char>) -> OpV {
    OpV::Text(
        TextOpV {
            col_start: 2,
            col_end: 50,
            new_page_first: false,
            height_cin: 27,
            font_pt: 10,
            align: Align::LeftBottom,
            text: "Promotion for: "@ + customer,
            group: Option::None,
        },
    )
}

/// The qualification-count line.
pub open spec fn times_qual_op(t: int) -> OpV {
    OpV::Text(
        TextOpV {
            col_start: 2,
            col_end: 20,
            new_page_first: false,
            height_cin: 27,
            font_pt: 10,
            align: Align::LeftBottom,
            text: "Times Qualified: "@ + dec_str_int(t),
            group: Option::None,
        },
    )
}

/// The blank line under the two headings.
pub open spec fn detail_blank_op() -> OpV {
    OpV::Text(
        TextOpV {
            col_start: 2,
            col_end: 20,
            new_page_first: false,
            height_cin: 27,
            font_pt: 10,
            align: Align::LeftBottom,
            text: Seq::empty(),
            group: Option::None,
        },
    )
}

/// The seven detail columns' widths.
pub open spec fn detail_col_widths() -> Seq<usize> {
    seq![10usize, 20usize, 12usize, 4usize, 11usize, 25usize, 9usize]
}

/// The seven column headers of a detail table.
pub open spec fn detail_header_row() -> RowV {
    RowV {
        cells: seq![
            "Ship Date"@,
            "Customer Name"@,
            "Order Number"@,
            "Qty"@,
            "Part Number"@,
            "Part Number Description"@,
            "Sale Price"@,
        ],
        kind: RowKind::Plain,
    }
}

/// The per-column alignment of a detail table's data rows.
pub open spec fn detail_col_aligns() -> Seq<Align> {
    seq![
        Align::LeftJustifyBottom,
        Align::LeftJustifyBottom,
        Align::LeftJustifyBottom,
        Align::RightJustifyBottom,
        Align::LeftJustifyBottom,
        Align::LeftBottom,
        Align::RightJustifyBottom,
    ]
}

/// The per-column cell typing of a detail table: quantity as a two-digit
/// fixed decimal, sale price as currency.
pub open spec fn detail_cell_kinds() -> Seq<CellKind> {
    seq![
        CellKind::Text,
        CellKind::Text,
        CellKind::Text,
        CellKind::Number2,
        CellKind::Text,
        CellKind::Text,
        CellKind::Currency2,
    ]
}

/// One table's plain data rows.
pub open spec fn detail_table_rows(table: Seq<Vec<String>>) -> Seq<RowV> {
    Seq::new(table.len(), |i: int| RowV { cells: views_of(table[i]@), kind: RowKind::Plain })
}

/// The table operation of one visible (part, requirement-line) pair.
pub open spec fn detail_table_op(table: Seq<Vec<String>>) -> OpV {
    OpV::Table(
        TableOpV {
            col_start: 2,
            col_end: 93,
            col_widths: detail_col_widths(),
            header: Option::Some(detail_header_row()),
            rows: detail_table_rows(table),
            item_font_pt: 10,
            header_font_pt: 12,
            border: BorderSpec::All { line_tenths: 14, pad_tenths: 14 },
            black_border: true,
            header_border: false,
            cell_kinds: detail_cell_kinds(),
            col_aligns: detail_col_aligns(),
            group: Option::None,
        },
    )
}

/// The summed-quantity line under one visible table, right-aligned under
/// the quantity column.
pub open spec fn total_line_op(sum: int) -> OpV {
    OpV::Text(
        TextOpV {
            col_start: 2,
            col_end: 48,
            new_page_first: false,
            height_cin: 27,
            font_pt: 14,
            align: Align::RightJustifyCenter,
            text: "Total Quantity: "@ + milli_str(sum),
            group: Option::None,
        },
    )
}

/// The spacer between successive visible tables.
pub open spec fn detail_spacer_op() -> OpV {
    OpV::Text(
        TextOpV {
            col_start: 0,
            col_end: 50,
            new_page_first: false,
            height_cin: 27,
            font_pt: 10,
            align: Align::LeftBottom,
            text: Seq::empty(),
            group: Option::None,
        },
    )
}

/// The operations of the first `k` tables: a table and its total for every
/// visible pair, a spacer after each except the last visible one, nothing
/// at all for a hidden pair.
pub open spec fn tables_ops(tables: Seq<Vec<Vec<String>>>, lv: int, k: int) -> Seq<OpV>
    decreases k,
{
    if k <= 0 {
        Seq::empty()
    } else {
        tables_ops(tables, lv, k - 1) + (if visible(tables[k - 1]@) {
            seq![detail_table_op(tables[k - 1]@), total_line_op(table_sum(tables[k - 1]@))] + (if k
                - 1 < lv {
                seq![detail_spacer_op()]
            } else {
                Seq::empty()
            })
        } else {
            Seq::empty()
        })
    }
}

/// The whole detail document's operation sequence.
pub open spec fn detail_doc_ops(
    customer: Seq<char>,
    times_qualified: int,
    tables: Seq<Vec<Vec<String>>>,
) -> Seq<OpV> {
    seq![promo_for_op(customer), times_qual_op(times_qualified), detail_blank_op()] + tables_ops(
        tables,
        last_visible(tables, tables.len() as int),
        tables.len() as int,
    )
}

/// Composes one qualified section's detail document.  Succeeds exactly
/// when every row's quantity cell parses; a pair whose quantities sum to
/// zero or less is wholly omitted but still counted for spacer placement.
pub fn compose_detail_document(
    customer: &String,
    times_qualified: i64,
    data: &Vec<Vec<Vec<String>>>,
) -> (r: Result<DocPlan, QtyError>)
    requires
        forall|i: int| 0 <= i < data@.len() ==> (#[trigger] data@[i])@.len() <= 1000000,
        forall|i: int, j: int|
            0 <= i < data@.len() && 0 <= j < (#[trigger] data@[i])@.len() ==> (
            #[trigger] data@[i]@[j])@.len() == 7,
    ensures
        r is Ok <==> all_qty_valid(data@),
        r is Ok ==> (r->Ok_0).page == detail_page(),
        r is Ok ==> op_views((r->Ok_0).ops@) == detail_doc_ops(
            customer@,
            times_qualified as int,
            data@,
        ),
{
    // first pass: parse and sum every table's quantities
    let mut sums: Vec<i64> = Vec::new();
    let mut ends_on_row: usize = 0;
    let mut i: usize = 0;
    while i < data.len()
        invariant
            i <= data@.len(),
            sums@.len() == i,
            forall|x: int| 0 <= x < data@.len() ==> (#[trigger] data@[x])@.len() <= 1000000,
            forall|x: int, j: int|
                0 <= x < data@.len() && 0 <= j < (#[trigger] data@[x])@.len() ==> (
                #[trigger] data@[x]@[j])@.len() == 7,
            forall|x: int, j: int|
                0 <= x < i && 0 <= j < (#[trigger] data@[x])@.len() ==> valid_qty(
                    (#[trigger] data@[x]@[j])@[3]@,
                ),
            forall|x: int| 0 <= x < i ==> (#[trigger] sums@[x]) == table_sum(data@[x]@),
            ends_on_row as int == last_visible(data@, i as int),
        decreases data@.len() - i,
    {
        let table = &data[i];
        let mut acc: i64 = 0;
        let mut j: usize = 0;
        while j < table.len()
            invariant
                j <= table@.len(),
                table@.len() <= 1000000,
                *table == data@[i as int],
                i < data@.len(),
                forall|x: int, jj: int|
                    0 <= x < data@.len() && 0 <= jj < (#[trigger] data@[x])@.len() ==> (
                    #[trigger] data@[x]@[jj])@.len() == 7,
                forall|jj: int| 0 <= jj < j ==> valid_qty((#[trigger] table@[jj])@[3]@),
                acc == row_sum_upto(table@, j as int),
                -1000000000000i64 * (j as i64) <= acc <= 1000000000000i64 * (j as i64),
            decreases table@.len() - j,
        {
            let row = &table[j];
            match parse_qty_milli(row[3].as_str()) {
                Result::Ok(v) => {
                    acc = acc + v;
                },
                Result::Err(e) => {
                    return Result::Err(e);
                },
            }
            j += 1;
        }
        proof {
            assert(acc == table_sum(data@[i as int]@));
        }
        if acc >= 1 {
            ends_on_row = i;
        }
        sums.push(acc);
        i += 1;
    }
    // second pass: emit the document's operations
    let mut ops: Vec<Op> = Vec::new();
    let mut head = String::from_str("Promotion for: ");
    head.append(customer.as_str());
    push_detail_text(&mut ops, 2, 50, 27, 10, Align::LeftBottom, head);
    let mut tq = String::from_str("Times Qualified: ");
    tq.append(i64_to_string(times_qualified).as_str());
    push_detail_text(&mut ops, 2, 20, 27, 10, Align::LeftBottom, tq);
    push_detail_text(&mut ops, 2, 20, 27, 10, Align::LeftBottom, String::new());
    let ghost heads = op_views(ops@);
    let ghost lv = last_visible(data@, data@.len() as int);
    proof {
        assert(heads =~= seq![
            promo_for_op(customer@),
            times_qual_op(times_qualified as int),
            detail_blank_op(),
        ]);
        assert(heads + tables_ops(data@, lv, 0) =~= heads);
    }
    let mut t: usize = 0;
    while t < data.len()
        invariant
            t <= data@.len(),
            sums@.len() == data@.len(),
            forall|x: int| 0 <= x < data@.len() ==> (#[trigger] sums@[x]) == table_sum(data@[x]@),
            forall|x: int, j: int|
                0 <= x < data@.len() && 0 <= j < (#[trigger] data@[x])@.len() ==> (
                #[trigger] data@[x]@[j])@.len() == 7,
            ends_on_row as int == lv,
            lv == last_visible(data@, data@.len() as int),
            op_views(ops@) == heads + tables_ops(data@, lv, t as int),
        decreases data@.len() - t,
    {
        if sums[t] >= 1 {
            let table = &data[t];
            let mut rows: Vec<Row> = Vec::new();
            let mut j: usize = 0;
            while j < table.len()
                invariant
                    j <= table@.len(),
                    *table == data@[t as int],
                    t < data@.len(),
                    row_views(rows@) == detail_table_rows(table@).take(j as int),
                decreases table@.len() - j,
            {
                let cells = clone_string_vec(&table[j]);
                let ghost prev = row_views(rows@);
                let row = Row { cells, kind: RowKind::Plain };
                let ghost row_v = row@;
                rows.push(row);
                proof {
                    assert(row_views(rows@) =~= prev.push(row_v));
                    assert(row_v =~~= detail_table_rows(table@)[j as int]);
                    assert(row_views(rows@) =~= detail_table_rows(table@).take(j as int + 1));
                }
                j += 1;
            }
            proof {
                assert(detail_table_rows(table@).take(table@.len() as int) =~= detail_table_rows(
                    table@,
                ));
            }
            let header = Row {
                cells: vec![
                    String::from_str("Ship Date"),
                    String::from_str("Customer Name"),
                    String::from_str("Order Number"),
                    String::from_str("Qty"),
                    String::from_str("Part Number"),
                    String::from_str("Part Number Description"),
                    String::from_str("Sale Price"),
                ],
                kind: RowKind::Plain,
            };
            proof {
                assert(header@ =~~= detail_header_row());
            }
            let widths: Vec<usize> = vec![10, 20, 12, 4, 11, 25, 9];
            let kinds: Vec<CellKind> = vec![
                CellKind::Text,
                CellKind::Text,
                CellKind::Text,
                CellKind::Number2,
                CellKind::Text,
                CellKind::Text,
                CellKind::Currency2,
            ];
            let aligns: Vec<Align> = vec![
                Align::LeftJustifyBottom,
                Align::LeftJustifyBottom,
                Align::LeftJustifyBottom,
                Align::RightJustifyBottom,
                Align::LeftJustifyBottom,
                Align::LeftBottom,
                Align::RightJustifyBottom,
            ];
            let table_op = Op::Table(
                TableOp {
                    col_start: 2,
                    col_end: 93,
                    col_widths: widths,
                    header: Option::Some(header),
                    rows,
                    item_font_pt: 10,
                    header_font_pt: 12,
                    border: BorderSpec::All { line_tenths: 14, pad_tenths: 14 },
                    black_border: true,
                    header_border: false,
                    cell_kinds: kinds,
                    col_aligns: aligns,
                    group: Option::None,
                },
            );
            proof {
                assert(table_op@ =~~= detail_table_op(data@[t as int]@));
            }
            let ghost table_g = table_op;
            let ghost before = ops@;
            ops.push(table_op);
            proof {
                lemma_op_views_push(before, table_g);
            }
            let mut total = String::from_str("Total Quantity: ");
            total.append(milli_to_string(sums[t]).as_str());
            push_detail_text(&mut ops, 2, 48, 27, 14, Align::RightJustifyCenter, total);
            if t < ends_on_row {
                push_detail_text(&mut ops, 0, 50, 27, 10, Align::LeftBottom, String::new());
            }
        }
        proof {
            assert(op_views(ops@) =~= heads + tables_ops(data@, lv, t as int + 1));
        }
        t += 1;
    }
    Result::Ok(DocPlan { page: detail_page_setup(), ops })
}

/// The seven display cells of one matched transaction: ship date,
/// customer, order number, quantity, part number, description, sale price.
pub open spec fn spec_row_of(r: TransactionRow) -> Seq<String> {
    seq![
        r.ship_date,
        r.customer_name,
        r.order_number,
        r.qty,
        r.part_number,
        r.description,
        r.sale_price,
    ]
}

/// How many (part, requirement-line) pairs the first `k` parts hold.
pub open spec fn section_tp_count(sec: PromoSection, k: int) -> int
    decreases k,
{
    if k <= 0 {
        0int
    } else {
        section_tp_count(sec, k - 1) + sec.part@[k - 1].type_prod@.len()
    }
}

/// The cell sequences of a list of rows, in order.
pub open spec fn row_seq_views(rows: Seq<Vec<String>>) -> Seq<Seq<String>> {
    Seq::new(rows.len(), |i: int| rows[i]@)
}

/// The display rows of a list of matched transactions, in order.
pub open spec fn found_rows_views(found: Seq<TransactionRow>) -> Seq<Seq<String>> {
    Seq::new(found.len(), |i: int| spec_row_of(found[i]))
}

pub proof fn lemma_tp_count_monotone(sec: PromoSection, k1: int, k2: int)
    requires
        k1 <= k2,
    ensures
        section_tp_count(sec, k1) <= section_tp_count(sec, k2),
    decreases k2 - k1,
{
    if k1 < k2 {
        lemma_tp_count_monotone(sec, k1, k2 - 1);
    }
}

/// Sorts display rows ascending by their first cell (the ship date),
/// keeping exactly the given rows; rows with equal dates stay together.
pub fn sort_rows_by_ship_date(input: Vec<Vec<String>>) -> (r: Vec<Vec<String>>)
    requires
        forall|i: int| 0 <= i < input@.len() ==> (#[trigger] input@[i])@.len() == 7,
    ensures
        r@.len() == input@.len(),
        forall|i: int| 0 <= i < r@.len() ==> (#[trigger] r@[i])@.len() == 7,
        row_seq_views(r@).to_multiset() == row_seq_views(input@).to_multiset(),
        forall|i: int, j: int| 0 <= i < j < r@.len() ==> lex_le(r@[i]@[0]@, r@[j]@[0]@),
{
    broadcast use vstd::seq_lib::group_to_multiset_ensures;
    broadcast use vstd::multiset::group_multiset_axioms;

    let mut rest = input;
    let mut result: Vec<Vec<String>> = Vec::new();
    while rest.len() > 0
        invariant
            forall|i: int| 0 <= i < rest@.len() ==> (#[trigger] rest@[i])@.len() == 7,
            forall|i: int| 0 <= i < result@.len() ==> (#[trigger] result@[i])@.len() == 7,
            forall|i: int, j: int|
                0 <= i < j < result@.len() ==> lex_le(result@[i]@[0]@, result@[j]@[0]@),
            forall|i: int, j: int|
                0 <= i < result@.len() && 0 <= j < rest@.len() ==> lex_le(
                    (#[trigger] result@[i])@[0]@,
                    (#[trigger] rest@[j])@[0]@,
                ),
            row_seq_views(result@).to_multiset().add(row_seq_views(rest@).to_multiset())
                == row_seq_views(input@).to_multiset(),
            result@.len() + rest@.len() == input@.len(),
        decreases rest@.len(),
    {
        let mut m: usize = 0;
        let mut j: usize = 1;
        while j < rest.len()
            invariant
                rest@.len() > 0,
                m < j,
                j <= rest@.len(),
                forall|i: int| 0 <= i < rest@.len() ==> (#[trigger] rest@[i])@.len() == 7,
                forall|k: int|
                    0 <= k < j ==> lex_le(rest@[m as int]@[0]@, (#[trigger] rest@[k])@[0]@),
            decreases rest@.len() - j,
        {
            if str_lex_lt(rest[j][0].as_str(), rest[m][0].as_str()) {
                proof {
                    assert forall|k: int| 0 <= k < j + 1 implies lex_le(
                        rest@[j as int]@[0]@,
                        rest@[k]@[0]@,
                    ) by {
                        if k < j {
                            if lex_lt(rest@[m as int]@[0]@, rest@[k]@[0]@) {
                                lemma_lex_lt_trans(
                                    rest@[j as int]@[0]@,
                                    rest@[m as int]@[0]@,
                                    rest@[k]@[0]@,
                                );
                            }
                        }
                    }
                }
                m = j;
            } else {
                proof {
                    lemma_lex_trichotomy(rest@[m as int]@[0]@, rest@[j as int]@[0]@);
                }
            }
            j += 1;
        }
        let ghost old_rest = rest@;
        let ghost old_result = result@;
        let c = rest.remove(m);
        let ghost cg = c;
        result.push(c);
        proof {
            assert(result@ =~= old_result.push(cg));
            assert(rest@ =~= old_rest.remove(m as int));
            assert forall|i: int, jj: int| 0 <= i < jj < result@.len() implies lex_le(
                result@[i]@[0]@,
                result@[jj]@[0]@,
            ) by {
                if jj < result@.len() - 1 {
                    assert(lex_le(old_result[i]@[0]@, old_result[jj]@[0]@));
                } else {
                    assert(result@[jj] == cg);
                    assert(lex_le(old_result[i]@[0]@, old_rest[m as int]@[0]@));
                }
            }
            assert forall|i: int, jj: int|
                0 <= i < result@.len() && 0 <= jj < rest@.len() implies lex_le(
                (#[trigger] result@[i])@[0]@,
                (#[trigger] rest@[jj])@[0]@,
            ) by {
                let oj: int = if jj < m as int {
                    jj
                } else {
                    jj + 1
                };
                assert(rest@[jj] == old_rest[oj]);
                if i < result@.len() - 1 {
                    assert(lex_le(old_result[i]@[0]@, old_rest[oj]@[0]@));
                } else {
                    assert(result@[i] == cg);
                    assert(lex_le(old_rest[m as int]@[0]@, old_rest[oj]@[0]@));
                }
            }
            assert forall|i: int| 0 <= i < rest@.len() implies (#[trigger] rest@[i])@.len()
                == 7 by {
                let oi: int = if i < m as int {
                    i
                } else {
                    i + 1
                };
                assert(rest@[i] == old_rest[oi]);
            }
            // multiset bookkeeping over the rows' cell sequences
            vstd::seq_lib::to_multiset_build(row_seq_views(old_result), cg@);
            vstd::seq_lib::to_multiset_remove(row_seq_views(old_rest), m as int);
            assert(row_seq_views(result@) =~= row_seq_views(old_result).push(cg@));
            assert(row_seq_views(rest@) =~= row_seq_views(old_rest).remove(m as int));
            assert(row_seq_views(old_rest).contains(cg@)) by {
                assert(row_seq_views(old_rest)[m as int] == cg@);
            }
            vstd::seq_lib::to_multiset_contains(row_seq_views(old_rest), cg@);
            assert(row_seq_views(result@).to_multiset().add(row_seq_views(rest@).to_multiset())
                =~= row_seq_views(old_result).to_multiset().add(
                row_seq_views(old_rest).to_multiset(),
            ));
        }
    }
    proof {
        assert(row_seq_views(rest@).to_multiset() =~= Multiset::<Seq<String>>::empty());
        assert(row_seq_views(result@).to_multiset().add(Multiset::<Seq<String>>::empty())
            =~= row_seq_views(result@).to_multiset());
    }
    result
}

/// Builds one qualified section's detail tables: one table per
/// (part, requirement-line) pair, in source order, holding that pair's
/// matched transactions as display rows sorted ascending by ship date.
pub fn build_detail_tables(section: &PromoSection) -> (r: Vec<Vec<Vec<String>>>)
    ensures
        r@.len() == section_tp_count(*section, section.part@.len() as int),
        forall|i: int, j: int|
            0 <= i < r@.len() && 0 <= j < (#[trigger] r@[i])@.len() ==> (
            #[trigger] r@[i]@[j])@.len() == 7,
        forall|i: int, a: int, b: int|
            #![trigger r@[i]@[a], r@[i]@[b]]
            0 <= i < r@.len() && 0 <= a < b < r@[i]@.len() ==> lex_le(
                r@[i]@[a]@[0]@,
                r@[i]@[b]@[0]@,
            ),
        forall|p: int, ti: int|
            #![trigger section.part@[p].type_prod@[ti]]
            0 <= p < section.part@.len() && 0 <= ti < section.part@[p].type_prod@.len()
                ==> row_seq_views(r@[section_tp_count(*section, p) + ti]@).to_multiset()
                == found_rows_views(
                section.part@[p].type_prod@[ti].found_numbers@,
            ).to_multiset(),
{
    let mut tables: Vec<Vec<Vec<String>>> = Vec::new();
    let mut p: usize = 0;
    while p < section.part.len()
        invariant
            p <= section.part@.len(),
            tables@.len() == section_tp_count(*section, p as int),
            forall|i: int, j: int|
                0 <= i < tables@.len() && 0 <= j < (#[trigger] tables@[i])@.len() ==> (
                #[trigger] tables@[i]@[j])@.len() == 7,
            forall|i: int, a: int, b: int|
                #![trigger tables@[i]@[a], tables@[i]@[b]]
                0 <= i < tables@.len() && 0 <= a < b < tables@[i]@.len() ==> lex_le(
                    tables@[i]@[a]@[0]@,
                    tables@[i]@[b]@[0]@,
                ),
            forall|pp: int, ti: int|
                #![trigger section.part@[pp].type_prod@[ti]]
                0 <= pp < p && 0 <= ti < section.part@[pp].type_prod@.len()
                    ==> row_seq_views(tables@[section_tp_count(*section, pp) + ti]@).to_multiset()
                    == found_rows_views(
                    section.part@[pp].type_prod@[ti].found_numbers@,
                ).to_multiset(),
        decreases section.part@.len() - p,
    {
        let part = &section.part[p];
        let mut ti: usize = 0;
        while ti < part.type_prod.len()
            invariant
                ti <= part.type_prod@.len(),
                *part == section.part@[p as int],
                p < section.part@.len(),
                tables@.len() == section_tp_count(*section, p as int) + ti,
                forall|i: int, j: int|
                    0 <= i < tables@.len() && 0 <= j < (#[trigger] tables@[i])@.len() ==> (
                    #[trigger] tables@[i]@[j])@.len() == 7,
                forall|i: int, a: int, b: int|
                    #![trigger tables@[i]@[a], tables@[i]@[b]]
                    0 <= i < tables@.len() && 0 <= a < b < tables@[i]@.len()
                        ==> lex_le(tables@[i]@[a]@[0]@, tables@[i]@[b]@[0]@),
                forall|pp: int, tt: int|
                    #![trigger section.part@[pp].type_prod@[tt]]
                    0 <= pp < p && 0 <= tt < section.part@[pp].type_prod@.len()
                        ==> row_seq_views(
                        tables@[section_tp_count(*section, pp) + tt]@,
                    ).to_multiset() == found_rows_views(
                        section.part@[pp].type_prod@[tt].found_numbers@,
                    ).to_multiset(),
                forall|tt: int|
                    0 <= tt < ti ==> row_seq_views(
                        tables@[section_tp_count(*section, p as int) + tt]@,
                    ).to_multiset() == found_rows_views(
                        (#[trigger] part.type_prod@[tt]).found_numbers@,
                    ).to_multiset(),
            decreases part.type_prod@.len() - ti,
        {
            let tp = &part.type_prod[ti];
            let mut raw: Vec<Vec<String>> = Vec::new();
            let mut f: usize = 0;
            while f < tp.found_numbers.len()
                invariant
                    f <= tp.found_numbers@.len(),
                    *tp == section.part@[p as int].type_prod@[ti as int],
                    p < section.part@.len(),
                    ti < section.part@[p as int].type_prod@.len(),
                    raw@.len() == f,
                    forall|x: int| 0 <= x < f ==> (#[trigger] raw@[x])@ == spec_row_of(
                        tp.found_numbers@[x],
                    ),
                decreases tp.found_numbers@.len() - f,
            {
                let tr = &tp.found_numbers[f];
                let cells: Vec<String> = vec![
                    tr.ship_date.clone(),
                    tr.customer_name.clone(),
                    tr.order_number.clone(),
                    tr.qty.clone(),
                    tr.part_number.clone(),
                    tr.description.clone(),
                    tr.sale_price.clone(),
                ];
                proof {
                    assert(cells@ =~= spec_row_of(tp.found_numbers@[f as int]));
                }
                raw.push(cells);
                f += 1;
            }
            proof {
                assert(row_seq_views(raw@) =~= found_rows_views(tp.found_numbers@));
            }
            let sorted = sort_rows_by_ship_date(raw);
            let ghost old_tables = tables@;
            let ghost sorted_g = sorted;
            tables.push(sorted);
            proof {
                let sec = *section;
                let cnt = section_tp_count(sec, p as int);
                assert(tables@ =~= old_tables.push(sorted_g));
                lemma_tp_count_monotone(sec, 0, p as int);
                assert forall|pp: int, tt: int|
                    #![trigger sec.part@[pp].type_prod@[tt]]
                    0 <= pp < p && 0 <= tt < sec.part@[pp].type_prod@.len() implies row_seq_views(
                    tables@[section_tp_count(sec, pp) + tt]@,
                ).to_multiset() == found_rows_views(
                    sec.part@[pp].type_prod@[tt].found_numbers@,
                ).to_multiset() by {
                    lemma_tp_count_monotone(sec, 0, pp);
                    lemma_tp_count_monotone(sec, pp + 1, p as int);
                    assert(section_tp_count(sec, pp + 1) == section_tp_count(sec, pp)
                        + sec.part@[pp].type_prod@.len());
                    assert(section_tp_count(sec, pp) + tt < cnt);
                    assert(tables@[section_tp_count(sec, pp) + tt] == old_tables[section_tp_count(
                        sec,
                        pp,
                    ) + tt]);
                }
                assert forall|tt: int| 0 <= tt < ti + 1 implies row_seq_views(
                    tables@[cnt + tt]@,
                ).to_multiset() == found_rows_views(
                    (#[trigger] part.type_prod@[tt]).found_numbers@,
                ).to_multiset() by {
                    if tt < ti {
                        assert(tables@[cnt + tt] == old_tables[cnt + tt]);
                    } else {
                        assert(tables@[cnt + tt] == sorted_g);
                        assert(row_seq_views(sorted_g@).to_multiset() == found_rows_views(
                            part.type_prod@[tt].found_numbers@,
                        ).to_multiset());
                    }
                }
            }
            ti += 1;
        }
        p += 1;
    }
    tables
}

/// Appends one detail-document text line.
fn push_detail_text(
    out: &mut Vec<Op>,
    col_start: usize,
    col_end: usize,
    height_cin: usize,
    font_pt: usize,
    align: Align,
    text: String,
)
    ensures
        op_views(final(out)@) == op_views(old(out)@).push(
            OpV::Text(
                TextOpV {
                    col_start,
                    col_end,
                    new_page_first: false,
                    height_cin,
                    font_pt,
                    align,
                    text: text@,
                    group: Option::None,
                },
            ),
        ),
{
    let ghost before = out@;
    let op = Op::Text(
        TextOp {
            col_start,
            col_end,
            new_page_first: false,
            height_cin,
            font_pt,
            align,
            text,
            group: Option::None,
        },
    );
    let ghost opg = op;
    out.push(op);
    proof {
        lemma_op_views_push(before, opg);
    }
}

} // verus!
