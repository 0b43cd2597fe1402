use promo_report::archive::plan_archive;
use promo_report::archive::DocKind;
use promo_report::book::PromoBook;
use promo_report::border::group_bounding_rects;
use promo_report::border::GroupBorder;
use promo_report::border::PaletteColor;
use promo_report::compose::compose_batch_report;
use promo_report::compose::compose_customer_report;
use promo_report::detail::build_detail_tables;
use promo_report::detail::compose_detail_document;
use promo_report::gap::get_amount_missing_for_next_promo;
use promo_report::model::AndOrType;
use promo_report::model::Customer;
use promo_report::model::Part;
use promo_report::model::PromoSection;
use promo_report::model::Promotion;
use promo_report::model::TransactionRow;
use promo_report::model::TypeProd;
use promo_report::ops::Op;
use promo_report::qty::milli_to_string;
use promo_report::qty::parse_qty_milli;
use promo_report::report::display_missing_report;
use promo_report::report::write_missing_report;
use promo_report::textfmt::display_vec_of_strings_as_csv;
use promo_report::textfmt::i64_to_string;
use promo_report::tree::generate_missing_report_for_section;

fn strings(v: Vec<&str>) -> Vec<String> {
    v.into_iter().map(|s| s.to_string()).collect()
}

fn type_prod(needed: i64, total: i64, parts: Vec<&str>) -> TypeProd {
    TypeProd {
        qty_needed: needed,
        total_qty: total,
        part_numbers: strings(parts),
        found_numbers: Vec::new(),
    }
}

fn section_one_part(join: AndOrType, tps: Vec<TypeProd>, qualified: i64) -> PromoSection {
    let unmet: Vec<usize> = (0..tps.len()).collect();
    PromoSection {
        times_section_qualified: qualified,
        part: vec![Part {
            part_type: join,
            type_prod: tps,
            type_prods_for_next_promo_needed: unmet,
        }],
        promo_parts_still_needed: vec![0],
    }
}

fn row(ship: &str, qty: &str) -> TransactionRow {
    TransactionRow {
        ship_date: ship.to_string(),
        customer_name: "C".to_string(),
        order_number: "1".to_string(),
        qty: qty.to_string(),
        part_number: "P".to_string(),
        description: "D".to_string(),
        sale_price: "9.99".to_string(),
    }
}

#[test]
fn shortfall_below_tier() {
    assert_eq!(get_amount_missing_for_next_promo(6, 2), 4);
}

#[test]
fn shortfall_exactly_on_tier() {
    assert_eq!(get_amount_missing_for_next_promo(6, 6), 6);
}

#[test]
fn shortfall_above_tier() {
    assert_eq!(get_amount_missing_for_next_promo(6, 7), 5);
    assert_eq!(get_amount_missing_for_next_promo(6, 13), 5);
}

#[test]
fn shortfall_on_double_tier() {
    assert_eq!(get_amount_missing_for_next_promo(6, 12), 6);
}

#[test]
fn shortfall_next_multiple_property_samples() {
    for n in 1..8i64 {
        for c in 0..30i64 {
            let s = get_amount_missing_for_next_promo(n, c);
            assert!(s >= 1);
            assert_eq!((c + s) % n, 0);
            assert!(c + s > c);
        }
    }
}

#[test]
fn csv_joins_with_separator() {
    assert_eq!(display_vec_of_strings_as_csv(&strings(vec!["a", "b", "c"])), "a ,b ,c");
}

#[test]
fn csv_single_and_empty() {
    assert_eq!(display_vec_of_strings_as_csv(&strings(vec!["x"])), "x");
    assert_eq!(display_vec_of_strings_as_csv(&Vec::new()), "");
}

#[test]
fn decimal_rendering() {
    assert_eq!(i64_to_string(0), "0");
    assert_eq!(i64_to_string(907), "907");
    assert_eq!(i64_to_string(-45), "-45");
}

#[test]
fn tree_builder_counts_and_order() {
    let sec = PromoSection {
        times_section_qualified: 0,
        part: vec![
            Part {
                part_type: AndOrType::Or,
                type_prod: vec![type_prod(6, 2, vec!["A"]), type_prod(3, 7, vec!["B"])],
                type_prods_for_next_promo_needed: vec![0, 1],
            },
            Part {
                part_type: AndOrType::And,
                type_prod: vec![type_prod(5, 0, vec!["C"])],
                type_prods_for_next_promo_needed: vec![0],
            },
        ],
        promo_parts_still_needed: vec![0, 1],
    };
    let tree = generate_missing_report_for_section(&sec);
    assert_eq!(tree.len(), 2);
    assert_eq!(tree[0].missing_part_numbers.len(), 1);
    let (join, lines) = &tree[0].missing_part_numbers[0];
    assert_eq!(*join, AndOrType::Or);
    assert_eq!(lines.len(), 2);
    assert_eq!(lines[0].amount_needed, 4);
    assert_eq!(lines[1].amount_needed, 2);
    assert_eq!(lines[0].missing_part_numbers, strings(vec!["A"]));
    let (_, lines2) = &tree[1].missing_part_numbers[0];
    assert_eq!(lines2.len(), 1);
    assert_eq!(lines2[0].amount_needed, 5);
}

#[test]
fn text_report_or_join_inline() {
    let sec = section_one_part(
        AndOrType::Or,
        vec![type_prod(6, 2, vec!["A", "B"]), type_prod(4, 1, vec!["C"])],
        0,
    );
    let tree = generate_missing_report_for_section(&sec);
    let text = write_missing_report(&tree);
    assert_eq!(text, "4 of a ( A ,B ) Or 3 of a ( C )\r\n");
}

#[test]
fn text_report_and_join_on_own_lines() {
    let sec = section_one_part(
        AndOrType::And,
        vec![type_prod(6, 2, vec!["A"]), type_prod(4, 1, vec!["C"])],
        0,
    );
    let tree = generate_missing_report_for_section(&sec);
    let text = write_missing_report(&tree);
    assert_eq!(text, "4 of a ( A )\r\n3 of a ( C )\r\n");
}

#[test]
fn customers_visited_in_ascending_name_order() {
    let promo = |n: i64| Promotion {
        promo_sections: vec![section_one_part(AndOrType::And, vec![type_prod(6, n, vec!["A"])], 0)],
    };
    let customers = vec![
        Customer { name: "Zeta".to_string(), promotion: promo(1) },
        Customer { name: "Alpha".to_string(), promotion: promo(2) },
        Customer { name: "Mid".to_string(), promotion: promo(3) },
    ];
    let book = PromoBook::new(customers);
    assert_eq!(book.customers[0].name, "Alpha");
    assert_eq!(book.customers[1].name, "Mid");
    assert_eq!(book.customers[2].name, "Zeta");
    let text = display_missing_report(&book);
    let a = text.find("For Customer: Alpha").unwrap();
    let m = text.find("For Customer: Mid").unwrap();
    let z = text.find("For Customer: Zeta").unwrap();
    assert!(a < m && m < z);
}

#[test]
fn report_labels_depend_on_qualification() {
    let qualified = section_one_part(AndOrType::And, vec![type_prod(6, 2, vec!["A"])], 2);
    let fresh = section_one_part(AndOrType::And, vec![type_prod(6, 2, vec!["A"])], 0);
    let book = PromoBook::new(vec![Customer {
        name: "One".to_string(),
        promotion: Promotion { promo_sections: vec![fresh, qualified] },
    }]);
    let text = display_missing_report(&book);
    assert!(text.contains("Qualified 0 times for Promo 1\r\n"));
    assert!(text.contains("To get the promo you need to purchase:\r\n"));
    assert!(text.contains("Qualified 2 times for Promo 2\r\n"));
    assert!(text.contains("To get another you need to purchase:\r\n"));
}

#[test]
fn qty_parse_accepts_decimals() {
    assert_eq!(parse_qty_milli("3").unwrap(), 3000);
    assert_eq!(parse_qty_milli("3.5").unwrap(), 3500);
    assert_eq!(parse_qty_milli("-2.25").unwrap(), -2250);
    assert_eq!(parse_qty_milli("0.125").unwrap(), 125);
}

#[test]
fn qty_parse_rejects_malformed() {
    assert!(parse_qty_milli("").is_err());
    assert!(parse_qty_milli("x").is_err());
    assert!(parse_qty_milli("1.").is_err());
    assert!(parse_qty_milli("1.2345").is_err());
    assert!(parse_qty_milli("12345678901").is_err());
}

#[test]
fn milli_rendering_trims_zeros() {
    assert_eq!(milli_to_string(7000), "7");
    assert_eq!(milli_to_string(7500), "7.5");
    assert_eq!(milli_to_string(7250), "7.25");
    assert_eq!(milli_to_string(7125), "7.125");
}

#[test]
fn zero_sum_table_is_omitted_and_last_visible_gets_no_spacer() {
    let visible = vec![
        strings(vec!["2020-05-01", "C", "1", "2", "P", "D", "1.00"]),
        strings(vec!["2020-05-02", "C", "2", "3", "P", "D", "1.00"]),
    ];
    let zero = vec![
        strings(vec!["2020-05-03", "C", "3", "1", "P", "D", "1.00"]),
        strings(vec!["2020-05-04", "C", "4", "-1", "P", "D", "1.00"]),
    ];
    let data = vec![visible, zero];
    let plan = compose_detail_document(&"Cust".to_string(), 1, &data).unwrap();
    // three heading lines, one table, one total line; no spacer, no second table
    assert_eq!(plan.ops.len(), 5);
    match &plan.ops[3] {
        Op::Table(t) => assert_eq!(t.rows.len(), 2),
        _ => panic!("expected the visible table"),
    }
    match &plan.ops[4] {
        Op::Text(t) => assert_eq!(t.text, "Total Quantity: 5"),
        _ => panic!("expected the total line"),
    }
}

#[test]
fn detail_document_fails_on_bad_quantity() {
    let data = vec![vec![strings(vec!["2020-05-01", "C", "1", "abc", "P", "D", "1.00"])]];
    assert!(compose_detail_document(&"Cust".to_string(), 1, &data).is_err());
}

#[test]
fn detail_tables_sorted_by_ship_date() {
    let sec = PromoSection {
        times_section_qualified: 1,
        part: vec![Part {
            part_type: AndOrType::And,
            type_prod: vec![TypeProd {
                qty_needed: 6,
                total_qty: 2,
                part_numbers: strings(vec!["A"]),
                found_numbers: vec![row("2020-07-01", "1"), row("2020-05-01", "2"), row(
                    "2020-06-01",
                    "3",
                )],
            }],
            type_prods_for_next_promo_needed: vec![0],
        }],
        promo_parts_still_needed: vec![0],
    };
    let tables = build_detail_tables(&sec);
    assert_eq!(tables.len(), 1);
    let dates: Vec<&str> = tables[0].iter().map(|r| r[0].as_str()).collect();
    assert_eq!(dates, vec!["2020-05-01", "2020-06-01", "2020-07-01"]);
}

#[test]
fn archive_plan_counts_customers_and_qualified_sections() {
    let qualified = || section_one_part(AndOrType::And, vec![type_prod(6, 2, vec!["A"])], 1);
    let fresh = || section_one_part(AndOrType::And, vec![type_prod(6, 2, vec!["A"])], 0);
    let book = PromoBook::new(vec![
        Customer {
            name: "Alice".to_string(),
            promotion: Promotion { promo_sections: vec![fresh(), qualified()] },
        },
        Customer {
            name: "Bob".to_string(),
            promotion: Promotion { promo_sections: vec![qualified(), qualified()] },
        },
    ]);
    let plan = plan_archive(&book);
    assert_eq!(plan.len(), 2 + 1 + 2);
    assert_eq!(plan[0].path, "Missing_Reports/Alice Missing Report.pdf");
    assert!(matches!(plan[0].doc, DocKind::CustomerReport { customer_index: 0 }));
    assert_eq!(plan[1].path, "Alice/Promo#1.pdf");
    assert!(matches!(plan[1].doc, DocKind::SectionDetail { customer_index: 0, section_index: 1 }));
    assert_eq!(plan[2].path, "Missing_Reports/Bob Missing Report.pdf");
    assert_eq!(plan[3].path, "Bob/Promo#0.pdf");
    assert_eq!(plan[4].path, "Bob/Promo#1.pdf");
}

#[test]
fn group_bounds_have_exact_six_unit_margin() {
    // coordinates in thousandths of a unit
    let borders = vec![
        GroupBorder { group: 0, page: 0, x: 10000, y: 20000, w: 5000, h: 4000 },
        GroupBorder { group: 0, page: 0, x: 8000, y: 26000, w: 9000, h: 3000 },
        GroupBorder { group: 1, page: 0, x: 0, y: 0, w: 1000, h: 1000 },
    ];
    let rects = group_bounding_rects(&borders);
    assert_eq!(rects.len(), 2);
    let r = &rects[0];
    assert_eq!(r.group, 0);
    // tightest enclosure is x in [8000, 17000], y in [20000, 29000]
    assert_eq!(r.x, 8000 - 6000);
    assert_eq!(r.y, 20000 - 6000);
    assert_eq!(r.x + r.w, 17000 + 6000);
    assert_eq!(r.y + r.h, 29000 + 6000);
    assert_eq!(r.color, PaletteColor::Red);
    // every border of the pair lies strictly within
    for b in &borders[0..2] {
        assert!(r.x < b.x && b.x + b.w < r.x + r.w);
        assert!(r.y < b.y && b.y + b.h < r.y + r.h);
    }
    assert_eq!(rects[1].color, PaletteColor::Green);
    // every recorded border's pair has a rectangle, and no pair has two
    for b in &borders {
        assert!(rects.iter().any(|r| r.group == b.group && r.page == b.page));
    }
    for (i, r1) in rects.iter().enumerate() {
        for r2 in &rects[i + 1..] {
            assert!(!(r1.group == r2.group && r1.page == r2.page));
        }
    }
}

#[test]
fn batch_render_is_deterministic_and_pages_break_per_customer() {
    let promo = || Promotion {
        promo_sections: vec![section_one_part(
            AndOrType::Any(3),
            vec![type_prod(6, 2, vec!["A", "B", "C", "D", "E", "F", "G"]), type_prod(
                4,
                1,
                vec!["H"],
            )],
            0,
        )],
    };
    let mk = || {
        PromoBook::new(vec![
            Customer { name: "A1".to_string(), promotion: promo() },
            Customer { name: "B2".to_string(), promotion: promo() },
        ])
    };
    let plan1 = compose_batch_report(&mk());
    let plan2 = compose_batch_report(&mk());
    assert_eq!(plan1.ops.len(), plan2.ops.len());
    let texts = |p: &promo_report::ops::DocPlan| -> Vec<(String, bool)> {
        p.ops
            .iter()
            .filter_map(|o| match o {
                Op::Text(t) => Some((t.text.clone(), t.new_page_first)),
                _ => None,
            })
            .collect()
    };
    assert_eq!(texts(&plan1), texts(&plan2));
    // the first customer opens no fresh page, the second does
    let heads: Vec<(String, bool)> = texts(&plan1)
        .into_iter()
        .filter(|(s, _)| s.starts_with("For Customer: "))
        .collect();
    assert_eq!(heads.len(), 2);
    assert!(!heads[0].1);
    assert!(heads[1].1);
}

#[test]
fn customer_report_renders_any_join_as_or_and_wraps_skus() {
    let cust = Customer {
        name: "Solo".to_string(),
        promotion: Promotion {
            promo_sections: vec![section_one_part(
                AndOrType::Any(9),
                vec![type_prod(6, 2, vec!["A", "B", "C", "D", "E", "F", "G"]), type_prod(
                    4,
                    1,
                    vec!["H"],
                )],
                0,
            )],
        },
    };
    let plan = compose_customer_report(&cust);
    let table = plan
        .ops
        .iter()
        .find_map(|o| match o {
            Op::Table(t) => Some(t),
            _ => None,
        })
        .expect("a requirement-tree table");
    // highlighted line, two SKU rows (five then two), then the joined line
    assert_eq!(table.rows[0].cells, vec!["Purchase 4 more".to_string()]);
    assert_eq!(table.rows[1].cells, strings(vec!["A", "B", "C", "D", "E"]));
    assert_eq!(table.rows[2].cells, strings(vec!["F", "G"]));
    assert_eq!(table.rows[3].cells, vec!["Or purchase 3 more".to_string()]);
    assert_eq!(table.rows[4].cells, vec!["H".to_string()]);
}
