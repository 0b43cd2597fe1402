//! The per-run promotion book: every customer's promotion state, held in
//! strict ascending name order so that every multi-customer render visits
//! customers in the same deterministic lexicographic order.

use vstd::prelude::*;

use crate::model::Customer;

verus! {

use vstd::multiset::Multiset;

/// Case-sensitive lexicographic order on character sequences, by code
/// point: the strict order that customer names are visited in.
pub open spec fn lex_lt(a: Seq<char>, b: Seq<char>) -> bool
    decreases a.len(),
{
    if b.len() == 0 {
        false
    } else if a.len() == 0 {
        true
    } else if a[0] == b[0] {
        lex_lt(a.drop_first(), b.drop_first())
    } else {
        a[0] < b[0]
    }
}

/// Non-strict lexicographic order.
pub open spec fn lex_le(a: Seq<char>, b: Seq<char>) -> bool {
    lex_lt(a, b) || a == b
}

/// Lexicographic order is transitive.
pub proof fn lemma_lex_lt_trans(a: Seq<char>, b: Seq<char>, c: Seq<char>)
    requires
        lex_lt(a, b),
        lex_lt(b, c),
    ensures
        lex_lt(a, c),
    decreases a.len(),
{
    if c.len() == 0 {
        assert(false);
    } else if b.len() == 0 {
        assert(false);
    } else if a.len() == 0 {
    } else {
        if a[0] == b[0] {
            if b[0] == c[0] {
                lemma_lex_lt_trans(a.drop_first(), b.drop_first(), c.drop_first());
            }
        }
    }
}

/// Two distinct character sequences are strictly ordered one way or the
/// other.
pub proof fn lemma_lex_trichotomy(a: Seq<char>, b: Seq<char>)
    ensures
        a == b || lex_lt(a, b) || lex_lt(b, a),
    decreases a.len(),
{
    if a.len() == 0 && b.len() == 0 {
        assert(a =~= b);
    } else if a.len() == 0 || b.len() == 0 {
    } else if a[0] != b[0] {
    } else {
        lemma_lex_trichotomy(a.drop_first(), b.drop_first());
        if a.drop_first() == b.drop_first() {
            assert(a.drop_first().len() == b.drop_first().len());
            assert(a.len() == b.len());
            assert forall|i: int| 0 <= i < a.len() implies a[i] == b[i] by {
                if i > 0 {
                    assert(a[i] == a.drop_first()[i - 1]);
                    assert(b[i] == b.drop_first()[i - 1]);
                }
            }
            assert(a =~= b);
        }
    }
}

/// Decides `lex_lt` on two string slices.
pub fn str_lex_lt(a: &str, b: &str) -> (r: bool)
    ensures
        r == lex_lt(a@, b@),
{
    let an = a.unicode_len();
    let bn = b.unicode_len();
    let mut i: usize = 0;
    proof {
        assert(a@.skip(0) =~= a@);
        assert(b@.skip(0) =~= b@);
    }
    while i < an && i < bn
        invariant
            i <= an,
            i <= bn,
            an == a@.len(),
            bn == b@.len(),
            lex_lt(a@, b@) == lex_lt(a@.skip(i as int), b@.skip(i as int)),
        decreases an - i,
    {
        let ca = a.get_char(i);
        let cb = b.get_char(i);
        proof {
            assert(a@.skip(i as int)[0] == a@[i as int]);
            assert(b@.skip(i as int)[0] == b@[i as int]);
            assert(a@.skip(i as int).drop_first() =~= a@.skip(i as int + 1));
            assert(b@.skip(i as int).drop_first() =~= b@.skip(i as int + 1));
        }
        if ca == cb {
            i += 1;
        } else {
            return ca < cb;
        }
    }
    proof {
        assert(a@.skip(i as int).len() == an - i);
        assert(b@.skip(i as int).len() == bn - i);
    }
    an < bn
}

/// The names of the listed customers, in list order.
pub open spec fn names_of(cs: Seq<Customer>) -> Seq<Seq<char>> {
    Seq::new(cs.len(), |i: int| cs[i].name@)
}

/// Every earlier name is strictly below every later one.
pub open spec fn strictly_ascending(ns: Seq<Seq<char>>) -> bool {
    forall|i: int, j: int| 0 <= i < j < ns.len() ==> lex_lt(ns[i], ns[j])
}

/// No two listed customers share a name.
pub open spec fn distinct_names(cs: Seq<Customer>) -> bool {
    forall|i: int, j: int|
        0 <= i < j < cs.len() ==> (#[trigger] cs[i].name@) != (#[trigger] cs[j].name@)
}

/// All listed promotions are well formed.
pub open spec fn all_wf(cs: Seq<Customer>) -> bool {
    forall|i: int| 0 <= i < cs.len() ==> (#[trigger] cs[i]).promotion.wf()
}

/// Sorts the customers into strict ascending name order, keeping exactly
/// the given customers (as a multiset).
pub fn sort_customers_by_name(input: Vec<Customer>) -> (r: Vec<Customer>)
    requires
        distinct_names(input@),
        all_wf(input@),
    ensures
        strictly_ascending(names_of(r@)),
        all_wf(r@),
        r@.to_multiset() == input@.to_multiset(),
        r@.len() == input@.len(),
    decreases input@.len(),
{
    broadcast use vstd::seq_lib::group_to_multiset_ensures;
    broadcast use vstd::multiset::group_multiset_axioms;

    let mut rest = input;
    let mut result: Vec<Customer> = Vec::new();
    while rest.len() > 0
        invariant
            strictly_ascending(names_of(result@)),
            all_wf(result@),
            all_wf(rest@),
            distinct_names(rest@),
            result@.to_multiset().add(rest@.to_multiset()) == input@.to_multiset(),
            result@.len() + rest@.len() == input@.len(),
            forall|i: int, j: int|
                0 <= i < result@.len() && 0 <= j < rest@.len() ==> lex_lt(
                    (#[trigger] result@[i]).name@,
                    (#[trigger] rest@[j]).name@,
                ),
        decreases rest@.len(),
    {
        // find the index of the smallest remaining name
        let mut m: usize = 0;
        let mut j: usize = 1;
        while j < rest.len()
            invariant
                rest@.len() > 0,
                m < j,
                j <= rest@.len(),
                distinct_names(rest@),
                forall|k: int|
                    0 <= k < j && k != m ==> lex_lt(rest@[m as int].name@, (#[trigger] rest@[k]).name@),
            decreases rest@.len() - j,
        {
            if str_lex_lt(rest[j].name.as_str(), rest[m].name.as_str()) {
                proof {
                    assert forall|k: int| 0 <= k < j + 1 && k != j implies lex_lt(
                        rest@[j as int].name@,
                        rest@[k].name@,
                    ) by {
                        if k != m as int {
                            lemma_lex_lt_trans(
                                rest@[j as int].name@,
                                rest@[m as int].name@,
                                rest@[k].name@,
                            );
                        }
                    }
                }
                m = j;
            } else {
                proof {
                    lemma_lex_trichotomy(rest@[m as int].name@, rest@[j as int].name@);
                    assert(rest@[m as int].name@ != rest@[j as int].name@);
                }
            }
            j += 1;
        }
        let ghost old_rest = rest@;
        let ghost old_result = result@;
        let c = rest.remove(m);
        result.push(c);
        proof {
            // order: the extracted minimum sits above all already-sorted names
            // and below all remaining ones
            assert(result@ =~= old_result.push(c));
            assert(rest@ =~= old_rest.remove(m as int));
            assert forall|i: int, jj: int| 0 <= i < jj < result@.len() implies lex_lt(
                names_of(result@)[i],
                names_of(result@)[jj],
            ) by {
                assert(names_of(result@)[i] == result@[i].name@);
                assert(names_of(result@)[jj] == result@[jj].name@);
                assert(result@[i] == old_result[i]);
                if jj < result@.len() - 1 {
                    let ns = names_of(old_result);
                    assert(ns[i] == old_result[i].name@);
                    assert(ns[jj] == old_result[jj].name@);
                    assert(lex_lt(ns[i], ns[jj]));
                    assert(result@[jj] == old_result[jj]);
                } else {
                    assert(result@[jj] == c);
                    assert(c == old_rest[m as int]);
                    assert(lex_lt(old_result[i].name@, old_rest[m as int].name@));
                }
            }
            assert forall|i: int, jj: int|
                0 <= i < result@.len() && 0 <= jj < rest@.len() implies lex_lt(
                result@[i].name@,
                rest@[jj].name@,
            ) by {
                let orig_j: int = if jj < m as int {
                    jj
                } else {
                    jj + 1
                };
                assert(rest@[jj] == old_rest[orig_j]);
                if i < result@.len() - 1 {
                    assert(lex_lt(old_result[i].name@, old_rest[orig_j].name@));
                } else {
                    assert(result@[i] == c);
                    assert(lex_lt(old_rest[m as int].name@, old_rest[orig_j].name@));
                }
            }
            assert forall|i: int, jj: int| 0 <= i < jj < rest@.len() implies rest@[i].name@
                != rest@[jj].name@ by {
                let oi: int = if i < m as int {
                    i
                } else {
                    i + 1
                };
                let oj: int = if jj < m as int {
                    jj
                } else {
                    jj + 1
                };
                assert(rest@[i] == old_rest[oi]);
                assert(rest@[jj] == old_rest[oj]);
            }
            assert forall|i: int| 0 <= i < rest@.len() implies (#[trigger] rest@[i]).promotion.wf()
                by {
                let oi: int = if i < m as int {
                    i
                } else {
                    i + 1
                };
                assert(rest@[i] == old_rest[oi]);
            }
            // multiset bookkeeping
            vstd::seq_lib::to_multiset_build(old_result, c);
            vstd::seq_lib::to_multiset_remove(old_rest, m as int);
            assert(result@.to_multiset() == old_result.to_multiset().insert(c));
            assert(rest@.to_multiset() == old_rest.to_multiset().remove(c));
            assert(old_rest.contains(c)) by {
                assert(old_rest[m as int] == c);
            }
            vstd::seq_lib::to_multiset_contains(old_rest, c);
            assert(old_rest.to_multiset().count(c) > 0);
            assert(result@.to_multiset().add(rest@.to_multiset()) =~= old_result.to_multiset().add(
                old_rest.to_multiset(),
            ));
        }
    }
    proof {
        assert(rest@.to_multiset() =~= Multiset::<Customer>::empty());
        assert(result@.to_multiset().add(Multiset::<Customer>::empty()) =~= result@.to_multiset());
    }
    result
}

/// Every customer's promotion state for one run, customers in strict
/// ascending name order.  Built once per run and read-only thereafter.
pub struct PromoBook {
    pub customers: Vec<Customer>,
}

impl PromoBook {
    /// Well-formed: names strictly ascending (hence unique) and every
    /// promotion well formed.
    pub open spec fn wf(&self) -> bool {
        &&& strictly_ascending(names_of(self.customers@))
        &&& all_wf(self.customers@)
    }

    /// Takes customers in any order (names must be distinct, as they key
    /// the source mapping) and files them in strict ascending name order.
    pub fn new(customers: Vec<Customer>) -> (r: PromoBook)
        requires
            distinct_names(customers@),
            all_wf(customers@),
        ensures
            r.wf(),
            r.customers@.to_multiset() == customers@.to_multiset(),
            r.customers@.len() == customers@.len(),
    {
        PromoBook { customers: sort_customers_by_name(customers) }
    }
}

} // verus!
