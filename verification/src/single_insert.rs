//! The statement that writes one row.
use crate::clickhouse_table::{RowView, Table, insert_head, row_tuple, row_view};
use crate::error::Error;
use crate::text::{join_with, texts};
use std::collections::BTreeMap;
use std::cmp::Ordering;
use vstd::prelude::*;
use vstd::std_specs::cmp::OrdSpec;
use vstd::std_specs::iter::IteratorSpec;
use vstd::string::*;

verus! {

/// `keys` holds the indices for which `row` has a literal, each once, in
/// increasing order.
pub open spec fn ordered_keys(row: RowView, keys: Seq<usize>) -> bool {
    &&& forall|i: int, j: int| 0 <= i < j < keys.len() ==> keys[i] < keys[j]
    &&& forall|k: usize| row.contains_key(k) <==> keys.contains(k)
}

/// The literals that `row` has at `keys`.
pub open spec fn literals_at(row: RowView, keys: Seq<usize>) -> Seq<Seq<char>> {
    Seq::new(keys.len(), |i: int| row[keys[i]])
}

/// A row has its indices in increasing order in one way only.
pub proof fn lemma_ordered_keys_unique(row: RowView, a: Seq<usize>, b: Seq<usize>)
    requires
        ordered_keys(row, a),
        ordered_keys(row, b),
    ensures
        a == b,
    decreases a.len(),
{
    if a.len() == 0 {
        if b.len() > 0 {
            assert(b.contains(b[0]));
            assert(a.contains(b[0]));
        }
        assert(a =~= b);
    } else {
        let top = a.last();
        assert(a.contains(top));
        assert(b.contains(top));
        let j = choose|j: int| 0 <= j < b.len() && b[j] == top;
        if j < b.len() - 1 {
            let above = b[j + 1];
            assert(b.contains(above));
            assert(a.contains(above));
            let i = choose|i: int| 0 <= i < a.len() && a[i] == above;
            if i < a.len() - 1 {
                assert(a[i] < a[a.len() - 1]);
            }
        }
        let rest = row.remove(top);
        assert forall|k: usize| rest.contains_key(k) <==> a.drop_last().contains(k) by {
            if a.drop_last().contains(k) {
                let i = choose|i: int| 0 <= i < a.drop_last().len() && a.drop_last()[i] == k;
                assert(a[i] == k);
                assert(a[i] < a[a.len() - 1]);
                assert(a.contains(k));
            }
            if rest.contains_key(k) {
                assert(a.contains(k));
                let i = choose|i: int| 0 <= i < a.len() && a[i] == k;
                assert(a.drop_last()[i] == k);
            }
        }
        assert forall|k: usize| rest.contains_key(k) <==> b.drop_last().contains(k) by {
            if b.drop_last().contains(k) {
                let i = choose|i: int| 0 <= i < b.drop_last().len() && b.drop_last()[i] == k;
                assert(b[i] == k);
                assert(b[i] < b[b.len() - 1]);
                assert(b.contains(k));
            }
            if rest.contains_key(k) {
                assert(b.contains(k));
                let i = choose|i: int| 0 <= i < b.len() && b[i] == k;
                assert(b.drop_last()[i] == k);
            }
        }
        lemma_ordered_keys_unique(rest, a.drop_last(), b.drop_last());
        assert(a =~= a.drop_last().push(top));
        assert(b =~= b.drop_last().push(top));
    }
}

impl Table {
    /// One `INSERT` for one row: the literals that `fields` holds, in the
    /// order of their indices, whatever the number of columns.
    pub fn construct_query(&self, fields: BTreeMap<usize, String>) -> (r: Result<String, Error>)
        ensures
            r matches Ok(s) && exists|keys: Seq<usize>|
                ordered_keys(row_view(fields@), keys) && s@ == insert_head(self@) + row_tuple(
                    literals_at(row_view(fields@), keys),
                ),
    {
        let mut values: Vec<String> = Vec::new();
        for kv in it: fields.iter()
            invariant
                values@.len() == it.index(),
                forall|j: int| 0 <= j < it.index() ==> (#[trigger] values@[j])@ == (*it.seq()[j].1)@,
        {
            values.push(kv.1.clone());
        }
        let ghost pairs = fields.iter().remaining();
        let ghost keys = pairs.map_values(|kv: (&usize, &String)| *kv.0);
        assert(values@.len() == pairs.len());
        assert(vstd::std_specs::btree::increasing_seq(keys));
        assert forall|i: int, j: int| 0 <= i < j < keys.len() implies keys[i] < keys[j] by {
            assert(keys[i].cmp_spec(&keys[j]) == Ordering::Less);
        }
        assert forall|k: usize| row_view(fields@).contains_key(k) <==> keys.contains(k) by {
            if fields@.contains_key(k) {
                assert(pairs.contains((&k, &fields@[k])));
                let i = choose|i: int| 0 <= i < pairs.len() && pairs[i] == (&k, &fields@[k]);
                assert(keys[i] == k);
            }
            if keys.contains(k) {
                let i = choose|i: int| 0 <= i < keys.len() && keys[i] == k;
                assert(fields@.contains_key(*pairs[i].0));
            }
        }
        assert(ordered_keys(row_view(fields@), keys));
        assert forall|j: int| 0 <= j < keys.len() implies (#[trigger] values@[j])@ == row_view(
            fields@,
        )[keys[j]] by {
            assert(fields@.contains_key(*pairs[j].0));
            assert(fields@[*pairs[j].0] == *pairs[j].1);
        }
        assert(texts(values@) =~= literals_at(row_view(fields@), keys));
        let mut s = self.head();
        s.append("(");
        s.append(join_with(&values, ",").as_str());
        s.append(")");
        Ok(s)
    }
}

} // verus!
