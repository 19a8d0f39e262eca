//! Properties of the grouping projector: how many groups come out, that
//! regrouping a flattened grouping changes nothing, and that each group holds
//! exactly the matching rows in their original order.

use vstd::prelude::*;

use crate::grouping::{flatten_groups, group_of_row, group_rows, rows_of_group};
use crate::items::{group_key, row_key, GroupModel, RowModel};

verus! {

/// How many adjacent key changes a row sequence holds: its first row counts
/// as one, and every later row whose key differs from its predecessor's
/// counts as one more. For rows sorted by key this is the number of distinct
/// keys.
pub open spec fn count_key_changes(rows: Seq<RowModel>) -> nat
    decreases rows.len(),
{
    if rows.len() == 0 {
        0
    } else if rows.len() == 1 {
        1
    } else if row_key(rows.last()) == row_key(rows[rows.len() - 2]) {
        count_key_changes(rows.drop_last())
    } else {
        count_key_changes(rows.drop_last()) + 1
    }
}

/// A non-empty row sequence yields at least one group, and the last group
/// carries the key of the last row.
pub proof fn lemma_last_group_key(rows: Seq<RowModel>)
    requires
        rows.len() > 0,
    ensures
        group_rows(rows).len() > 0,
        group_key(group_rows(rows).last()) == row_key(rows.last()),
{
}

/// The number of emitted groups equals the number of adjacent key changes in
/// the input; in particular, for input sorted by (category, sub-category) it
/// equals the number of distinct keys.
pub proof fn lemma_group_count(rows: Seq<RowModel>)
    ensures
        group_rows(rows).len() == count_key_changes(rows),
    decreases rows.len(),
{
    if rows.len() == 0 {
    } else {
        let s = rows.drop_last();
        lemma_group_count(s);
        if s.len() > 0 {
            lemma_last_group_key(s);
        }
    }
}

/// Shape every grouping result has: no group is empty, and no two adjacent
/// groups share a key.
pub open spec fn groups_well_formed(groups: Seq<GroupModel>) -> bool {
    &&& forall|a: int| 0 <= a < groups.len() ==> (#[trigger] groups[a]).items.len() >= 1
    &&& forall|a: int|
        0 <= a < groups.len() - 1 ==> group_key(#[trigger] groups[a]) != group_key(groups[a + 1])
}

/// Every grouping result is well formed: each group holds at least one item
/// and adjacent groups carry different keys.
pub proof fn lemma_groups_well_formed(rows: Seq<RowModel>)
    ensures
        groups_well_formed(group_rows(rows)),
    decreases rows.len(),
{
    if rows.len() == 0 {
    } else {
        let s = rows.drop_last();
        lemma_groups_well_formed(s);
        let prev = group_rows(s);
        let gs = group_rows(rows);
        if prev.len() > 0 && group_key(prev.last()) == row_key(rows.last()) {
            assert(forall|a: int| 0 <= a < gs.len() ==> (#[trigger] gs[a]).items.len() >= 1);
            assert(forall|a: int|
                0 <= a < gs.len() - 1 ==> group_key(#[trigger] gs[a]) != group_key(gs[a + 1]));
        } else {
            assert(forall|a: int| 0 <= a < gs.len() ==> (#[trigger] gs[a]).items.len() >= 1);
            assert(forall|a: int|
                0 <= a < gs.len() - 1 ==> group_key(#[trigger] gs[a]) != group_key(gs[a + 1]));
        }
    }
}

/// Appending the rows of one group to a row sequence whose grouping does not
/// end in that group's key adds exactly that group to the grouping.
proof fn lemma_group_rows_append_group(rows: Seq<RowModel>, g: GroupModel)
    requires
        g.items.len() >= 1,
        group_rows(rows).len() == 0 || group_key(group_rows(rows).last()) != group_key(g),
    ensures
        group_rows(rows + rows_of_group(g)) == group_rows(rows).push(g),
    decreases g.items.len(),
{
    if g.items.len() == 1 {
        let r = rows_of_group(g)[0];
        assert(rows + rows_of_group(g) =~= rows.push(r));
        assert((rows + rows_of_group(g)).drop_last() =~= rows);
        assert(group_of_row(r) =~= g);
        assert(group_rows(rows + rows_of_group(g)) =~= group_rows(rows).push(g));
    } else {
        let g2 = GroupModel {
            category: g.category,
            sub_category: g.sub_category,
            items: g.items.drop_last(),
        };
        let p = g.items.last();
        let r = RowModel {
            category: g.category,
            sub_category: g.sub_category,
            title: p.0,
            link: p.1,
        };
        lemma_group_rows_append_group(rows, g2);
        let mid = rows + rows_of_group(g2);
        assert(rows + rows_of_group(g) =~= mid.push(r));
        assert(mid.push(r).drop_last() =~= mid);
        let prev = group_rows(mid);
        assert(prev == group_rows(rows).push(g2));
        assert(prev.len() > 0 && group_key(prev.last()) == row_key(r));
        assert(GroupModel {
            category: prev.last().category,
            sub_category: prev.last().sub_category,
            items: prev.last().items.push((r.title, r.link)),
        } =~= g);
        assert(group_rows(mid.push(r)) =~= prev.update(prev.len() - 1, g));
        assert(prev.update(prev.len() - 1, g) =~= group_rows(rows).push(g));
    }
}

/// Grouping the rows a well-formed group sequence flattens to gives back
/// exactly that group sequence.
pub proof fn lemma_group_flatten_identity(groups: Seq<GroupModel>)
    requires
        groups_well_formed(groups),
    ensures
        group_rows(flatten_groups(groups)) == groups,
    decreases groups.len(),
{
    if groups.len() == 0 {
    } else {
        let init = groups.drop_last();
        assert(groups_well_formed(init));
        lemma_group_flatten_identity(init);
        lemma_group_rows_append_group(flatten_groups(init), groups.last());
        assert(init.push(groups.last()) =~= groups);
    }
}

/// Idempotence of grouping: flattening a grouping back to rows and grouping
/// again yields the same group structure.
pub proof fn lemma_regroup_identity(rows: Seq<RowModel>)
    ensures
        group_rows(flatten_groups(group_rows(rows))) == group_rows(rows),
{
    lemma_groups_well_formed(rows);
    lemma_group_flatten_identity(group_rows(rows));
}

/// All rows sharing a key stand next to each other: between two rows with
/// equal keys no row carries another key. Any input sorted by (category,
/// sub-category) has this shape.
pub open spec fn keys_clustered(rows: Seq<RowModel>) -> bool {
    forall|i: int, j: int, k: int|
        #![trigger rows[i], rows[j], rows[k]]
        0 <= i <= j <= k < rows.len() && row_key(rows[i]) == row_key(rows[k]) ==> row_key(
            rows[j],
        ) == row_key(rows[i])
}

/// Some row of `rows` carries `key`.
pub open spec fn key_occurs(rows: Seq<RowModel>, key: (Seq<char>, Seq<char>)) -> bool {
    exists|r: int| 0 <= r < rows.len() && row_key(#[trigger] rows[r]) == key
}

/// The (title, link) pairs of the rows carrying `key`, in input order.
pub open spec fn matching_pairs(rows: Seq<RowModel>, key: (Seq<char>, Seq<char>)) -> Seq<
    (Seq<char>, Seq<char>),
>
    decreases rows.len(),
{
    if rows.len() == 0 {
        Seq::empty()
    } else if row_key(rows.last()) == key {
        matching_pairs(rows.drop_last(), key).push((rows.last().title, rows.last().link))
    } else {
        matching_pairs(rows.drop_last(), key)
    }
}

/// When no row carries `key`, nothing matches it.
proof fn lemma_matching_pairs_absent(rows: Seq<RowModel>, key: (Seq<char>, Seq<char>))
    requires
        !key_occurs(rows, key),
    ensures
        matching_pairs(rows, key) == Seq::<(Seq<char>, Seq<char>)>::empty(),
    decreases rows.len(),
{
    if rows.len() == 0 {
    } else {
        let s = rows.drop_last();
        assert(row_key(rows[rows.len() - 1]) != key);
        assert(!key_occurs(s, key)) by {
            if key_occurs(s, key) {
                let r0 = choose|r0: int| 0 <= r0 < s.len() && row_key(#[trigger] s[r0]) == key;
                assert(rows[r0] == s[r0]);
                assert(key_occurs(rows, key));
            }
        }
        lemma_matching_pairs_absent(s, key);
    }
}

/// For clustered input the grouping is a partition by key: group keys are
/// pairwise distinct, each occurs in the input, and each group's items are
/// exactly the matching pairs of the input.
proof fn lemma_grouping_partition(rows: Seq<RowModel>)
    requires
        keys_clustered(rows),
    ensures
        forall|a: int, b: int|
            0 <= a < b < group_rows(rows).len() ==> group_key(
                #[trigger] group_rows(rows)[a],
            ) != group_key(#[trigger] group_rows(rows)[b]),
        forall|a: int|
            0 <= a < group_rows(rows).len() ==> key_occurs(
                rows,
                group_key(#[trigger] group_rows(rows)[a]),
            ),
        forall|a: int|
            0 <= a < group_rows(rows).len() ==> (#[trigger] group_rows(rows)[a]).items
                == matching_pairs(rows, group_key(group_rows(rows)[a])),
    decreases rows.len(),
{
    if rows.len() == 0 {
    } else {
        let s = rows.drop_last();
        let r = rows.last();
        let k = row_key(r);
        assert(keys_clustered(s)) by {
            assert forall|i: int, j: int, l: int|
                #![trigger s[i], s[j], s[l]]
                0 <= i <= j <= l < s.len() && row_key(s[i]) == row_key(s[l]) implies row_key(
                s[j],
            ) == row_key(s[i]) by {
                assert(rows[i] == s[i] && rows[j] == s[j] && rows[l] == s[l]);
            }
        }
        lemma_grouping_partition(s);
        let prev = group_rows(s);
        let gs = group_rows(rows);
        // a key of `s` is a key of `rows` at the same place
        assert forall|key: (Seq<char>, Seq<char>)| key_occurs(s, key) implies key_occurs(
            rows,
            key,
        ) by {
            let r0 = choose|r0: int| 0 <= r0 < s.len() && row_key(#[trigger] s[r0]) == key;
            assert(rows[r0] == s[r0]);
        }
        if prev.len() > 0 && group_key(prev.last()) == k {
            // the last row joins the open group; keys are unchanged
            assert forall|a: int, b: int| 0 <= a < b < gs.len() implies group_key(
                #[trigger] gs[a],
            ) != group_key(#[trigger] gs[b]) by {
                assert(group_key(gs[a]) == group_key(prev[a]));
                assert(group_key(gs[b]) == group_key(prev[b]));
            }
            assert forall|a: int| 0 <= a < gs.len() implies key_occurs(
                rows,
                group_key(#[trigger] gs[a]),
            ) by {
                assert(group_key(gs[a]) == group_key(prev[a]));
                assert(key_occurs(s, group_key(prev[a])));
            }
            assert forall|a: int| 0 <= a < gs.len() implies (#[trigger] gs[a]).items
                == matching_pairs(rows, group_key(gs[a])) by {
                if a < gs.len() - 1 {
                    assert(gs[a] == prev[a]);
                    assert(group_key(prev[a]) != group_key(prev.last()));
                    assert(matching_pairs(rows, group_key(prev[a])) == matching_pairs(
                        s,
                        group_key(prev[a]),
                    ));
                } else {
                    assert(group_key(gs[a]) == k);
                    assert(gs[a].items == prev.last().items.push((r.title, r.link)));
                    assert(matching_pairs(rows, k) == matching_pairs(s, k).push(
                        (r.title, r.link),
                    ));
                }
            }
        } else {
            // the last row opens a fresh group with a key absent from `s`
            assert(!key_occurs(s, k)) by {
                if key_occurs(s, k) {
                    let r0 = choose|r0: int| 0 <= r0 < s.len() && row_key(#[trigger] s[r0]) == k;
                    assert(s.len() > 0);
                    lemma_last_group_key(s);
                    assert(row_key(s.last()) != k);
                    assert(rows[r0] == s[r0]);
                    assert(rows[rows.len() - 2] == s[s.len() - 1]);
                    assert(rows[rows.len() - 1] == r);
                    assert(row_key(rows[rows.len() - 2]) == row_key(rows[r0]));
                }
            }
            lemma_matching_pairs_absent(s, k);
            assert forall|a: int, b: int| 0 <= a < b < gs.len() implies group_key(
                #[trigger] gs[a],
            ) != group_key(#[trigger] gs[b]) by {
                if b < gs.len() - 1 {
                    assert(gs[a] == prev[a] && gs[b] == prev[b]);
                } else {
                    assert(gs[a] == prev[a]);
                    assert(key_occurs(s, group_key(prev[a])));
                    assert(group_key(gs[b]) == k);
                }
            }
            assert forall|a: int| 0 <= a < gs.len() implies key_occurs(
                rows,
                group_key(#[trigger] gs[a]),
            ) by {
                if a < gs.len() - 1 {
                    assert(gs[a] == prev[a]);
                    assert(key_occurs(s, group_key(prev[a])));
                } else {
                    assert(row_key(rows[rows.len() - 1]) == group_key(gs[a]));
                }
            }
            assert forall|a: int| 0 <= a < gs.len() implies (#[trigger] gs[a]).items
                == matching_pairs(rows, group_key(gs[a])) by {
                if a < gs.len() - 1 {
                    assert(gs[a] == prev[a]);
                    assert(key_occurs(s, group_key(prev[a])));
                    assert(group_key(prev[a]) != k);
                    assert(matching_pairs(rows, group_key(prev[a])) == matching_pairs(
                        s,
                        group_key(prev[a]),
                    ));
                } else {
                    assert(group_key(gs[a]) == k);
                    assert(matching_pairs(rows, k) =~= Seq::<(Seq<char>, Seq<char>)>::empty().push(
                        (r.title, r.link),
                    ));
                    assert(gs[a].items =~= matching_pairs(rows, k));
                }
            }
        }
    }
}

/// Order preservation: in clustered input — in particular, input sorted by
/// (category, sub-category) — each emitted group's (title, link) pairs are
/// exactly the pairs of the input rows carrying that group's key, in their
/// original order.
pub proof fn lemma_group_order_preservation(rows: Seq<RowModel>, a: int)
    requires
        keys_clustered(rows),
        0 <= a < group_rows(rows).len(),
    ensures
        group_rows(rows)[a].items == matching_pairs(rows, group_key(group_rows(rows)[a])),
{
    lemma_grouping_partition(rows);
}

} // verus!
