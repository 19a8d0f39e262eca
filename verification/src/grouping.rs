//! The grouping projector: a single pass over a flat sequence of rows that
//! collapses consecutive rows sharing the same (category, sub-category) key
//! into one group, keeping the rows' order.
//!
//! The caller is expected to hand the rows over sorted by category then
//! sub-category; the projector does not re-sort, so a key that reappears
//! after a different one opens a fresh group.

use vstd::prelude::*;

use crate::items::{
    group_key, groups_model, row_key, rows_model, CatalogRow, GroupModel, GroupedItems, ListItem,
    RowModel,
};

verus! {

/// The single group a lone row starts.
pub open spec fn group_of_row(r: RowModel) -> GroupModel {
    GroupModel {
        category: r.category,
        sub_category: r.sub_category,
        items: seq![(r.title, r.link)],
    }
}

/// What grouping a sequence of rows yields: walking the rows in order, a row
/// whose key equals the key of the group currently open joins it; any other
/// row opens a new group.
pub open spec fn group_rows(rows: Seq<RowModel>) -> Seq<GroupModel>
    decreases rows.len(),
{
    if rows.len() == 0 {
        Seq::empty()
    } else {
        let prev = group_rows(rows.drop_last());
        let r = rows.last();
        if prev.len() > 0 && group_key(prev.last()) == row_key(r) {
            prev.update(
                prev.len() - 1,
                GroupModel {
                    category: prev.last().category,
                    sub_category: prev.last().sub_category,
                    items: prev.last().items.push((r.title, r.link)),
                },
            )
        } else {
            prev.push(group_of_row(r))
        }
    }
}

/// The rows a single group flattens back to, in order.
pub open spec fn rows_of_group(g: GroupModel) -> Seq<RowModel> {
    g.items.map_values(
        |p: (Seq<char>, Seq<char>)|
            RowModel { category: g.category, sub_category: g.sub_category, title: p.0, link: p.1 },
    )
}

/// The rows a group sequence flattens back to, group by group.
pub open spec fn flatten_groups(groups: Seq<GroupModel>) -> Seq<RowModel>
    decreases groups.len(),
{
    if groups.len() == 0 {
        Seq::empty()
    } else {
        flatten_groups(groups.drop_last()) + rows_of_group(groups.last())
    }
}

/// Collapses consecutive rows with equal (category, sub-category) keys into
/// groups, preserving the rows' order within each group and the order in
/// which keys first appear. Empty input yields no groups.
pub fn group_items(rows: Vec<CatalogRow>) -> (out: Vec<GroupedItems>)
    ensures
        groups_model(out@) == group_rows(rows_model(rows@)),
        rows@.len() == 0 ==> out@.len() == 0,
{
    let ghost rs = rows_model(rows@);
    let mut out: Vec<GroupedItems> = Vec::new();
    let mut current: Option<GroupedItems> = None;
    let mut i: usize = 0;
    while i < rows.len()
        invariant
            i <= rows.len(),
            rs == rows_model(rows@),
            match current {
                Option::Some(g) => group_rows(rs.take(i as int)) == groups_model(out@).push(g@),
                Option::None => i == 0 && out@.len() == 0,
            },
        decreases rows.len() - i,
    {
        let row = &rows[i];
        proof {
            assert(rs.take(i + 1).drop_last() =~= rs.take(i as int));
            assert(rs.take(i + 1).last() == rows@[i as int]@);
        }
        let starts_new = match &current {
            Option::Some(g) => !(g.category == row.category && g.sub_category == row.sub_category),
            Option::None => true,
        };
        if starts_new {
            match current {
                Option::Some(g) => {
                    let ghost gm = g@;
                    let ghost old_out = out@;
                    out.push(g);
                    proof {
                        assert(groups_model(out@) =~= groups_model(old_out).push(gm));
                    }
                }
                Option::None => {}
            }
            let mut items: Vec<ListItem> = Vec::new();
            items.push(ListItem { title: row.title.clone(), link: row.link.clone() });
            let g = GroupedItems {
                category: row.category.clone(),
                sub_category: row.sub_category.clone(),
                items,
            };
            proof {
                let ghost prev = group_rows(rs.take(i as int));
                assert(g@ =~= group_of_row(rs.take(i + 1).last()));
                assert(groups_model(out@) == prev);
                assert(!(prev.len() > 0 && group_key(prev.last()) == row_key(
                    rs.take(i + 1).last(),
                )));
                assert(group_rows(rs.take(i + 1)) == prev.push(group_of_row(
                    rs.take(i + 1).last(),
                )));
                assert(group_rows(rs.take(i + 1)) =~= groups_model(out@).push(g@));
            }
            current = Some(g);
        } else {
            let ghost prev = group_rows(rs.take(i as int));
            match &mut current {
                Option::Some(g) => {
                    g.items.push(ListItem { title: row.title.clone(), link: row.link.clone() });
                    proof {
                        assert(g@.items =~= prev.last().items.push(
                            (rs.take(i + 1).last().title, rs.take(i + 1).last().link),
                        ));
                        assert(g@ =~= GroupModel {
                            category: prev.last().category,
                            sub_category: prev.last().sub_category,
                            items: prev.last().items.push(
                                (rs.take(i + 1).last().title, rs.take(i + 1).last().link),
                            ),
                        });
                        assert(group_rows(rs.take(i + 1)) =~= groups_model(out@).push(g@));
                    }
                }
                Option::None => {
                    proof {
                        assert(false);
                    }
                }
            }
        }
        i = i + 1;
    }
    proof {
        assert(rs.take(rows@.len() as int) =~= rs);
    }
    match current {
        Option::Some(g) => {
            let ghost old_out = out@;
            out.push(g);
            proof {
                assert(groups_model(out@) =~= groups_model(old_out).push(g@));
            }
        }
        Option::None => {}
    }
    out
}

/// Flattens groups back to the flat rows they were built from, keeping the
/// groups' order and, inside each group, the entries' order.
pub fn flatten_grouped(groups: &Vec<GroupedItems>) -> (out: Vec<CatalogRow>)
    ensures
        rows_model(out@) == flatten_groups(groups_model(groups@)),
{
    let ghost gm = groups_model(groups@);
    let mut out: Vec<CatalogRow> = Vec::new();
    let mut i: usize = 0;
    while i < groups.len()
        invariant
            i <= groups.len(),
            gm == groups_model(groups@),
            rows_model(out@) == flatten_groups(gm.take(i as int)),
        decreases groups.len() - i,
    {
        let g = &groups[i];
        let mut j: usize = 0;
        while j < g.items.len()
            invariant
                i < groups.len(),
                j <= g.items.len(),
                g == groups@[i as int],
                gm == groups_model(groups@),
                rows_model(out@) == flatten_groups(gm.take(i as int))
                    + rows_of_group(gm[i as int]).take(j as int),
            decreases g.items.len() - j,
        {
            let entry = &g.items[j];
            let row = CatalogRow {
                category: g.category.clone(),
                sub_category: g.sub_category.clone(),
                title: entry.title.clone(),
                link: entry.link.clone(),
            };
            let ghost old_out = out@;
            out.push(row);
            proof {
                assert(gm[i as int].items[j as int] == (entry.title@, entry.link@));
                assert(rows_of_group(gm[i as int])[j as int] =~= RowModel {
                    category: g.category@,
                    sub_category: g.sub_category@,
                    title: entry.title@,
                    link: entry.link@,
                });
                assert(rows_model(out@) =~= rows_model(old_out).push(
                    rows_of_group(gm[i as int])[j as int],
                ));
                assert(rows_of_group(gm[i as int]).take(j + 1)
                    =~= rows_of_group(gm[i as int]).take(j as int).push(
                    rows_of_group(gm[i as int])[j as int],
                ));
            }
            j = j + 1;
        }
        proof {
            assert(rows_of_group(gm[i as int]).take(g.items@.len() as int)
                =~= rows_of_group(gm[i as int]));
            assert(gm.take(i + 1).drop_last() =~= gm.take(i as int));
            assert(gm.take(i + 1).last() == gm[i as int]);
            assert(flatten_groups(gm.take(i + 1))
                =~= flatten_groups(gm.take(i as int))
                + rows_of_group(gm[i as int]));
        }
        i = i + 1;
    }
    proof {
        assert(gm.take(groups@.len() as int) =~= gm);
    }
    out
}

} // verus!
