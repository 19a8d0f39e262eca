use catalog_groups::grouping::{flatten_grouped, group_items};
use catalog_groups::items::{CatalogRow, GroupedItems, ListItem};

fn row(category: &str, sub_category: &str, title: &str, link: &str) -> CatalogRow {
    CatalogRow {
        category: category.to_string(),
        sub_category: sub_category.to_string(),
        title: title.to_string(),
        link: link.to_string(),
    }
}

fn item(title: &str, link: &str) -> ListItem {
    ListItem { title: title.to_string(), link: link.to_string() }
}

#[test]
fn empty_input_yields_no_groups() {
    let out = group_items(Vec::new());
    assert!(out.is_empty());
}

#[test]
fn single_row_single_group() {
    let out = group_items(vec![row("A", "B", "T", "L")]);
    assert_eq!(
        out,
        vec![GroupedItems {
            category: "A".to_string(),
            sub_category: "B".to_string(),
            items: vec![item("T", "L")],
        }]
    );
}

#[test]
fn consecutive_equal_keys_collapse() {
    let out = group_items(vec![
        row("C1", "S1", "T1", "L1"),
        row("C1", "S1", "T2", "L2"),
        row("C2", "S2", "T3", "L3"),
    ]);
    assert_eq!(
        out,
        vec![
            GroupedItems {
                category: "C1".to_string(),
                sub_category: "S1".to_string(),
                items: vec![item("T1", "L1"), item("T2", "L2")],
            },
            GroupedItems {
                category: "C2".to_string(),
                sub_category: "S2".to_string(),
                items: vec![item("T3", "L3")],
            },
        ]
    );
}

#[test]
fn unsorted_repeated_key_gives_separate_groups() {
    // the projector does not re-sort: a key that reappears after another key
    // opens a second group for the same key
    let out = group_items(vec![
        row("A", "1", "x", "lx"),
        row("B", "2", "y", "ly"),
        row("A", "1", "z", "lz"),
    ]);
    assert_eq!(out.len(), 3);
    assert_eq!((out[0].category.as_str(), out[0].sub_category.as_str()), ("A", "1"));
    assert_eq!((out[1].category.as_str(), out[1].sub_category.as_str()), ("B", "2"));
    assert_eq!((out[2].category.as_str(), out[2].sub_category.as_str()), ("A", "1"));
    assert_eq!(out[0].items, vec![item("x", "lx")]);
    assert_eq!(out[1].items, vec![item("y", "ly")]);
    assert_eq!(out[2].items, vec![item("z", "lz")]);
}

#[test]
fn all_rows_one_key_single_group() {
    let out = group_items(vec![
        row("C", "S", "T1", "L1"),
        row("C", "S", "T2", "L2"),
        row("C", "S", "T3", "L3"),
    ]);
    assert_eq!(out.len(), 1);
    assert_eq!(out[0].items, vec![item("T1", "L1"), item("T2", "L2"), item("T3", "L3")]);
}

#[test]
fn group_count_equals_adjacent_key_changes() {
    // keys run A, A, B, B, C: two changes after the first key, three groups
    let out = group_items(vec![
        row("A", "s", "t1", "l1"),
        row("A", "s", "t2", "l2"),
        row("B", "s", "t3", "l3"),
        row("B", "s", "t4", "l4"),
        row("C", "s", "t5", "l5"),
    ]);
    assert_eq!(out.len(), 3);
}

#[test]
fn order_within_group_follows_input() {
    let out = group_items(vec![
        row("C", "S", "first", "l1"),
        row("C", "S", "second", "l2"),
        row("C", "S", "third", "l3"),
        row("D", "S", "other", "l4"),
    ]);
    let titles: Vec<&str> = out[0].items.iter().map(|it| it.title.as_str()).collect();
    assert_eq!(titles, vec!["first", "second", "third"]);
}

#[test]
fn regroup_after_flatten_is_identity() {
    let groups = group_items(vec![
        row("C1", "S1", "T1", "L1"),
        row("C1", "S1", "T2", "L2"),
        row("C2", "S2", "T3", "L3"),
        row("C1", "S1", "T4", "L4"),
    ]);
    let regrouped = group_items(flatten_grouped(&groups));
    assert_eq!(regrouped, groups);
}

#[test]
fn flatten_restores_rows() {
    let rows = vec![
        row("C1", "S1", "T1", "L1"),
        row("C1", "S1", "T2", "L2"),
        row("C2", "S2", "T3", "L3"),
    ];
    let groups = group_items(rows.clone());
    assert_eq!(flatten_grouped(&groups), rows);
}
