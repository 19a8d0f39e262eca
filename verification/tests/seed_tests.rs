use catalog_groups::grouping::group_items;
use catalog_groups::seed::seed_rows;

#[test]
fn seed_rows_hold_the_demo_catalog() {
    let rows = seed_rows();
    assert_eq!(rows.len(), 5);
    for (i, r) in rows.iter().enumerate() {
        let n = i + 1;
        assert_eq!(r.category, format!("Category {}", n));
        assert_eq!(r.sub_category, format!("Subcategory {}", n));
        assert_eq!(r.title, format!("Title {}", n));
        assert_eq!(r.link, format!("https://example.com/link{}", n));
    }
}

#[test]
fn seed_rows_group_one_per_key() {
    let out = group_items(seed_rows());
    assert_eq!(out.len(), 5);
    for g in &out {
        assert_eq!(g.items.len(), 1);
    }
}
