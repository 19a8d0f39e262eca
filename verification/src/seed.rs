//! The demo catalog content: five fixed rows, one per category, that the
//! store is populated with when it is empty.

use vstd::prelude::*;

use crate::items::{rows_model, CatalogRow, RowModel};

verus! {

/// The five demo rows, as models.
pub open spec fn seed_model() -> Seq<RowModel> {
    seq![
        RowModel {
            category: "Category 1"@,
            sub_category: "Subcategory 1"@,
            title: "Title 1"@,
            link: "https://example.com/link1"@,
        },
        RowModel {
            category: "Category 2"@,
            sub_category: "Subcategory 2"@,
            title: "Title 2"@,
            link: "https://example.com/link2"@,
        },
        RowModel {
            category: "Category 3"@,
            sub_category: "Subcategory 3"@,
            title: "Title 3"@,
            link: "https://example.com/link3"@,
        },
        RowModel {
            category: "Category 4"@,
            sub_category: "Subcategory 4"@,
            title: "Title 4"@,
            link: "https://example.com/link4"@,
        },
        RowModel {
            category: "Category 5"@,
            sub_category: "Subcategory 5"@,
            title: "Title 5"@,
            link: "https://example.com/link5"@,
        },
    ]
}

/// Builds the demo rows that seed an empty store.
pub fn seed_rows() -> (rows: Vec<CatalogRow>)
    ensures
        rows_model(rows@) == seed_model(),
{
    let mut rows: Vec<CatalogRow> = Vec::new();
    rows.push(CatalogRow {
        category: "Category 1".to_string(),
        sub_category: "Subcategory 1".to_string(),
        title: "Title 1".to_string(),
        link: "https://example.com/link1".to_string(),
    });
    rows.push(CatalogRow {
        category: "Category 2".to_string(),
        sub_category: "Subcategory 2".to_string(),
        title: "Title 2".to_string(),
        link: "https://example.com/link2".to_string(),
    });
    rows.push(CatalogRow {
        category: "Category 3".to_string(),
        sub_category: "Subcategory 3".to_string(),
        title: "Title 3".to_string(),
        link: "https://example.com/link3".to_string(),
    });
    rows.push(CatalogRow {
        category: "Category 4".to_string(),
        sub_category: "Subcategory 4".to_string(),
        title: "Title 4".to_string(),
        link: "https://example.com/link4".to_string(),
    });
    rows.push(CatalogRow {
        category: "Category 5".to_string(),
        sub_category: "Subcategory 5".to_string(),
        title: "Title 5".to_string(),
        link: "https://example.com/link5".to_string(),
    });
    proof {
        assert(rows_model(rows@) =~= seed_model());
    }
    rows
}

} // verus!
