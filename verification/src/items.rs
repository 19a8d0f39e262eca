//! The catalog's data shapes: a flat stored row, a (title, link) entry, and a
//! group of entries sharing one (category, sub-category) key, together with
//! their mathematical models.

use vstd::prelude::*;

verus! {

/// Model of one stored row: every field as a character sequence.
#[verifier::ext_equal]
pub ghost struct RowModel {
    pub category: Seq<char>,
    pub sub_category: Seq<char>,
    pub title: Seq<char>,
    pub link: Seq<char>,
}

/// Model of one emitted group: its key pair and the ordered (title, link)
/// pairs that share it.
#[verifier::ext_equal]
pub ghost struct GroupModel {
    pub category: Seq<char>,
    pub sub_category: Seq<char>,
    pub items: Seq<(Seq<char>, Seq<char>)>,
}

/// One flat catalog row as read from the store.
#[derive(Clone, Debug, PartialEq, Eq)]
pub struct CatalogRow {
    pub category: String,
    pub sub_category: String,
    pub title: String,
    pub link: String,
}

/// One entry of a group: a title and its link.
#[derive(Clone, Debug, PartialEq, Eq)]
pub struct ListItem {
    pub title: String,
    pub link: String,
}

/// Rows collapsed under one (category, sub-category) key, entries in input
/// order.
#[derive(Clone, Debug, PartialEq, Eq)]
pub struct GroupedItems {
    pub category: String,
    pub sub_category: String,
    pub items: Vec<ListItem>,
}

impl View for CatalogRow {
    type V = RowModel;

    open spec fn view(&self) -> RowModel {
        RowModel {
            category: self.category@,
            sub_category: self.sub_category@,
            title: self.title@,
            link: self.link@,
        }
    }
}

impl View for ListItem {
    type V = (Seq<char>, Seq<char>);

    open spec fn view(&self) -> (Seq<char>, Seq<char>) {
        (self.title@, self.link@)
    }
}

impl View for GroupedItems {
    type V = GroupModel;

    open spec fn view(&self) -> GroupModel {
        GroupModel {
            category: self.category@,
            sub_category: self.sub_category@,
            items: self.items@.map_values(|it: ListItem| it@),
        }
    }
}

/// The models of a sequence of rows.
pub open spec fn rows_model(rows: Seq<CatalogRow>) -> Seq<RowModel> {
    rows.map_values(|r: CatalogRow| r@)
}

/// The models of a sequence of groups.
pub open spec fn groups_model(groups: Seq<GroupedItems>) -> Seq<GroupModel> {
    groups.map_values(|g: GroupedItems| g@)
}

/// The key a row is grouped by.
pub open spec fn row_key(r: RowModel) -> (Seq<char>, Seq<char>) {
    (r.category, r.sub_category)
}

/// The key a group collects.
pub open spec fn group_key(g: GroupModel) -> (Seq<char>, Seq<char>) {
    (g.category, g.sub_category)
}

} // verus!
