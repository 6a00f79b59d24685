use data_db::error::Error;
use data_db::filter::{build_filter_children_recursive, filter_tree_from_rows, FilterRow};
use data_db::model::{Filter, FilterTarget, FilterValueRange};

fn row(rowid: i32, parent_id: Option<i32>, root_id: i32) -> FilterRow {
    FilterRow {
        rowid,
        parent_id,
        in_parent_order: 0,
        root_id,
        target: if parent_id.is_none() { FilterTarget::FilterGroup } else { FilterTarget::Title },
        str_value: format!("v{rowid}"),
        str_value2: String::new(),
        range: if parent_id.is_none() { FilterValueRange::GroupAnd } else { FilterValueRange::StrEqual },
    }
}

fn describe(f: &Filter) -> String {
    let children: Vec<String> = f.children.iter().map(describe).collect();
    format!("{}{{{}}}", f.rowid, children.join(","))
}

#[test]
fn filter_tree_of_no_rows_is_none() {
    match filter_tree_from_rows(1, vec![]) {
        Ok(None) => {}
        _ => panic!("no rows, no tree"),
    }
}

#[test]
fn filter_tree_without_root_row() {
    match filter_tree_from_rows(1, vec![row(2, Some(1), 9), row(3, Some(1), 9)]) {
        Err(Error::RootFilterNotFound { root_id }) => assert_eq!(root_id, 1),
        _ => panic!("no row has root id 1"),
    }
}

#[test]
fn filter_tree_nested() {
    // Rows come in the order of their position in the parent; the top one first.
    let rows = vec![
        row(1, None, 1),
        row(3, Some(2), 1),
        row(2, Some(1), 1),
        row(4, Some(1), 1),
        row(5, Some(2), 1),
    ];
    match filter_tree_from_rows(1, rows) {
        Ok(Some(root)) => {
            assert_eq!(describe(&root), "1{2{3{},5{}},4{}}");
            assert_eq!(root.target, FilterTarget::FilterGroup);
            assert_eq!(root.range, FilterValueRange::GroupAnd);
            assert_eq!(root.children[0].children[0].str_value, "v3");
        }
        _ => panic!("every row hangs below filter 1"),
    }
}

#[test]
fn filter_tree_reports_rows_without_parent() {
    let rows = vec![row(1, None, 1), row(2, Some(1), 1), row(7, Some(6), 1), row(8, None, 1)];
    match filter_tree_from_rows(1, rows) {
        Err(Error::FilterNoParentsDetected(items)) => {
            assert_eq!(items.len(), 2);
            assert_eq!(items[0].filter_id, 7);
            assert_eq!(items[0].parent_id, Some(6));
            assert_eq!(items[0].root_id, 1);
            assert_eq!(items[1].filter_id, 8);
            assert_eq!(items[1].parent_id, None);
        }
        _ => panic!("rows 7 and 8 hang below nothing"),
    }
}

#[test]
fn build_children_splits_rows() {
    let (tree, left) = build_filter_children_recursive(1, vec![row(2, Some(1), 1), row(9, Some(8), 1), row(3, Some(2), 1)]);
    assert_eq!(tree.len(), 1);
    assert_eq!(describe(&tree[0]), "2{3{}}");
    assert_eq!(left.len(), 1);
    assert_eq!(left[0].rowid, 9);
}

#[test]
fn filter_tree_top_is_the_row_with_the_tree_id() {
    // A child listed before the top filter still hangs below it.
    let rows = vec![row(2, Some(1), 1), row(1, None, 1)];
    match filter_tree_from_rows(1, rows) {
        Ok(Some(root)) => assert_eq!(describe(&root), "1{2{}}"),
        _ => panic!("filter 1 is the top and filter 2 hangs below it"),
    }
    match filter_tree_from_rows(1, vec![row(2, Some(1), 1), row(3, Some(2), 1)]) {
        Err(Error::RootFilterNotFound { root_id }) => assert_eq!(root_id, 1),
        _ => panic!("no row is filter 1"),
    }
}

#[test]
fn filter_tree_reports_orphans_in_row_order_and_keeps_child_order() {
    let rows = vec![row(1, None, 1), row(9, Some(42), 1), row(5, Some(1), 1), row(3, Some(1), 1), row(8, Some(7), 1)];
    match filter_tree_from_rows(1, rows) {
        Err(Error::FilterNoParentsDetected(items)) => {
            let ids: Vec<i32> = items.iter().map(|i| i.filter_id).collect();
            assert_eq!(ids, vec![9, 8]);
        }
        _ => panic!("rows 9 and 8 hang below nothing"),
    }
    match filter_tree_from_rows(1, vec![row(1, None, 1), row(5, Some(1), 1), row(3, Some(1), 1), row(4, Some(3), 1)]) {
        Ok(Some(root)) => assert_eq!(describe(&root), "1{5{},3{4{}}}"),
        _ => panic!("every row hangs below filter 1"),
    }
}
