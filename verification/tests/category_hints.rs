use ham::category_hints::AncestorWalk;

fn parent_in(table: &[(i64, Option<i64>)], id: i64) -> Option<i64> {
    table.iter().find(|(c, _)| *c == id).and_then(|(_, p)| *p)
}

fn ancestor_ids(table: &[(i64, Option<i64>)], start: i64) -> Vec<i64> {
    let mut walk = AncestorWalk::new(start);
    while let Some(id) = walk.pending() {
        walk.parent_found(parent_in(table, id));
    }
    walk.into_ids()
}

#[test]
fn inherited_hint_categories_run_root_first() {
    let table = [(1, None), (2, Some(1)), (3, Some(2)), (4, Some(1))];
    assert_eq!(ancestor_ids(&table, 3), vec![1, 2, 3]);
    assert_eq!(ancestor_ids(&table, 4), vec![1, 4]);
    assert_eq!(ancestor_ids(&table, 1), vec![1]);
}

#[test]
fn unknown_category_walk_holds_only_itself() {
    assert_eq!(ancestor_ids(&[], 9), vec![9]);
}

#[test]
fn walk_waits_for_each_parent_in_turn() {
    let mut walk = AncestorWalk::new(5);
    assert_eq!(walk.pending(), Some(5));
    walk.parent_found(Some(2));
    assert_eq!(walk.pending(), Some(2));
    walk.parent_found(None);
    assert_eq!(walk.pending(), None);
    assert_eq!(walk.into_ids(), vec![2, 5]);
}
