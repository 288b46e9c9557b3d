use git_branch_cleaner::{IndexOutOfRange, Item, List, MarkAction, MarkState, Render};

fn letters() -> List<String> {
    List::new(vec!["a", "b", "c", "d", "e"].into_iter().map(String::from).collect())
}

#[test]
fn list_newable() {
    let list: List<i32> = List::new(vec![1, 2, 3]);
    assert!(list.len() == 3);
}

#[test]
fn new_list_is_unmarked_and_ordered() {
    let list: List<i32> = List::new(vec![7, 8, 9]);
    assert!(!list.empty());
    let all = list.all();
    assert_eq!(all.len(), 3);
    for (i, item) in all.iter().enumerate() {
        assert!(item.mark_state == MarkState::Unmarked);
        assert_eq!(item.data, 7 + i as i32);
    }
    assert!(list.by_state(&MarkState::Marked).is_empty());
}

#[test]
fn empty_list() {
    let list: List<i32> = List::new(vec![]);
    assert_eq!(list.len(), 0);
    assert!(list.empty());
    assert!(list.displayed(0, 3).is_empty());
    assert!(list.by_state(&MarkState::Unmarked).is_empty());
}

#[test]
fn mark_then_select_and_window() {
    let mut list = letters();
    assert_eq!(list.act(&MarkAction::Mark, &[1, 3]), Ok(()));
    let marked: Vec<&str> = list.by_state(&MarkState::Marked).iter().map(|i| i.data.as_str()).collect();
    assert_eq!(marked, vec!["b", "d"]);
    let shown = list.displayed(0, 3);
    let texts: Vec<&str> = shown.iter().map(|i| i.data.as_str()).collect();
    assert_eq!(texts, vec!["a", "b", "c"]);
    assert!(shown[0].mark_state == MarkState::Unmarked);
    assert!(shown[1].mark_state == MarkState::Marked);
    assert!(shown[2].mark_state == MarkState::Unmarked);
}

#[test]
fn by_state_keeps_order_and_earlier_marks() {
    let mut list = letters();
    assert_eq!(list.act(&MarkAction::Mark, &[4]), Ok(()));
    assert_eq!(list.act(&MarkAction::Mark, &[2, 0, 2]), Ok(()));
    let marked: Vec<&str> = list.by_state(&MarkState::Marked).iter().map(|i| i.data.as_str()).collect();
    assert_eq!(marked, vec!["a", "c", "e"]);
    let unmarked: Vec<&str> = list.by_state(&MarkState::Unmarked).iter().map(|i| i.data.as_str()).collect();
    assert_eq!(unmarked, vec!["b", "d"]);
}

#[test]
fn window_past_end_is_empty() {
    let list: List<i32> = List::new(vec![1, 2]);
    assert!(list.displayed(5, 3).is_empty());
    assert!(list.displayed(2, 3).is_empty());
}

#[test]
fn window_is_truncated_at_end() {
    let list: List<i32> = List::new(vec![10, 11, 12, 13, 14]);
    let shown = list.displayed(3, 10);
    assert_eq!(shown.len(), 2);
    assert_eq!(shown[0].data, 13);
    assert_eq!(shown[1].data, 14);
}

#[test]
fn window_exact_and_huge() {
    let list: List<i32> = List::new(vec![10, 11, 12, 13, 14]);
    let shown = list.displayed(1, 3);
    let data: Vec<i32> = shown.iter().map(|i| i.data).collect();
    assert_eq!(data, vec![11, 12, 13]);
    assert_eq!(list.displayed(0, usize::MAX).len(), 5);
    assert!(list.displayed(usize::MAX, usize::MAX).is_empty());
}

#[test]
fn out_of_range_mark_changes_nothing() {
    let mut list = letters();
    assert_eq!(list.act(&MarkAction::Mark, &[0]), Ok(()));
    let r = list.act(&MarkAction::Mark, &[1, 99]);
    assert_eq!(r, Err(IndexOutOfRange { index: 99, len: 5 }));
    let r = list.act(&MarkAction::Mark, &[99]);
    assert_eq!(r, Err(IndexOutOfRange { index: 99, len: 5 }));
    let states: Vec<MarkState> = list.all().iter().map(|i| i.mark_state).collect();
    assert_eq!(
        states,
        vec![MarkState::Marked, MarkState::Unmarked, MarkState::Unmarked, MarkState::Unmarked, MarkState::Unmarked]
    );
}

#[test]
fn out_of_range_names_first_offender() {
    let mut list = letters();
    let r = list.act(&MarkAction::Toggle, &[0, 7, 5, 9]);
    assert_eq!(r, Err(IndexOutOfRange { index: 7, len: 5 }));
    assert!(list.by_state(&MarkState::Marked).is_empty());
}

#[test]
fn toggle_with_duplicates() {
    let mut list = letters();
    assert_eq!(list.act(&MarkAction::Toggle, &[1, 1, 2, 4, 4, 4]), Ok(()));
    let marked: Vec<&str> = list.by_state(&MarkState::Marked).iter().map(|i| i.data.as_str()).collect();
    assert_eq!(marked, vec!["c", "e"]);
    assert_eq!(list.act(&MarkAction::Unmark, &[4, 0]), Ok(()));
    let marked: Vec<&str> = list.by_state(&MarkState::Marked).iter().map(|i| i.data.as_str()).collect();
    assert_eq!(marked, vec!["c"]);
}

#[test]
fn item_from_is_unmarked() {
    let item: Item<String> = Item::from(String::from("x"));
    assert!(item.mark_state == MarkState::Unmarked);
    assert_eq!(item.data, "x");
}

#[test]
fn item_render_form() {
    let mut list = List::new(vec![String::from("feature"), String::from("")]);
    assert_eq!(list.all()[0].render(), "[ ] feature");
    assert_eq!(list.all()[1].render(), "[ ] ");
    assert_eq!(list.act(&MarkAction::Mark, &[0]), Ok(()));
    assert_eq!(list.all()[0].render(), "[x] feature");
}

#[test]
fn list_render_form() {
    let mut list = List::new(vec![String::from("a"), String::from("b")]);
    assert_eq!(list.act(&MarkAction::Toggle, &[1]), Ok(()));
    assert_eq!(list.render(), "[ ] a\n[x] b\n");
    let none: List<String> = List::new(vec![]);
    assert_eq!(none.render(), "");
}
