use tsticker::bot::StickerSet;
use tsticker::select::{is_selected, retain_selected, selection_summary};

fn set(title: &str) -> StickerSet {
    StickerSet {
        name: title.to_lowercase(),
        title: title.to_string(),
        sticker_type: "regular".to_string(),
        stickers: Vec::new(),
    }
}

#[test]
fn selected_positions_are_kept_in_order() {
    let kept = retain_selected(vec!['a', 'b', 'c', 'd'], &[3, 1]);
    assert_eq!(kept, vec!['b', 'd']);
}

#[test]
fn empty_selection_keeps_nothing() {
    let kept = retain_selected(vec![1, 2, 3], &[]);
    assert_eq!(kept, Vec::<i32>::new());
}

#[test]
fn full_selection_keeps_everything() {
    let kept = retain_selected(vec![1, 2, 3], &[0, 1, 2]);
    assert_eq!(kept, vec![1, 2, 3]);
}

#[test]
fn repeated_and_missing_positions_change_nothing() {
    let kept = retain_selected(vec![10, 20, 30], &[2, 2, 7, 0]);
    assert_eq!(kept, vec![10, 30]);
}

#[test]
fn nothing_to_select_from() {
    let kept = retain_selected(Vec::<u8>::new(), &[0, 1]);
    assert!(kept.is_empty());
}

#[test]
fn selection_agrees_with_filter() {
    let items = vec!["p", "q", "r", "s", "t"];
    let selection = vec![4usize, 0, 2];
    let expected: Vec<&str> = items
        .clone()
        .into_iter()
        .enumerate()
        .filter(|(idx, _)| selection.contains(idx))
        .map(|(_, item)| item)
        .collect();
    assert_eq!(retain_selected(items, &selection), expected);
}

#[test]
fn sets_are_selected_by_position() {
    let kept = retain_selected(vec![set("One"), set("Two"), set("Three")], &[0, 2]);
    let titles: Vec<String> = kept.iter().map(|s| s.to_string()).collect();
    assert_eq!(titles, vec!["One", "Three"]);
}

#[test]
fn membership_is_tested() {
    assert!(is_selected(&[5, 1, 9], 1));
    assert!(is_selected(&[5, 1, 9], 9));
    assert!(!is_selected(&[5, 1, 9], 2));
    assert!(!is_selected(&[], 0));
}

#[test]
fn summary_joins_titles() {
    assert_eq!(selection_summary(&vec![set("One"), set("Two"), set("Three")]), "One, Two, Three");
}

#[test]
fn summary_of_one_set_is_its_title() {
    assert_eq!(selection_summary(&vec![set("Only")]), "Only");
}

#[test]
fn summary_of_no_set_is_empty() {
    assert_eq!(selection_summary(&Vec::new()), "");
}

#[test]
fn summary_keeps_empty_titles() {
    assert_eq!(selection_summary(&vec![set(""), set("B"), set("")]), ", B, ");
}
