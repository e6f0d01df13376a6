use text_edit::{
    caret_to, delete_backward, delete_forward, do_edit_action, insert, EditAction, MouseAction,
    Selection,
};

fn click(column: usize, shift: bool) -> EditAction {
    EditAction::Click(MouseAction { column, shift })
}

#[test]
fn insert_at_the_end_appends() {
    let mut text = String::from("hello");
    let mut selection = Selection::caret(5);
    insert(&mut selection, &mut text, " world");
    assert_eq!(text, "hello world");
    assert_eq!(selection, Selection::caret(11));
}

#[test]
fn delete_backward_removes_a_selected_range() {
    let mut text = String::from("hello");
    let mut selection = Selection::new(0, 5);
    let refused = delete_backward(&mut selection, &mut text);
    assert_eq!(text, "");
    assert_eq!(selection, Selection::caret(0));
    assert_eq!(refused, None);
}

#[test]
fn delete_forward_at_the_end_changes_nothing() {
    let mut text = String::from("ab");
    let mut selection = Selection::caret(2);
    let refused = delete_forward(&mut selection, &mut text);
    assert_eq!(text, "ab");
    assert_eq!(selection, Selection::caret(2));
    assert_eq!(refused, None);
}

#[test]
fn click_on_a_boundary_places_the_caret() {
    let mut text = String::from("hello");
    let mut selection = Selection::new(1, 4);
    let refused = do_edit_action(&mut selection, click(3, false), &mut text);
    assert_eq!(selection, Selection::caret(3));
    assert_eq!(refused, None);
    assert_eq!(text, "hello");
}

#[test]
fn click_inside_a_cluster_is_refused() {
    // 'e' and a combining acute accent form one cluster of three bytes.
    let mut text = String::from("e\u{301}xy");
    assert_eq!(text.len(), 5);
    let mut selection = Selection::caret(4);
    let refused = do_edit_action(&mut selection, click(1, false), &mut text);
    assert_eq!(selection, Selection::caret(4));
    assert_eq!(refused, Some(1));
    assert_eq!(text, "e\u{301}xy");
}

#[test]
fn click_inside_a_character_is_refused() {
    let mut text = String::from("e\u{301}xy");
    let mut selection = Selection::caret(0);
    let refused = do_edit_action(&mut selection, click(2, false), &mut text);
    assert_eq!(selection, Selection::caret(0));
    assert_eq!(refused, Some(2));
}

#[test]
fn click_beyond_the_text_is_refused() {
    let mut text = String::from("hello");
    let mut selection = Selection::caret(2);
    let refused = do_edit_action(&mut selection, click(6, false), &mut text);
    assert_eq!(selection, Selection::caret(2));
    assert_eq!(refused, Some(6));
}

#[test]
fn backspace_five_times_empties_hello() {
    let mut text = String::from("hello");
    let mut selection = Selection::caret(5);
    let refused = do_edit_action(&mut selection, EditAction::Backspace, &mut text);
    assert_eq!(text, "hell");
    assert_eq!(selection, Selection::caret(4));
    assert_eq!(refused, None);
    for _ in 0..4 {
        do_edit_action(&mut selection, EditAction::Backspace, &mut text);
    }
    assert_eq!(text, "");
    assert_eq!(selection, Selection::caret(0));
}

#[test]
fn backspace_on_an_empty_text_changes_nothing() {
    let mut text = String::new();
    let mut selection = Selection::caret(0);
    let refused = do_edit_action(&mut selection, EditAction::Backspace, &mut text);
    assert_eq!(text, "");
    assert_eq!(selection, Selection::caret(0));
    assert_eq!(refused, None);
}

#[test]
fn caret_to_twice_is_caret_to_once() {
    let mut text = String::from("ae\u{301}b");
    for to in 0..7 {
        let mut once = Selection::new(0, 5);
        let first = caret_to(&mut once, &mut text, to);
        let mut twice = once;
        let second = caret_to(&mut twice, &mut text, to);
        assert_eq!(once, twice);
        assert_eq!(first, second);
    }
    assert_eq!(text, "ae\u{301}b");
}

#[test]
fn caret_to_accepts_boundaries_only() {
    let mut text = String::from("ae\u{301}b");
    let expected = [None, None, Some(2), Some(3), None, None, Some(6)];
    for to in 0..7 {
        let mut selection = Selection::new(0, 5);
        let refused = caret_to(&mut selection, &mut text, to);
        assert_eq!(refused, expected[to]);
        if refused.is_none() {
            assert_eq!(selection, Selection::caret(to));
        } else {
            assert_eq!(selection, Selection::new(0, 5));
        }
    }
}
