use text_edit::{
    delete_backward, delete_forward, do_edit_action, offset_for_delete_backwards, EditAction,
    Movement, Selection,
};

#[test]
fn backspace_removes_a_combining_sequence_at_once() {
    let mut text = String::from("ae\u{301}");
    let mut selection = Selection::caret(4);
    let refused = delete_backward(&mut selection, &mut text);
    assert_eq!(text, "a");
    assert_eq!(selection, Selection::caret(1));
    assert_eq!(refused, None);
}

#[test]
fn backspace_removes_an_emoji_sequence_at_once() {
    // man, joiner, woman, joiner, girl: one cluster of 18 bytes
    let family = "\u{1F468}\u{200D}\u{1F469}\u{200D}\u{1F467}";
    assert_eq!(family.len(), 18);
    let mut text = format!("x{}", family);
    let mut selection = Selection::caret(19);
    let refused = do_edit_action(&mut selection, EditAction::Backspace, &mut text);
    assert_eq!(text, "x");
    assert_eq!(selection, Selection::caret(1));
    assert_eq!(refused, None);
}

#[test]
fn backspace_removes_one_flag_of_two() {
    let mut text = String::from("\u{1F1F7}\u{1F1F8}\u{1F1EE}\u{1F1F4}");
    let mut selection = Selection::caret(16);
    delete_backward(&mut selection, &mut text);
    assert_eq!(text, "\u{1F1F7}\u{1F1F8}");
    assert_eq!(selection, Selection::caret(8));
}

#[test]
fn backspace_removes_a_line_break_of_two_characters() {
    let mut text = String::from("a\r\nb");
    let mut selection = Selection::caret(3);
    delete_backward(&mut selection, &mut text);
    assert_eq!(text, "ab");
    assert_eq!(selection, Selection::caret(1));
}

#[test]
fn backspace_in_the_middle_keeps_both_sides() {
    let mut text = String::from("héllo");
    let mut selection = Selection::caret(3);
    delete_backward(&mut selection, &mut text);
    assert_eq!(text, "hllo");
    assert_eq!(selection, Selection::caret(1));
}

#[test]
fn offset_for_delete_backwards_is_the_previous_boundary() {
    let text = String::from("ae\u{301}b");
    assert_eq!(offset_for_delete_backwards(&Selection::caret(0), &text), 0);
    assert_eq!(offset_for_delete_backwards(&Selection::caret(1), &text), 0);
    assert_eq!(offset_for_delete_backwards(&Selection::caret(4), &text), 1);
    assert_eq!(offset_for_delete_backwards(&Selection::caret(5), &text), 4);
    // from inside the cluster, its start
    assert_eq!(offset_for_delete_backwards(&Selection::caret(2), &text), 1);
    // only the active end counts
    assert_eq!(offset_for_delete_backwards(&Selection::new(0, 5), &text), 4);
}

#[test]
fn delete_backward_takes_a_range_in_either_direction() {
    let mut text = String::from("hello world");
    let mut selection = Selection::new(8, 2);
    let refused = delete_backward(&mut selection, &mut text);
    assert_eq!(text, "herld");
    assert_eq!(selection, Selection::caret(2));
    assert_eq!(refused, None);
}

#[test]
fn delete_forward_removes_the_next_cluster() {
    let mut text = String::from("ae\u{301}b");
    let mut selection = Selection::caret(1);
    let refused = delete_forward(&mut selection, &mut text);
    assert_eq!(text, "ab");
    assert_eq!(selection, Selection::caret(1));
    assert_eq!(refused, None);
}

#[test]
fn delete_forward_at_the_start_keeps_the_caret() {
    let mut text = String::from("hello");
    let mut selection = Selection::caret(0);
    do_edit_action(&mut selection, EditAction::Delete, &mut text);
    assert_eq!(text, "ello");
    assert_eq!(selection, Selection::caret(0));
}

#[test]
fn delete_forward_takes_a_range_like_delete_backward() {
    let mut text = String::from("hello world");
    let mut selection = Selection::new(5, 11);
    let refused = delete_forward(&mut selection, &mut text);
    assert_eq!(text, "hello");
    assert_eq!(selection, Selection::caret(5));
    assert_eq!(refused, None);
}

#[test]
fn delete_forward_never_touches_what_is_before_the_caret() {
    let source = "a\u{1F1F7}\u{1F1F8}e\u{301}\r\nz";
    for at in [0usize, 1, 9, 12, 14] {
        let mut text = String::from(source);
        let mut selection = Selection::caret(at);
        delete_forward(&mut selection, &mut text);
        assert_eq!(&text[..at], &source[..at]);
        assert!(text.len() < source.len());
        assert_eq!(selection, Selection::caret(at));
    }
}

#[test]
fn jump_backspace_deletes_to_the_start_of_the_line() {
    let mut text = String::from("hello world");
    let mut selection = Selection::caret(5);
    let action = EditAction::JumpBackspace(Movement::LeftOfLine);
    let refused = do_edit_action(&mut selection, action, &mut text);
    assert_eq!(text, " world");
    assert_eq!(selection, Selection::caret(0));
    assert_eq!(refused, None);
}

#[test]
fn jump_delete_deletes_to_the_end_of_the_line() {
    let mut text = String::from("hello world");
    let mut selection = Selection::caret(5);
    let action = EditAction::JumpDelete(Movement::RightOfLine);
    do_edit_action(&mut selection, action, &mut text);
    assert_eq!(text, "hello");
    assert_eq!(selection, Selection::caret(5));
}

#[test]
fn jump_delete_at_the_end_changes_nothing() {
    let mut text = String::from("hello");
    let mut selection = Selection::caret(5);
    let action = EditAction::JumpDelete(Movement::RightOfLine);
    let refused = do_edit_action(&mut selection, action, &mut text);
    assert_eq!(text, "hello");
    assert_eq!(selection, Selection::caret(5));
    assert_eq!(refused, None);
}

#[test]
fn jump_backspace_extends_the_selection_first() {
    let mut text = String::from("abcdef");
    let mut selection = Selection::new(4, 2);
    let action = EditAction::JumpBackspace(Movement::Left);
    do_edit_action(&mut selection, action, &mut text);
    assert_eq!(text, "aef");
    assert_eq!(selection, Selection::caret(1));
}

#[test]
fn deletion_that_joins_a_cluster_refuses_the_caret() {
    // without the 'x' the two line break characters form one cluster
    let mut text = String::from("\rx\n");
    let mut selection = Selection::caret(2);
    let refused = delete_backward(&mut selection, &mut text);
    assert_eq!(text, "\r\n");
    assert_eq!(refused, Some(1));
    assert_eq!(selection, Selection::caret(2));
    assert!(selection.is_valid_in(&text));
}

#[test]
fn refused_caret_can_be_left_beyond_the_text() {
    let mut text = String::from("\r\u{e9}\n");
    let mut selection = Selection::caret(3);
    let refused = delete_backward(&mut selection, &mut text);
    assert_eq!(text, "\r\n");
    assert_eq!(refused, Some(1));
    assert_eq!(selection, Selection::caret(3));
    assert!(selection.end > text.len());
    assert!(!selection.fits_in(&text));
}

#[test]
fn range_deletion_that_joins_a_cluster_still_places_the_caret() {
    // without "xy" the two line break characters form one cluster, and
    // offset 1 lies inside it
    for (start, end) in [(1usize, 3usize), (3, 1)] {
        let mut text = String::from("\rxy\n");
        let mut selection = Selection::new(start, end);
        assert!(selection.is_valid_in(&text));
        let refused = delete_backward(&mut selection, &mut text);
        assert_eq!(text, "\r\n");
        assert_eq!(selection, Selection::caret(1));
        assert_eq!(refused, None);
        assert!(selection.max() <= text.len());
        assert!(selection.fits_in(&text));
        assert!(!selection.is_valid_in(&text));
    }
}

#[test]
fn forward_range_deletion_that_joins_a_cluster_places_the_caret() {
    let mut text = String::from("\rxy\n");
    let mut selection = Selection::new(1, 3);
    let refused = delete_forward(&mut selection, &mut text);
    assert_eq!(text, "\r\n");
    assert_eq!(selection, Selection::caret(1));
    assert_eq!(refused, None);
}

#[test]
fn range_deleting_actions_that_join_a_cluster_place_the_caret() {
    for action in [
        EditAction::Backspace,
        EditAction::Delete,
        EditAction::JumpBackspace(Movement::Left),
        EditAction::JumpDelete(Movement::Right),
    ] {
        let mut text = String::from("a\r\u{e9}\u{e9}\u{e9}\n");
        // the jumps extend 2..6 to 2..4 and to 2..7
        let jumps = matches!(action, EditAction::JumpBackspace(_) | EditAction::JumpDelete(_));
        let mut selection = if jumps { Selection::new(2, 6) } else { Selection::new(2, 8) };
        let refused = do_edit_action(&mut selection, action.clone(), &mut text);
        assert_eq!(refused, None);
        assert_eq!(selection, Selection::caret(2));
        assert!(selection.max() <= text.len());
        match action {
            EditAction::JumpBackspace(_) => assert_eq!(text, "a\r\u{e9}\u{e9}\n"),
            EditAction::JumpDelete(_) => assert_eq!(text, "a\r\n"),
            _ => assert_eq!(text, "a\r\n"),
        }
    }
}

#[test]
fn range_deletion_always_leaves_a_caret_within_the_text() {
    let sample = "\r\u{e9}\n\u{1F1F7}\u{1F1F8}\u{1F1EE}e\u{301}\u{301}";
    let text = String::from(sample);
    let boundaries: Vec<usize> = (0..=text.len())
        .filter(|&offset| Selection::caret(offset).is_valid_in(&text))
        .collect();
    for &start in &boundaries {
        for &end in &boundaries {
            if start == end {
                continue;
            }
            let low = start.min(end);
            let high = start.max(end);
            let mut backward = String::from(sample);
            let mut selection = Selection::new(start, end);
            let refused = delete_backward(&mut selection, &mut backward);
            assert_eq!(refused, None);
            assert_eq!(selection, Selection::caret(low));
            assert_eq!(backward, format!("{}{}", &sample[..low], &sample[high..]));
            assert!(selection.end <= backward.len());
            let mut forward = String::from(sample);
            let mut selection = Selection::new(start, end);
            let refused = delete_forward(&mut selection, &mut forward);
            assert_eq!(refused, None);
            assert_eq!(selection, Selection::caret(low));
            assert_eq!(forward, backward);
        }
    }
}
