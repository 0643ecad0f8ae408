use lux::editor::{
    next_boundary, offset_from_utf16, offset_to_utf16, previous_boundary, to_single_line, ByteRange,
    SearchInputEvent, TextEditor, TextRunSpan,
};

fn editor_with(text: &str) -> TextEditor {
    let mut e = TextEditor::new("Search...".to_string());
    e.set_text(text.to_string());
    e
}

#[test]
fn typing_replaces_selection_and_moves_cursor() {
    let mut e = TextEditor::new("Search...".to_string());
    assert_eq!(e.placeholder(), "Search...");
    match e.replace_text_in_range(None, "héllo") {
        SearchInputEvent::Changed(t) => assert_eq!(t, "héllo"),
        _ => panic!("expected a change"),
    }
    assert_eq!(e.selected_range(), ByteRange { start: 6, end: 6 });
    e.select_all();
    e.replace_text_in_range(None, "x");
    assert_eq!(e.text(), "x");
    assert_eq!(e.cursor_offset(), 1);
}

#[test]
fn backspace_deletes_whole_graphemes() {
    let mut e = editor_with("ae\u{301}");
    // "e" + combining acute accent is one grapheme of 3 bytes
    e.backspace();
    assert_eq!(e.text(), "a");
    e.backspace();
    assert_eq!(e.text(), "");
    assert!(matches!(e.backspace(), SearchInputEvent::Back));
}

#[test]
fn delete_and_arrows() {
    let mut e = editor_with("añb");
    e.home();
    e.right();
    assert_eq!(e.cursor_offset(), 1);
    e.right();
    assert_eq!(e.cursor_offset(), 3);
    e.left();
    assert_eq!(e.cursor_offset(), 1);
    e.delete();
    assert_eq!(e.text(), "ab");
    e.end();
    assert_eq!(e.cursor_offset(), 2);
}

#[test]
fn selection_flips_when_it_crosses() {
    let mut e = editor_with("abc");
    e.move_to(1);
    e.select_right();
    assert_eq!(e.selected_range(), ByteRange { start: 1, end: 2 });
    assert!(!e.selection_reversed());
    e.select_left();
    e.select_left();
    assert_eq!(e.selected_range(), ByteRange { start: 0, end: 1 });
    assert!(e.selection_reversed());
    assert_eq!(e.copy(), Some("a".to_string()));
}

#[test]
fn cut_and_paste() {
    let mut e = editor_with("hello world");
    e.move_to(0);
    e.select_to(5);
    let (cut, _) = e.cut().unwrap();
    assert_eq!(cut, "hello");
    assert_eq!(e.text(), " world");
    e.paste("two\nlines");
    assert_eq!(e.text(), "two lines world");
    assert!(e.cut().is_none());
}

#[test]
fn utf16_offsets() {
    let text = "a😀b";
    assert_eq!(offset_to_utf16(text, 0), 0);
    assert_eq!(offset_to_utf16(text, 1), 1);
    assert_eq!(offset_to_utf16(text, 5), 3);
    assert_eq!(offset_to_utf16(text, 6), 4);
    assert_eq!(offset_from_utf16(text, 3), 5);
    assert_eq!(offset_from_utf16(text, 2), 5);
    assert_eq!(offset_from_utf16(text, 10), 6);
}

#[test]
fn grapheme_boundaries() {
    let text = "e\u{301}x";
    assert_eq!(next_boundary(text, 0), 3);
    assert_eq!(previous_boundary(text, 3), 0);
    assert_eq!(next_boundary(text, 3), 4);
    assert_eq!(previous_boundary(text, 0), 0);
}

#[test]
fn ime_composition() {
    let mut e = editor_with("ab");
    e.move_to(1);
    assert!(e.composition_fits(None, "ni", Some(ByteRange { start: 2, end: 2 })));
    e.replace_and_mark_text_in_range(None, "ni", None);
    assert_eq!(e.text(), "anib");
    assert_eq!(e.marked_range(), Some(ByteRange { start: 1, end: 3 }));
    assert_eq!(e.marked_text_range(), Some(ByteRange { start: 1, end: 3 }));
    e.replace_text_in_range(None, "你");
    assert_eq!(e.text(), "a你b");
    assert_eq!(e.marked_range(), None);
    let (text, actual) = e.text_for_range(ByteRange { start: 1, end: 2 });
    assert_eq!(text, "你");
    assert_eq!(actual, ByteRange { start: 1, end: 2 });
    assert_eq!(e.selected_text_range(), (ByteRange { start: 2, end: 2 }, false));
}

#[test]
fn mouse_selection() {
    let mut e = editor_with("abcd");
    e.on_mouse_down(1, false);
    e.on_mouse_move(3);
    e.on_mouse_up();
    e.on_mouse_move(4);
    assert_eq!(e.selected_range(), ByteRange { start: 1, end: 3 });
    e.clear();
    assert_eq!(e.text(), "");
    assert_eq!(to_single_line("a\nb\n"), "a b ");
}

#[test]
fn text_runs_underline_the_composition() {
    let e = TextEditor::new("Search...".to_string());
    assert_eq!(e.text_runs(), vec![TextRunSpan { len: 9, underlined: false }]);

    let mut e = editor_with("ab");
    assert_eq!(e.text_runs(), vec![TextRunSpan { len: 2, underlined: false }]);
    e.move_to(1);
    e.replace_and_mark_text_in_range(None, "ni", None);
    assert_eq!(
        e.text_runs(),
        vec![
            TextRunSpan { len: 1, underlined: false },
            TextRunSpan { len: 2, underlined: true },
            TextRunSpan { len: 1, underlined: false },
        ]
    );

    let mut e = editor_with("");
    e.replace_and_mark_text_in_range(None, "ni", None);
    assert_eq!(e.text_runs(), vec![TextRunSpan { len: 2, underlined: true }]);
}
