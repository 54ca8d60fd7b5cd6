use void_editor::command::{command_for, Action, Command, Key, Modifiers};
use void_editor::editor::Editor;
use void_editor::repeat::{KeyRepeat, REPEAT_INTERVAL_MICROS, START_DELAY_MICROS};

fn ctrl() -> Modifiers {
    Modifiers::new(true, false, false)
}

fn alt() -> Modifiers {
    Modifiers::new(false, false, true)
}

fn editor_with(text: &str) -> Editor {
    let mut e = Editor::new(4);
    e.load(text);
    e
}

fn press(e: &mut Editor, key: Key) -> Option<Action> {
    e.process_input(key, Modifiers::none(), None)
}

fn type_str(e: &mut Editor, text: &str) {
    for c in text.chars() {
        e.process_input(Key::Other, Modifiers::none(), Some(c));
    }
}

fn rebuilt(e: &Editor) -> String {
    let mut out = String::new();
    for i in 0..e.line_count() {
        out.push_str(&e.line_text(i));
        out.push('\n');
    }
    out
}

#[test]
fn insert_into_empty_document() {
    let mut e = Editor::new(4);
    e.paste("cara");
    assert_eq!("cara\n", e.content_as_text());
    press(&mut e, Key::Up);
    press(&mut e, Key::Right);
    press(&mut e, Key::Right);
    assert_eq!(2, e.caret_pos());
    e.paste("pyba");
    assert_eq!("capybara\n", e.content_as_text());
    assert_eq!(6, e.caret_pos());
}

#[test]
fn delete_at_offset() {
    let mut e = editor_with("pepperoni\n");
    press(&mut e, Key::Right);
    press(&mut e, Key::Right);
    press(&mut e, Key::Delete);
    assert_eq!("peperoni\n", e.content_as_text());
    assert_eq!(2, e.caret_pos());
}

#[test]
fn up_keeps_the_column() {
    let mut e = editor_with("hello\nworld\n");
    press(&mut e, Key::Down);
    press(&mut e, Key::Right);
    assert_eq!(7, e.caret_pos());
    assert_eq!(1, e.caret_row());
    assert_eq!(1, e.caret_col());
    press(&mut e, Key::Up);
    assert_eq!(1, e.caret_pos());
    assert_eq!(0, e.caret_row());
    assert_eq!(1, e.caret_col());
}

#[test]
fn ctrl_right_jumps_words() {
    let mut e = editor_with("foo bar\n");
    e.process_input(Key::Right, ctrl(), None);
    assert_eq!(3, e.caret_pos());
    e.process_input(Key::Right, ctrl(), None);
    assert_eq!(7, e.caret_pos());
    e.process_input(Key::Right, ctrl(), None);
    assert_eq!(7, e.caret_pos());
}

#[test]
fn held_backspace_repeats() {
    let mut e = editor_with("0123456789\n");
    e.process_input(Key::Right, alt(), None);
    assert_eq!(10, e.caret_pos());
    let mut keys: KeyRepeat<Key> = KeyRepeat::new(START_DELAY_MICROS, REPEAT_INTERVAL_MICROS);
    keys.press(Key::Backspace, None);
    let mut fired = 1;
    press(&mut e, Key::Backspace);
    let ticks = START_DELAY_MICROS + 3 * REPEAT_INTERVAL_MICROS;
    for _ in 0..ticks {
        if let Some((key, chr)) = keys.tick(true, 1) {
            fired += 1;
            e.process_input(key, Modifiers::none(), chr);
        }
    }
    assert_eq!(4, fired);
    assert_eq!("012345\n", e.content_as_text());
    assert_eq!(None, keys.tick(false, 1));
    assert_eq!(None, keys.tick(true, 1_000_000));
}

#[test]
fn repeat_fires_evenly_after_the_start_delay() {
    let mut keys: KeyRepeat<u32> = KeyRepeat::new(10, 3);
    keys.press(7, Some('x'));
    let mut fired_at = Vec::new();
    for t in 1..=20u64 {
        if keys.tick(true, 1).is_some() {
            fired_at.push(t);
        }
    }
    assert_eq!(vec![13, 16, 19], fired_at);
    keys.press(8, None);
    assert_eq!(None, keys.tick(true, 12));
    assert_eq!(Some((8, None)), keys.tick(true, 1));
    keys.release();
    assert_eq!(None, keys.tick(true, 100));
}

#[test]
fn new_document_is_one_empty_line() {
    let e = Editor::new(4);
    assert_eq!("\n", e.content_as_text());
    assert_eq!(1, e.line_count());
    assert_eq!("", e.line_text(0));
    assert_eq!(0, e.caret_pos());
    assert_eq!(1, e.len());
    assert_eq!(4, e.tab_size());
}

#[test]
fn load_appends_a_missing_newline() {
    let e = editor_with("abc");
    assert_eq!("abc\n", e.content_as_text());
    let e = editor_with("");
    assert_eq!("\n", e.content_as_text());
    let e = editor_with("a\n\n");
    assert_eq!("a\n\n", e.content_as_text());
    assert_eq!(2, e.line_count());
}

#[test]
fn load_of_saved_text_is_stable() {
    for text in ["", "x", "x\n", "one\ntwo", "\n\n\t"] {
        let first = editor_with(text).content_as_text();
        let second = editor_with(&first).content_as_text();
        assert_eq!(first, second);
    }
}

#[test]
fn lines_rebuild_the_content() {
    let mut e = editor_with("alpha\n\nbeta gamma\n\tdelta");
    assert_eq!(e.content_as_text(), rebuilt(&e));
    assert_eq!(4, e.line_count());
    assert_eq!("beta gamma", e.line_text(2));
    type_str(&mut e, "x\ny");
    e.process_input(Key::Backspace, ctrl(), None);
    assert_eq!(e.content_as_text(), rebuilt(&e));
}

#[test]
fn typing_inserts_at_the_caret() {
    let mut e = Editor::new(4);
    type_str(&mut e, "Hi!");
    assert_eq!("Hi!\n", e.content_as_text());
    assert_eq!(3, e.caret_pos());
    press(&mut e, Key::Enter);
    press(&mut e, Key::Tab);
    assert_eq!("Hi!\n\t\n", e.content_as_text());
    assert_eq!(2, e.line_count());
    assert_eq!(5, e.caret_pos());
    assert_eq!(4, e.caret_col());
}

#[test]
fn ctrl_blocks_typing_and_non_typeable_chars_are_ignored() {
    let mut e = Editor::new(4);
    e.process_input(Key::Other, ctrl(), Some('a'));
    e.process_input(Key::Other, Modifiers::none(), Some('😀'));
    e.process_input(Key::Other, Modifiers::none(), None);
    assert_eq!("\n", e.content_as_text());
    e.process_input(Key::Other, Modifiers::none(), Some('ż'));
    assert_eq!("ż\n", e.content_as_text());
}

#[test]
fn backspace_and_delete_at_the_edges_do_nothing() {
    let mut e = editor_with("ab\n");
    press(&mut e, Key::Backspace);
    assert_eq!("ab\n", e.content_as_text());
    e.process_input(Key::Down, ctrl(), None);
    assert_eq!(2, e.caret_pos());
    press(&mut e, Key::Delete);
    assert_eq!("ab\n", e.content_as_text());
    press(&mut e, Key::Backspace);
    assert_eq!("a\n", e.content_as_text());
    assert_eq!(1, e.caret_pos());
}

#[test]
fn left_and_right_stay_inside_the_content() {
    let mut e = editor_with("ab\n");
    press(&mut e, Key::Left);
    assert_eq!(0, e.caret_pos());
    for _ in 0..5 {
        press(&mut e, Key::Right);
    }
    assert_eq!(2, e.caret_pos());
}

#[test]
fn vertical_moves_clamp_to_short_lines_and_document_edges() {
    let mut e = editor_with("long line\nab\nxyz\n");
    e.process_input(Key::Right, alt(), None);
    assert_eq!(9, e.caret_pos());
    press(&mut e, Key::Down);
    assert_eq!(12, e.caret_pos());
    press(&mut e, Key::Down);
    assert_eq!(15, e.caret_pos());
    press(&mut e, Key::Down);
    assert_eq!(16, e.caret_pos());
    e.process_input(Key::Up, ctrl(), None);
    assert_eq!(0, e.caret_pos());
    press(&mut e, Key::Right);
    press(&mut e, Key::Up);
    assert_eq!(0, e.caret_pos());
}

#[test]
fn vertical_moves_count_tabs_as_wide() {
    let mut e = editor_with("\tab\nabcdefgh\n");
    e.process_input(Key::Right, alt(), None);
    assert_eq!(3, e.caret_pos());
    assert_eq!(6, e.caret_col());
    press(&mut e, Key::Down);
    assert_eq!(10, e.caret_pos());
}

#[test]
fn alt_moves_to_line_edges() {
    let mut e = editor_with("one\ntwo three\n");
    press(&mut e, Key::Down);
    press(&mut e, Key::Right);
    e.process_input(Key::Right, alt(), None);
    assert_eq!(13, e.caret_pos());
    e.process_input(Key::Left, alt(), None);
    assert_eq!(4, e.caret_pos());
}

#[test]
fn ctrl_left_jumps_to_word_starts() {
    let mut e = editor_with("foo_bar  baz\n");
    e.process_input(Key::Down, ctrl(), None);
    e.process_input(Key::Left, ctrl(), None);
    assert_eq!(9, e.caret_pos());
    e.process_input(Key::Left, ctrl(), None);
    assert_eq!(0, e.caret_pos());
}

#[test]
fn ctrl_backspace_deletes_the_word_before() {
    let mut e = editor_with("one two  \n");
    e.process_input(Key::Right, alt(), None);
    e.process_input(Key::Backspace, ctrl(), None);
    assert_eq!("one \n", e.content_as_text());
    assert_eq!(4, e.caret_pos());
}

#[test]
fn ctrl_delete_deletes_the_word_after() {
    let mut e = editor_with("one, two three\n");
    press(&mut e, Key::Right);
    press(&mut e, Key::Right);
    press(&mut e, Key::Right);
    e.process_input(Key::Delete, ctrl(), None);
    assert_eq!("one three\n", e.content_as_text());
    assert_eq!(3, e.caret_pos());
    e.process_input(Key::Delete, ctrl(), None);
    e.process_input(Key::Delete, ctrl(), None);
    assert_eq!("one\n", e.content_as_text());
}

#[test]
fn shift_tab_removes_a_leading_tab() {
    let mut e = editor_with("x\n\tab\n");
    press(&mut e, Key::Down);
    e.process_input(Key::Right, alt(), None);
    assert_eq!(5, e.caret_pos());
    e.process_input(Key::Tab, Modifiers::new(false, true, false), None);
    assert_eq!("x\nab\n", e.content_as_text());
    assert_eq!(4, e.caret_pos());
    e.process_input(Key::Tab, Modifiers::new(false, true, false), None);
    assert_eq!("x\nab\n", e.content_as_text());
}

#[test]
fn delegated_actions_leave_the_document_alone() {
    let mut e = editor_with("keep\n");
    let s = Modifiers::new(true, true, false);
    assert_eq!(Some(Action::NewFile), e.process_input(Key::N, ctrl(), Some('n')));
    assert_eq!(Some(Action::OpenFile), e.process_input(Key::O, ctrl(), None));
    assert_eq!(Some(Action::Save), e.process_input(Key::S, ctrl(), None));
    assert_eq!(Some(Action::SaveAs), e.process_input(Key::S, s, None));
    assert_eq!(Some(Action::Paste), e.process_input(Key::V, ctrl(), None));
    assert_eq!(None, e.process_input(Key::V, Modifiers::none(), Some('v')));
    assert_eq!("vkeep\n", e.content_as_text());
}

#[test]
fn command_table_prefers_more_modifiers() {
    let all = Modifiers::new(true, true, true);
    assert_eq!(Command::Delegate(Action::SaveAs), command_for(Key::S, all, None));
    assert_eq!(Command::WordRight, command_for(Key::Right, all, None));
    assert_eq!(Command::LineEnd, command_for(Key::Right, alt(), None));
    assert_eq!(Command::Unindent, command_for(Key::Tab, Modifiers::new(false, true, true), None));
    assert_eq!(Command::Insert('\t'), command_for(Key::Tab, ctrl(), None));
    assert_eq!(Command::Insert('\n'), command_for(Key::Enter, ctrl(), None));
    assert_eq!(Command::Nothing, command_for(Key::Other, ctrl(), Some('q')));
    assert_eq!(Command::Insert('q'), command_for(Key::Other, alt(), Some('q')));
}

#[test]
fn new_file_and_paste() {
    let mut e = editor_with("old text\n");
    e.new_file();
    assert_eq!("\n", e.content_as_text());
    e.paste("a\nb");
    assert_eq!("a\nb\n", e.content_as_text());
    assert_eq!(3, e.caret_pos());
    assert_eq!(2, e.line_count());
    assert!(e.has_room_for(10));
}

#[test]
fn caret_stays_in_bounds_through_a_session() {
    let mut e = editor_with("ab\ncd\n");
    let keys = [
        Key::Down, Key::Delete, Key::Delete, Key::Delete, Key::Right, Key::Backspace, Key::Up,
        Key::Down, Key::Delete, Key::Left,
    ];
    for k in keys {
        press(&mut e, k);
        assert!(e.caret_pos() < e.len());
        assert!(e.content_as_text().ends_with('\n'));
        assert_eq!(e.content_as_text(), rebuilt(&e));
    }
}
