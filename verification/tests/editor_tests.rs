use mshwisper::tui::app::{prev_char_boundary, word_end_after, word_start_before, App, HISTORY_LIMIT};

fn app_with(text: &str, cursor: usize) -> App {
    let mut a = App::new();
    a.input_buf = text.to_string();
    a.cursor_pos = cursor;
    a
}

#[test]
fn boundaries_and_words() {
    let s = "aé b";
    assert_eq!(prev_char_boundary(s, 0), 0);
    assert_eq!(prev_char_boundary(s, 3), 1);
    assert_eq!(prev_char_boundary(s, 1), 0);
    let t = "foo  bar baz";
    assert_eq!(word_start_before(t, 12), 9);
    assert_eq!(word_start_before(t, 9), 5);
    assert_eq!(word_start_before(t, 5), 0);
    assert_eq!(word_start_before(t, 0), 0);
    assert_eq!(word_end_after(t, 0), 3);
    assert_eq!(word_end_after(t, 3), 8);
    assert_eq!(word_end_after(t, 12), 12);
    assert_eq!(word_end_after(t, 40), 40);
}

#[test]
fn typing_and_deleting_multibyte() {
    let mut a = App::new();
    a.insert_char('h');
    a.insert_char('é');
    a.insert_char('!');
    assert_eq!(a.input_buf, "hé!");
    assert_eq!(a.cursor_pos, 4);
    a.move_char_left();
    assert_eq!(a.cursor_pos, 3);
    a.move_char_left();
    assert_eq!(a.cursor_pos, 1);
    a.delete_char_after();
    assert_eq!(a.input_buf, "h!");
    a.move_char_right();
    assert_eq!(a.cursor_pos, 2);
    a.insert_str("ü");
    assert_eq!(a.input_buf, "h!ü");
    a.delete_char_before();
    assert_eq!(a.input_buf, "h!");
    assert_eq!(a.cursor_pos, 2);
    a.delete_char_after();
    assert_eq!(a.input_buf, "h!");
}

#[test]
fn backspace_undoes_a_typed_character() {
    let mut a = app_with("ab€cd", 5);
    let before = (a.input_buf.clone(), a.cursor_pos);
    a.insert_char('ß');
    a.delete_char_before();
    assert_eq!((a.input_buf.clone(), a.cursor_pos), before);
}

#[test]
fn word_cut_and_paste() {
    let mut a = app_with("git commit  ", 12);
    a.delete_word_before();
    assert_eq!(a.input_buf, "git ");
    assert_eq!(a.yank_buf, "commit  ");
    assert_eq!(a.cursor_pos, 4);
    a.cursor_home();
    a.paste();
    assert_eq!(a.input_buf, "commit  git ");
    assert_eq!(a.cursor_pos, 8);
    a.move_word_right();
    assert_eq!(a.cursor_pos, 11);
    a.move_word_left();
    assert_eq!(a.cursor_pos, 8);
    a.move_word_left();
    assert_eq!(a.cursor_pos, 0);
}

#[test]
fn cut_to_end_and_start() {
    let mut a = app_with("hello world", 5);
    a.cut_to_end();
    assert_eq!(a.input_buf, "hello");
    assert_eq!(a.yank_buf, " world");
    let mut b = app_with("hello world", 6);
    b.cut_to_start();
    assert_eq!(b.input_buf, "world");
    assert_eq!(b.yank_buf, "hello ");
    assert_eq!(b.cursor_pos, 0);
    b.cursor_end();
    assert_eq!(b.cursor_pos, 5);
}

#[test]
fn history_browsing() {
    let mut a = App::new();
    a.history_push("one".to_string());
    a.history_push("two".to_string());
    a.history_push("two".to_string());
    assert_eq!(a.history, vec!["one".to_string(), "two".to_string()]);
    a.input_buf = "draft".to_string();
    a.cursor_pos = 5;
    a.history_prev();
    assert_eq!(a.input_buf, "two");
    assert_eq!(a.history_idx, Some(1));
    a.history_prev();
    a.history_prev();
    assert_eq!(a.input_buf, "one");
    assert_eq!(a.history_idx, Some(0));
    a.history_next();
    assert_eq!(a.input_buf, "two");
    a.history_next();
    assert_eq!(a.input_buf, "draft");
    assert_eq!(a.history_idx, None);
    assert_eq!(a.cursor_pos, 5);
}

#[test]
fn history_keeps_at_most_the_limit() {
    let mut a = App::new();
    for i in 0..(HISTORY_LIMIT + 5) {
        a.history_push(format!("line {}", i));
    }
    assert_eq!(a.history.len(), HISTORY_LIMIT);
    assert_eq!(a.history[0], "line 5");
    assert_eq!(a.history[HISTORY_LIMIT - 1], format!("line {}", HISTORY_LIMIT + 4));
}
