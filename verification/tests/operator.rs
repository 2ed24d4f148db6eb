use vim_ops::commands::{vim_change, vim_delete, vim_yank, vim_yank_to_clipboard};
use vim_ops::context::{Context, Mode, PendingScope};
use vim_ops::operator::{EvilOperator, EvilOps, Notice, Yank};
use vim_ops::range::Range;
use vim_ops::selection::Selection;
use vim_ops::text::TextBuffer;
use vim_ops::textobject::{Found, ObjectKind};

fn buffer(s: &str) -> TextBuffer {
    TextBuffer::new(s.chars().collect())
}

fn chars(s: &str) -> Vec<char> {
    s.chars().collect()
}

fn context(s: &str, selection: Selection) -> Context {
    Context::new(buffer(s), selection, '"')
}

fn no_answers() -> Vec<Found> {
    Vec::new()
}

#[test]
fn yank_selection_takes_one_fragment_per_range() {
    let selection = Selection::new(vec![Range::new(0, 3), Range::new(8, 4), Range::point(2)]);
    let cx = context("one\ntwo\nthree\n", Selection::point(0));
    let yank = EvilOps::yank_selection(&cx, &selection, Some('a'));
    assert_eq!(yank.register, 'a');
    assert_eq!(yank.values.len(), 3);
    assert_eq!(yank.values, vec![chars("one"), chars("two\n"), chars("")]);
}

#[test]
fn yank_selection_goes_to_the_default_register() {
    let mut cx = context("one", Selection::point(0));
    cx.default_yank_register = 'z';
    let yank = EvilOps::yank_selection(&cx, &Selection::single(0, 3), None);
    assert_eq!(yank.register, 'z');
    assert_eq!(yank.values, vec![chars("one")]);
}

#[test]
fn every_operator_yanks_one_fragment_per_range() {
    for cmd in [EvilOperator::Yank, EvilOperator::Delete, EvilOperator::Change] {
        let selection = Selection::new(vec![Range::new(0, 3), Range::new(4, 7), Range::new(8, 13)]);
        let mut cx = context("one\ntwo\nthree\n", selection.duplicate());
        let done = EvilOps::run_operator(&mut cx, cmd, None, &selection, &selection);
        assert_eq!(done.yank.values.len(), selection.len());
        assert_eq!(done.yank.values, vec![chars("one"), chars("two"), chars("three")]);
    }
}

#[test]
fn yank_leaves_the_state_alone() {
    let selection = Selection::single(4, 7);
    let mut cx = context("one\ntwo\nthree\n", Selection::point(5));
    let done = EvilOps::run_operator(&mut cx, EvilOperator::Yank, None, &selection, &selection);
    assert_eq!(done.yank.values, vec![chars("two")]);
    assert_eq!(cx.text.chars(), &chars("one\ntwo\nthree\n"));
    assert_eq!(cx.selection.ranges(), &vec![Range::point(5)]);
    assert_eq!(cx.mode, Mode::Normal);
}

#[test]
fn delete_removes_what_the_delete_selection_covers() {
    let to_yank = Selection::single(4, 8);
    let to_delete = Selection::single(4, 7);
    let mut cx = context("one\ntwo\nthree\n", Selection::point(5));
    let done = EvilOps::run_operator(&mut cx, EvilOperator::Delete, None, &to_yank, &to_delete);
    assert_eq!(done.yank.values, vec![chars("two\n")]);
    assert_eq!(cx.text.chars(), &chars("one\n\nthree\n"));
    assert_eq!(cx.selection.ranges(), &vec![Range::point(4)]);
    assert_eq!(cx.mode, Mode::Normal);
}

#[test]
fn change_enters_insert_mode() {
    let selection = Selection::single(4, 7);
    let mut cx = context("one\ntwo\nthree\n", Selection::point(5));
    EvilOps::run_operator(&mut cx, EvilOperator::Change, None, &selection, &selection);
    assert_eq!(cx.text.chars(), &chars("one\n\nthree\n"));
    assert_eq!(cx.mode, Mode::Insert);
    assert!(!cx.vim_state.is_visual_line());
}

#[test]
fn delete_selection_without_yank_applies_all_ranges_at_once() {
    let selection = Selection::new(vec![Range::new(0, 4), Range::new(8, 14)]);
    let mut cx = context("one\ntwo\nthree\n", Selection::point(0));
    EvilOps::delete_selection_without_yank(&mut cx, &selection, true);
    assert_eq!(cx.text.chars(), &chars("two\n"));
    assert_eq!(cx.selection.ranges(), &vec![Range::point(0), Range::point(4)]);
}

#[test]
fn operator_in_normal_mode_waits_for_a_scope() {
    let mut cx = context("one\ntwo\nthree\n", Selection::point(5));
    cx.count = Some(3);
    cx.register = Some('r');
    let done = vim_delete(&mut cx);
    assert!(done.is_none());
    assert_eq!(
        cx.on_next_key,
        Some(PendingScope::Scope { operator: EvilOperator::Delete, register: Some('r'), count: 3 })
    );
    assert_eq!(cx.text.chars(), &chars("one\ntwo\nthree\n"));
    assert_eq!(cx.selection.ranges(), &vec![Range::point(5)]);
    assert_eq!(cx.mode, Mode::Normal);
}

#[test]
fn operator_without_a_count_waits_with_count_one() {
    let mut cx = context("one", Selection::point(0));
    vim_change(&mut cx);
    assert_eq!(
        cx.on_next_key,
        Some(PendingScope::Scope { operator: EvilOperator::Change, register: None, count: 1 })
    );
    let mut other = context("one", Selection::point(0));
    vim_yank(&mut other);
    assert_eq!(
        other.on_next_key,
        Some(PendingScope::Scope { operator: EvilOperator::Yank, register: None, count: 1 })
    );
}

#[test]
fn yank_to_clipboard_names_the_plus_register() {
    let mut cx = context("one", Selection::point(0));
    cx.register = Some('r');
    vim_yank_to_clipboard(&mut cx);
    assert_eq!(
        cx.on_next_key,
        Some(PendingScope::Scope { operator: EvilOperator::Yank, register: Some('+'), count: 1 })
    );
}

#[test]
fn operator_in_select_mode_runs_at_once_and_leaves_select_mode() {
    for cmd in [EvilOperator::Yank, EvilOperator::Delete, EvilOperator::Change] {
        let mut cx = context("one\ntwo\nthree\n", Selection::single(0, 3));
        cx.mode = Mode::Select;
        cx.vim_state.visual_line();
        let done = EvilOps::operator_impl(&mut cx, cmd, None).unwrap();
        assert_eq!(done.yank.register, '"');
        assert_eq!(done.yank.values, vec![chars("one")]);
        assert_eq!(cx.on_next_key, None);
        assert_ne!(cx.mode, Mode::Select);
        assert!(!cx.vim_state.is_visual_line());
    }
}

#[test]
fn delete_in_select_mode_removes_the_selection() {
    let mut cx = context("one\ntwo\nthree\n", Selection::new(vec![Range::new(0, 3), Range::new(7, 4)]));
    cx.mode = Mode::Select;
    let done = vim_delete(&mut cx).unwrap();
    assert_eq!(done.yank.values, vec![chars("one"), chars("two")]);
    assert_eq!(cx.text.chars(), &chars("\n\nthree\n"));
    assert_eq!(cx.selection.ranges(), &vec![Range::point(0), Range::point(1)]);
    assert_eq!(cx.mode, Mode::Normal);
}

#[test]
fn change_in_select_mode_ends_in_insert_mode() {
    let mut cx = context("one\ntwo\nthree\n", Selection::single(4, 7));
    cx.mode = Mode::Select;
    vim_change(&mut cx).unwrap();
    assert_eq!(cx.text.chars(), &chars("one\n\nthree\n"));
    assert_eq!(cx.mode, Mode::Insert);
}

#[test]
fn yank_in_select_mode_keeps_the_text() {
    let mut cx = context("one\ntwo\nthree\n", Selection::single(4, 7));
    cx.mode = Mode::Select;
    let done = vim_yank(&mut cx).unwrap();
    assert_eq!(done.yank.values, vec![chars("two")]);
    assert_eq!(cx.text.chars(), &chars("one\ntwo\nthree\n"));
    assert_eq!(cx.selection.ranges(), &vec![Range::new(4, 7)]);
    assert_eq!(cx.mode, Mode::Normal);
}

#[test]
fn select_mode_with_only_points_waits_for_a_scope() {
    let mut cx = context("one\ntwo\nthree\n", Selection::point(5));
    cx.mode = Mode::Select;
    let done = vim_delete(&mut cx);
    assert!(done.is_none());
    assert!(cx.on_next_key.is_some());
    assert_eq!(cx.mode, Mode::Select);
    assert_eq!(cx.text.chars(), &chars("one\ntwo\nthree\n"));
}

#[test]
fn doubled_delete_removes_the_line() {
    let mut cx = context("one\ntwo\nthree\n", Selection::point(5));
    vim_delete(&mut cx);
    let done = EvilOps::resume(&mut cx, Some('d'), &no_answers()).unwrap();
    assert_eq!(done.yank.register, '"');
    assert_eq!(done.yank.values, vec![chars("two\n")]);
    assert_eq!(cx.text.chars(), &chars("one\nthree\n"));
    assert_eq!(cx.selection.ranges(), &vec![Range::point(4)]);
    assert_eq!(cx.mode, Mode::Normal);
    assert_eq!(cx.on_next_key, None);
}

#[test]
fn line_keys_work_whichever_operator_waits() {
    for key in ['d', 'y', 'c'] {
        let mut cx = context("one\ntwo\nthree\n", Selection::point(5));
        vim_delete(&mut cx);
        let done = EvilOps::resume(&mut cx, Some(key), &no_answers()).unwrap();
        assert_eq!(done.yank.values, vec![chars("two\n")]);
        assert_eq!(cx.text.chars(), &chars("one\nthree\n"));
    }
}

#[test]
fn doubled_yank_copies_the_line() {
    let mut cx = context("one\ntwo\nthree\n", Selection::point(5));
    cx.register = Some('q');
    vim_yank(&mut cx);
    let done = EvilOps::resume(&mut cx, Some('y'), &no_answers()).unwrap();
    assert_eq!(done.yank.register, 'q');
    assert_eq!(done.yank.values, vec![chars("two\n")]);
    assert_eq!(cx.text.chars(), &chars("one\ntwo\nthree\n"));
    assert_eq!(cx.selection.ranges(), &vec![Range::point(5)]);
}

#[test]
fn changing_a_line_keeps_its_terminator() {
    let mut cx = context("one\ntwo\nthree\n", Selection::point(5));
    let lines_before = cx.text.len_lines();
    vim_change(&mut cx);
    let done = EvilOps::resume(&mut cx, Some('c'), &no_answers()).unwrap();
    assert_eq!(done.yank.values, vec![chars("two\n")]);
    assert_eq!(cx.text.chars(), &chars("one\n\nthree\n"));
    assert_eq!(cx.text.len_lines(), lines_before);
    assert_eq!(cx.selection.ranges(), &vec![Range::point(4)]);
    assert_eq!(cx.mode, Mode::Insert);
}

#[test]
fn changing_one_line_per_cursor_keeps_the_line_count() {
    let selection = Selection::new(vec![Range::point(1), Range::point(9), Range::point(14)]);
    let mut cx = context("one\ntwo\nthree\n", selection);
    let done = EvilOps::run_operator_lines(&mut cx, EvilOperator::Change, None, 1);
    assert_eq!(done.yank.values, vec![chars("one\n"), chars("three\n"), chars("")]);
    assert_eq!(cx.text.chars(), &chars("\ntwo\n\n"));
    assert_eq!(cx.text.len_lines(), 4);
    assert_eq!(cx.selection.ranges(), &vec![Range::point(0), Range::point(5), Range::point(6)]);
}

#[test]
fn deleting_a_line_removes_a_line() {
    let mut cx = context("one\ntwo\nthree\n", Selection::point(5));
    let done = EvilOps::run_operator_lines(&mut cx, EvilOperator::Delete, None, 1);
    assert_eq!(done.yank.values, vec![chars("two\n")]);
    assert_eq!(cx.text.len_lines(), 3);
}

#[test]
fn count_extends_the_lines() {
    let mut cx = context("one\ntwo\nthree\nfour\n", Selection::point(5));
    cx.count = Some(2);
    vim_delete(&mut cx);
    cx.count = None;
    let done = EvilOps::resume(&mut cx, Some('d'), &no_answers()).unwrap();
    assert_eq!(done.yank.values, vec![chars("two\nthree\n")]);
    assert_eq!(cx.text.chars(), &chars("one\nfour\n"));
}

#[test]
fn changing_two_lines_keeps_the_last_terminator() {
    let mut cx = context("one\ntwo\nthree\nfour\n", Selection::point(5));
    let done = EvilOps::run_operator_lines(&mut cx, EvilOperator::Change, Some('k'), 2);
    assert_eq!(done.yank.register, 'k');
    assert_eq!(done.yank.values, vec![chars("two\nthree\n")]);
    assert_eq!(cx.text.chars(), &chars("one\n\nfour\n"));
    assert_eq!(cx.mode, Mode::Insert);
}

#[test]
fn lines_for_two_cursors() {
    let selection = Selection::new(vec![Range::point(4), Range::point(10)]);
    let mut cx = context("l0\nl1\nl2\nl3\nl4", selection);
    let done = EvilOps::run_operator_lines(&mut cx, EvilOperator::Delete, None, 2);
    assert_eq!(done.yank.values, vec![chars("l1\nl2\n"), chars("l3\nl4")]);
    assert_eq!(cx.text.chars(), &chars("l0\n"));
    assert_eq!(cx.selection.ranges(), &vec![Range::point(3), Range::point(3)]);
}

#[test]
fn any_other_scope_key_does_nothing() {
    for key in [Some('x'), Some('D'), Some('1'), Some(' '), None] {
        let mut cx = context("one\ntwo\nthree\n", Selection::point(5));
        cx.autoinfo = Some(ObjectKind::Inside);
        vim_delete(&mut cx);
        let done = EvilOps::resume(&mut cx, key, &no_answers());
        assert!(done.is_none());
        assert_eq!(cx.on_next_key, None);
        assert_eq!(cx.autoinfo, None);
        assert_eq!(cx.text.chars(), &chars("one\ntwo\nthree\n"));
        assert_eq!(cx.selection.ranges(), &vec![Range::point(5)]);
        assert_eq!(cx.mode, Mode::Normal);
    }
}

#[test]
fn a_pending_operator_fires_once() {
    let mut cx = context("one\ntwo\nthree\n", Selection::point(5));
    vim_delete(&mut cx);
    assert!(EvilOps::resume(&mut cx, Some('d'), &no_answers()).is_some());
    assert!(EvilOps::resume(&mut cx, Some('d'), &no_answers()).is_none());
    assert_eq!(cx.text.chars(), &chars("one\nthree\n"));
}

#[test]
fn a_key_with_nothing_pending_does_nothing() {
    let mut cx = context("one\ntwo\nthree\n", Selection::point(5));
    cx.autoinfo = Some(ObjectKind::Around);
    let done = EvilOps::resume(&mut cx, Some('d'), &no_answers());
    assert!(done.is_none());
    assert_eq!(cx.text.chars(), &chars("one\ntwo\nthree\n"));
    assert_eq!(cx.autoinfo, Some(ObjectKind::Around));
}

#[test]
fn cancel_drops_the_pending_operator() {
    let mut cx = context("one\ntwo\nthree\n", Selection::point(5));
    vim_delete(&mut cx);
    EvilOps::cancel(&mut cx);
    assert_eq!(cx.on_next_key, None);
    assert!(EvilOps::resume(&mut cx, Some('d'), &no_answers()).is_none());
    assert_eq!(cx.text.chars(), &chars("one\ntwo\nthree\n"));
}

#[test]
fn scope_key_handles_the_key_directly() {
    let mut cx = context("one\ntwo\nthree\n", Selection::point(0));
    let done = EvilOps::scope_key(&mut cx, EvilOperator::Delete, Some('m'), 1, Some('d')).unwrap();
    assert_eq!(done.yank.register, 'm');
    assert_eq!(done.yank.values, vec![chars("one\n")]);
    assert_eq!(cx.text.chars(), &chars("two\nthree\n"));
}

#[test]
fn notice_counts_the_selections() {
    let one = Yank { register: 'a', values: vec![chars("x")] };
    match one.notice(Ok(())) {
        Notice::Yanked { selections, plural, register } => {
            assert_eq!(selections, 1);
            assert!(!plural);
            assert_eq!(register, 'a');
        }
        Notice::Error(_) => panic!("the write went through"),
    }
    let three = Yank { register: '+', values: vec![chars("x"), chars("y"), chars("z")] };
    match three.notice(Ok(())) {
        Notice::Yanked { selections, plural, register } => {
            assert_eq!(selections, 3);
            assert!(plural);
            assert_eq!(register, '+');
        }
        Notice::Error(_) => panic!("the write went through"),
    }
}

#[test]
fn notice_passes_the_error_on() {
    let yank = Yank { register: '#', values: vec![chars("x")] };
    match yank.notice(Err(String::from("Register # does not support writing"))) {
        Notice::Error(message) => assert_eq!(message, "Register # does not support writing"),
        Notice::Yanked { .. } => panic!("the write failed"),
    }
}

#[test]
fn outcome_names_the_ranges_removed() {
    let mut cx = context("one\ntwo\nthree\n", Selection::point(5));
    let deleted = EvilOps::run_operator_lines(&mut cx, EvilOperator::Delete, None, 1);
    assert_eq!(deleted.removed.unwrap().ranges(), &vec![Range::new(4, 8)]);
    let mut cx = context("one\ntwo\nthree\n", Selection::point(5));
    let changed = EvilOps::run_operator_lines(&mut cx, EvilOperator::Change, None, 1);
    assert_eq!(changed.removed.unwrap().ranges(), &vec![Range::new(4, 7)]);
    let mut cx = context("one\ntwo\nthree\n", Selection::point(5));
    let yanked = EvilOps::run_operator_lines(&mut cx, EvilOperator::Yank, None, 1);
    assert!(yanked.removed.is_none());
}

#[test]
fn changing_a_line_keeps_a_two_character_terminator() {
    let mut cx = context("one\r\ntwo\r\nthree\r\n", Selection::point(6));
    let lines_before = cx.text.len_lines();
    let done = EvilOps::run_operator_lines(&mut cx, EvilOperator::Change, None, 1);
    assert_eq!(done.yank.values, vec![chars("two\r\n")]);
    assert_eq!(done.removed.unwrap().ranges(), &vec![Range::new(5, 8)]);
    assert_eq!(cx.text.chars(), &chars("one\r\n\r\nthree\r\n"));
    assert_eq!(cx.text.len_lines(), lines_before);
    assert!(cx.text.line_is_blank(1));
    assert_eq!(cx.selection.ranges(), &vec![Range::point(5)]);
}
