use vim_ops::commands::{vim_move_paragraph_backward, vim_move_paragraph_forward};
use vim_ops::context::{Context, Mode};
use vim_ops::paragraph::{movement_paragraph_backward, movement_paragraph_forward};
use vim_ops::range::{Movement, Range};
use vim_ops::selection::Selection;
use vim_ops::text::TextBuffer;

fn buffer(s: &str) -> TextBuffer {
    TextBuffer::new(s.chars().collect())
}

#[test]
fn forward_from_the_first_line_lands_on_the_next_paragraph() {
    let text = buffer("foo\n\nbar\n");
    let moved = movement_paragraph_forward(&text, Range::point(0), 1, Movement::Move);
    assert_eq!(moved.head, 5);
    assert_eq!(text.get_char(moved.head), Some('b'));
    assert_eq!(moved, Range::new(0, 5));
}

#[test]
fn forward_from_the_boundary_keeps_the_head_as_anchor() {
    let text = buffer("foo\n\nbar\n");
    let moved = movement_paragraph_forward(&text, Range::new(0, 5), 1, Movement::Move);
    assert_eq!(moved, Range::new(5, 9));
}

#[test]
fn forward_from_a_paragraph_start_uses_the_cursor_as_anchor() {
    let text = buffer("foo\n\nbar\n");
    let moved = movement_paragraph_forward(&text, Range::point(5), 1, Movement::Move);
    assert_eq!(moved, Range::new(5, 9));
}

#[test]
fn forward_counts_paragraphs() {
    let text = buffer("a\n\nb\n\nc");
    assert_eq!(movement_paragraph_forward(&text, Range::point(0), 1, Movement::Move).head, 3);
    assert_eq!(movement_paragraph_forward(&text, Range::point(0), 2, Movement::Move).head, 6);
    assert_eq!(movement_paragraph_forward(&text, Range::point(0), 3, Movement::Move).head, 7);
}

#[test]
fn forward_stops_at_the_end_whatever_the_count() {
    let text = buffer("a\n\nb\n\nc");
    assert_eq!(movement_paragraph_forward(&text, Range::point(0), 50, Movement::Move).head, 7);
    assert_eq!(
        movement_paragraph_forward(&text, Range::point(0), usize::MAX, Movement::Move).head,
        7
    );
}

#[test]
fn forward_with_count_zero_goes_to_the_start_of_the_line() {
    let text = buffer("foo\n\nbar\n");
    let moved = movement_paragraph_forward(&text, Range::point(7), 0, Movement::Move);
    assert_eq!(moved, Range::new(7, 5));
}

#[test]
fn forward_without_blank_lines_goes_to_the_end() {
    let text = buffer("a\nb\nc");
    let moved = movement_paragraph_forward(&text, Range::point(0), 1, Movement::Move);
    assert_eq!(moved, Range::new(0, 5));
    assert_eq!(text.char_to_line(moved.head), 2);
}

#[test]
fn forward_skips_a_run_of_blank_lines_first() {
    let text = buffer("\n\n\nfoo\n\nbar");
    let moved = movement_paragraph_forward(&text, Range::point(0), 1, Movement::Move);
    assert_eq!(moved.head, 8);
}

#[test]
fn forward_extending_keeps_the_anchor() {
    let text = buffer("foo\n\nbar\n");
    let moved = movement_paragraph_forward(&text, Range::new(1, 2), 1, Movement::Extend);
    assert_eq!(moved, Range::new(1, 5));
}

#[test]
fn forward_extending_across_the_anchor_flips_it() {
    let text = buffer("foo\n\nbar\n");
    let moved = movement_paragraph_forward(&text, Range::new(3, 1), 1, Movement::Extend);
    assert_eq!(moved, Range::new(2, 5));
}

#[test]
fn forward_on_the_empty_text_stays() {
    let text = buffer("");
    let moved = movement_paragraph_forward(&text, Range::point(0), 3, Movement::Move);
    assert_eq!(moved, Range::point(0));
}

#[test]
fn backward_from_a_paragraph_start_crosses_the_paragraph_above() {
    let text = buffer("foo\n\nbar\n");
    let moved = movement_paragraph_backward(&text, Range::point(5), 1, Movement::Move);
    assert_eq!(moved, Range::new(5, 0));
}

#[test]
fn backward_from_inside_the_first_line_lands_on_the_blank_line_above() {
    let text = buffer("foo\n\nbar\n");
    let moved = movement_paragraph_backward(&text, Range::point(7), 1, Movement::Move);
    assert_eq!(moved, Range::new(7, 4));
}

#[test]
fn backward_from_inside_a_paragraph_lands_on_the_blank_line_above() {
    let text = buffer("a\n\nfoo\nbar\n");
    let moved = movement_paragraph_backward(&text, Range::point(8), 1, Movement::Move);
    assert_eq!(moved, Range::new(8, 2));
}

#[test]
fn backward_counts_paragraphs() {
    let text = buffer("a\n\nb\n\nc");
    assert_eq!(movement_paragraph_backward(&text, Range::point(6), 1, Movement::Move).head, 2);
    assert_eq!(movement_paragraph_backward(&text, Range::point(6), 2, Movement::Move).head, 0);
    assert_eq!(movement_paragraph_backward(&text, Range::point(6), 9, Movement::Move).head, 0);
}

#[test]
fn backward_without_blank_lines_goes_to_the_first_line() {
    let text = buffer("a\nb\nc");
    let moved = movement_paragraph_backward(&text, Range::point(4), 1, Movement::Move);
    assert_eq!(moved, Range::new(4, 0));
}

#[test]
fn backward_at_the_top_stays() {
    let text = buffer("foo\n\nbar\n");
    let moved = movement_paragraph_backward(&text, Range::point(0), 4, Movement::Move);
    assert_eq!(moved, Range::point(0));
}

#[test]
fn backward_extending_across_the_anchor_flips_it() {
    let text = buffer("foo\n\nbar\n");
    let moved = movement_paragraph_backward(&text, Range::new(5, 8), 1, Movement::Extend);
    assert_eq!(moved, Range::new(6, 4));
}

#[test]
fn backward_extending_a_backward_range_keeps_the_anchor() {
    let text = buffer("foo\n\nbar\n");
    let moved = movement_paragraph_backward(&text, Range::new(8, 6), 1, Movement::Extend);
    assert_eq!(moved, Range::new(8, 4));
}

#[test]
fn repeated_forward_motion_never_stalls_before_the_end() {
    let text = buffer("one\n\ntwo\nthree\n\n\nfour\n\nfive");
    let mut range = Range::point(0);
    let mut heads = Vec::new();
    for _ in 0..6 {
        range = movement_paragraph_forward(&text, range, 1, Movement::Move);
        range = Range::point(range.cursor(&text));
        heads.push(range.head);
    }
    assert_eq!(heads, vec![4, 15, 22, 26, 26, 26]);
}

#[test]
fn repeated_backward_motion_never_stalls_before_the_top() {
    let text = buffer("one\n\ntwo\nthree\n\n\nfour\n\nfive");
    let mut range = Range::point(27);
    let mut heads = Vec::new();
    for _ in 0..6 {
        range = movement_paragraph_backward(&text, range, 1, Movement::Move);
        range = Range::point(range.cursor(&text));
        heads.push(range.head);
    }
    assert_eq!(heads, vec![22, 16, 4, 0, 0, 0]);
}

#[test]
fn backward_then_forward_from_a_boundary_returns_next_to_it() {
    let text = buffer("a\n\nb\n\nc");
    let back = movement_paragraph_backward(&text, Range::point(2), 1, Movement::Move);
    assert_eq!(back, Range::new(2, 0));
    let again = movement_paragraph_forward(&text, back, 1, Movement::Move);
    assert_eq!(again, Range::new(0, 3));
    assert_eq!(again.cursor(&text), 2);
}

#[test]
fn forward_then_backward_from_a_boundary_returns_to_it() {
    let text = buffer("a\n\nb\n\nc");
    let on = movement_paragraph_forward(&text, Range::point(2), 1, Movement::Move);
    assert_eq!(on, Range::new(2, 6));
    let back = movement_paragraph_backward(&text, on, 1, Movement::Move);
    assert_eq!(back, Range::new(5, 2));
    assert_eq!(back.head, 2);
}

#[test]
fn paragraph_command_moves_every_cursor() {
    let text = buffer("a\n\nb\n\nc");
    let selection = Selection::new(vec![Range::point(0), Range::point(3)]);
    let mut cx = Context::new(text, selection, '"');
    vim_move_paragraph_forward(&mut cx);
    assert_eq!(cx.selection.ranges(), &vec![Range::new(0, 3), Range::new(3, 6)]);
    assert_eq!(cx.mode, Mode::Normal);
}

#[test]
fn paragraph_command_uses_the_count() {
    let text = buffer("a\n\nb\n\nc");
    let mut cx = Context::new(text, Selection::point(6), '"');
    cx.count = Some(2);
    vim_move_paragraph_backward(&mut cx);
    assert_eq!(cx.selection.ranges(), &vec![Range::new(6, 0)]);
}

#[test]
fn paragraph_command_extends_in_select_mode() {
    let text = buffer("foo\n\nbar\n");
    let mut cx = Context::new(text, Selection::single(1, 2), '"');
    cx.mode = Mode::Select;
    vim_move_paragraph_forward(&mut cx);
    assert_eq!(cx.selection.ranges(), &vec![Range::new(1, 5)]);
    assert_eq!(cx.mode, Mode::Select);
}

#[test]
fn paragraph_command_leaves_insert_mode() {
    let text = buffer("foo\n\nbar\n");
    let mut cx = Context::new(text, Selection::point(0), '"');
    cx.mode = Mode::Insert;
    vim_move_paragraph_backward(&mut cx);
    assert_eq!(cx.mode, Mode::Normal);
    assert_eq!(cx.selection.ranges(), &vec![Range::point(0)]);
}

#[test]
fn paragraphs_are_parted_by_blank_lines_with_two_character_terminators() {
    let text = buffer("foo\r\n\r\nbar\r\n");
    let on = movement_paragraph_forward(&text, Range::point(0), 1, Movement::Move);
    assert_eq!(on, Range::new(0, 7));
    assert_eq!(on.cursor(&text), 5);
    let further = movement_paragraph_forward(&text, on, 1, Movement::Move);
    assert_eq!(further, Range::new(7, 12));
    let back = movement_paragraph_backward(&text, Range::point(8), 1, Movement::Move);
    assert_eq!(back, Range::new(8, 5));
    let up = movement_paragraph_backward(&text, Range::point(7), 1, Movement::Move);
    assert_eq!(up, Range::new(7, 0));
}
