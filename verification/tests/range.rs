use vim_ops::range::{Direction, Range};
use vim_ops::selection::Selection;
use vim_ops::text::TextBuffer;

fn buffer(s: &str) -> TextBuffer {
    TextBuffer::new(s.chars().collect())
}

#[test]
fn range_ends_and_direction() {
    let forward = Range::new(2, 7);
    assert_eq!(forward.from(), 2);
    assert_eq!(forward.to(), 7);
    assert_eq!(forward.direction(), Direction::Forward);
    assert!(!forward.is_empty());
    let backward = Range::new(7, 2);
    assert_eq!(backward.from(), 2);
    assert_eq!(backward.to(), 7);
    assert_eq!(backward.direction(), Direction::Backward);
    let point = Range::point(4);
    assert_eq!(point, Range::new(4, 4));
    assert!(point.is_empty());
    assert_eq!(point.direction(), Direction::Forward);
}

#[test]
fn with_direction_flips_only_when_needed() {
    let forward = Range::new(2, 7);
    assert_eq!(forward.with_direction(Direction::Forward), Range::new(2, 7));
    assert_eq!(forward.with_direction(Direction::Backward), Range::new(7, 2));
    assert_eq!(forward.flip(), Range::new(7, 2));
    let backward = Range::new(7, 2);
    assert_eq!(backward.with_direction(Direction::Backward), Range::new(7, 2));
    assert_eq!(backward.with_direction(Direction::Forward), Range::new(2, 7));
}

#[test]
fn cursor_is_before_the_head_of_a_forward_range() {
    let text = buffer("foo\nbar");
    assert_eq!(Range::new(1, 5).cursor(&text), 4);
    assert_eq!(Range::new(5, 1).cursor(&text), 1);
    assert_eq!(Range::point(3).cursor(&text), 3);
    assert_eq!(Range::new(0, 100).cursor(&text), 6);
}

#[test]
fn cursor_line_follows_the_cursor() {
    let text = buffer("foo\nbar");
    assert_eq!(Range::new(0, 4).cursor_line(&text), 0);
    assert_eq!(Range::new(0, 5).cursor_line(&text), 1);
    assert_eq!(Range::point(4).cursor_line(&text), 1);
    assert_eq!(Range::point(999).cursor_line(&text), 1);
}

#[test]
fn line_range_stops_at_the_last_covered_character() {
    let text = buffer("foo\nbar\nbaz");
    assert_eq!(Range::new(0, 4).line_range(&text), (0, 0));
    assert_eq!(Range::new(0, 5).line_range(&text), (0, 1));
    assert_eq!(Range::new(9, 2).line_range(&text), (0, 2));
    assert_eq!(Range::point(4).line_range(&text), (1, 1));
    assert_eq!(Range::point(500).line_range(&text), (2, 2));
}

#[test]
fn put_cursor_collapses_when_not_extending() {
    let text = buffer("hello world");
    assert_eq!(Range::new(2, 5).put_cursor(&text, 8, false), Range::point(8));
}

#[test]
fn put_cursor_keeps_the_anchor_while_extending_forward() {
    let text = buffer("hello world");
    assert_eq!(Range::new(2, 5).put_cursor(&text, 8, true), Range::new(2, 9));
    assert_eq!(Range::new(2, 5).put_cursor(&text, 2, true), Range::new(2, 3));
}

#[test]
fn put_cursor_moves_the_anchor_when_the_cursor_crosses_it() {
    let text = buffer("hello world");
    assert_eq!(Range::new(5, 8).put_cursor(&text, 2, true), Range::new(6, 2));
    assert_eq!(Range::new(8, 5).put_cursor(&text, 9, true), Range::new(7, 10));
    assert_eq!(Range::new(8, 5).put_cursor(&text, 3, true), Range::new(8, 3));
}

#[test]
fn put_cursor_stays_inside_the_text() {
    let text = buffer("abc");
    assert_eq!(Range::point(1).put_cursor(&text, 3, true), Range::new(1, 3));
    assert_eq!(Range::point(3).put_cursor(&text, 0, true), Range::new(3, 0));
}

#[test]
fn selection_holds_its_ranges_in_order() {
    let selection = Selection::new(vec![Range::new(0, 2), Range::new(9, 5), Range::point(3)]);
    assert_eq!(selection.len(), 3);
    assert_eq!(selection.get(0), Some(Range::new(0, 2)));
    assert_eq!(selection.get(1), Some(Range::new(9, 5)));
    assert_eq!(selection.get(2), Some(Range::point(3)));
    assert_eq!(selection.get(3), None);
    assert_eq!(selection.ranges(), &vec![Range::new(0, 2), Range::new(9, 5), Range::point(3)]);
    assert_eq!(selection.duplicate().ranges(), selection.ranges());
}

#[test]
fn single_and_point_selections() {
    assert_eq!(Selection::single(3, 8).ranges(), &vec![Range::new(3, 8)]);
    assert_eq!(Selection::point(6).ranges(), &vec![Range::point(6)]);
    assert!(Selection::single(3, 8).is_extended());
    assert!(!Selection::point(6).is_extended());
    assert!(Selection::new(vec![Range::point(1), Range::new(4, 2)]).is_extended());
}

#[test]
fn transform_keeps_count_and_order() {
    let text = buffer("0123456789");
    let selection = Selection::new(vec![Range::new(8, 9), Range::new(0, 1), Range::new(4, 5)]);
    let out = selection.transform(&text, |_, range| Range::new(range.anchor + 1, range.head + 1));
    assert_eq!(out.len(), selection.len());
    assert_eq!(out.ranges(), &vec![Range::new(9, 10), Range::new(1, 2), Range::new(5, 6)]);
}

#[test]
fn transform_does_not_merge_equal_results() {
    let text = buffer("0123456789");
    let selection = Selection::new(vec![Range::point(1), Range::point(2), Range::point(3)]);
    let out = selection.transform(&text, |_, _| Range::new(0, 4));
    assert_eq!(out.len(), 3);
    assert_eq!(out.ranges(), &vec![Range::new(0, 4), Range::new(0, 4), Range::new(0, 4)]);
}

#[test]
fn transform_points_results_the_way_the_inputs_point() {
    let text = buffer("0123456789");
    let selection = Selection::new(vec![Range::new(1, 3), Range::new(7, 5), Range::point(2)]);
    let out = selection.transform(&text, |_, range| Range::new(range.from(), range.to() + 1));
    assert_eq!(out.ranges(), &vec![Range::new(1, 4), Range::new(8, 5), Range::new(2, 3)]);
    let flipped = selection.transform(&text, |_, range| Range::new(range.to() + 1, range.from()));
    assert_eq!(flipped.ranges(), &vec![Range::new(1, 4), Range::new(8, 5), Range::new(2, 3)]);
}

#[test]
fn transform_hands_the_text_to_the_function() {
    let text = buffer("ab\ncd\nef");
    let selection = Selection::new(vec![Range::point(0), Range::point(4)]);
    let out = selection.transform(&text, |t, range| {
        let line = range.cursor_line(t);
        Range::new(t.line_to_char(line), t.line_end_char_index(line))
    });
    assert_eq!(out.ranges(), &vec![Range::new(0, 2), Range::new(3, 5)]);
}

#[test]
fn fragments_come_one_per_range_in_order() {
    let text = buffer("hello world");
    let selection = Selection::new(vec![Range::new(6, 11), Range::new(5, 0), Range::point(3)]);
    let fragments = selection.fragments(&text);
    assert_eq!(fragments.len(), 3);
    assert_eq!(fragments[0], "world".chars().collect::<Vec<char>>());
    assert_eq!(fragments[1], "hello".chars().collect::<Vec<char>>());
    assert_eq!(fragments[2], Vec::<char>::new());
}

#[test]
fn a_selection_needs_a_range() {
    assert!(Selection::try_new(Vec::new()).is_none());
    let made = Selection::try_new(vec![Range::new(1, 2), Range::point(0)]).unwrap();
    assert_eq!(made.ranges(), &vec![Range::new(1, 2), Range::point(0)]);
}
