use haikulang::location::Location;
use haikulang::span::{Span, Spanned};

#[test]
fn default_has_expected_value() {
    // Given
    let expected_location = Location {
        offset: 0,
        line: 1,
        column: 1,
    };

    // When
    let location = Location::default();

    // Then
    assert_eq!(expected_location, location);
}

#[test]
fn span_constructs_correctly() {
    // Given
    let span = Span::new(19, 27);

    // Then
    assert_eq!(span.start, 19);
    assert_eq!(span.start(), span.start);
    assert_eq!(span.end, 27);
    assert_eq!(span.end(), span.end);
}

#[test]
fn span_expands_correctly() {
    // Given
    let span1 = Span::new(19, 27);
    let span2 = Span::new(35, 42);

    // When
    let span3 = span1.to(span2);

    // Then
    assert_eq!(span3.start(), 19);
    assert_eq!(span3.end(), 42);
}

#[test]
fn span_produces_correct_range() {
    // Given
    let span = Span::new(19, 27);

    // When
    let range = span.range();

    // Then
    assert_eq!(range.start, 19);
    assert_eq!(range.end, 27);
    assert_eq!(range, 19..27);
}

#[derive(Clone, Copy, Debug, PartialEq)]
struct Something {
    a: i16,
    b: i32,
}

#[test]
fn spanned_constructs_correctly() {
    // Given
    let object = Something { a: 9, b: 18 };
    let span = Span::new(8, 24);

    // When
    let spanned = Spanned::new(object, span);

    // Then
    assert_eq!(spanned.value, object);
    assert_eq!(spanned.value(), spanned.value);
    assert_eq!(spanned.span, span);
    assert_eq!(spanned.span(), spanned.span);
}

#[test]
fn span_cover_is_the_minimal_cover_in_either_order() {
    let early = Span::new(3, 9);
    let late = Span::new(7, 20);
    assert_eq!(early.to(late), Span::new(3, 20));
    assert_eq!(late.to(early), Span::new(3, 20));
    let inner = Span::new(4, 5);
    assert_eq!(early.to(inner), early);
}

#[test]
fn unset_span_is_recognised() {
    assert!(Span::new_unset().is_unset());
    assert!(!Span::new(0, 0).is_unset());
    assert!(!Span::new(usize::MAX - 1, usize::MAX).is_unset());
}

#[test]
fn locations_count_lines_and_columns_from_one() {
    let text = b"ab\ncd\n\nxyz";
    assert_eq!(Location::of(text, 0), Location::default());
    assert_eq!(Location::of(text, 1), Location { offset: 1, line: 1, column: 2 });
    assert_eq!(Location::of(text, 2), Location { offset: 2, line: 1, column: 3 });
    assert_eq!(Location::of(text, 3), Location { offset: 3, line: 2, column: 1 });
    assert_eq!(Location::of(text, 6), Location { offset: 6, line: 3, column: 1 });
    assert_eq!(Location::of(text, 7), Location { offset: 7, line: 4, column: 1 });
    assert_eq!(Location::of(text, 10), Location { offset: 10, line: 4, column: 4 });
}
