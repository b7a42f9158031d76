use rust_lang_book::advanced_traits::{outline, Animal, Dog, Point, Wrapper};
use rust_lang_book::smart_pointers::{hello, MyBox};
use rust_lang_book::text::{decimal, join, repeat, signed_decimal};

#[test]
fn decimal_writes_numerals_without_leading_zeros() {
    assert_eq!(decimal(0), "0");
    assert_eq!(decimal(7), "7");
    assert_eq!(decimal(10), "10");
    assert_eq!(decimal(1024), "1024");
    assert_eq!(decimal(90_001), "90001");
    assert_eq!(decimal(usize::MAX), usize::MAX.to_string());
}

#[test]
fn signed_decimal_puts_a_minus_before_negative_numbers() {
    assert_eq!(signed_decimal(0), "0");
    assert_eq!(signed_decimal(42), "42");
    assert_eq!(signed_decimal(-1), "-1");
    assert_eq!(signed_decimal(i32::MAX), "2147483647");
    assert_eq!(signed_decimal(i32::MIN), "-2147483648");
}

#[test]
fn repeat_writes_the_unit_that_many_times() {
    assert_eq!(repeat("*", 0), "");
    assert_eq!(repeat("*", 3), "***");
    assert_eq!(repeat("ab", 2), "abab");
}

#[test]
fn join_puts_the_separator_between_items_only() {
    assert_eq!(join(&vec![], ", "), "");
    assert_eq!(join(&vec![String::from("one")], ", "), "one");
    assert_eq!(
        join(&vec![String::from("a"), String::from(""), String::from("c")], "-"),
        "a--c"
    );
}

#[test]
fn dog_and_its_trait_name_their_young_differently() {
    assert_eq!(Dog::baby_name(), "Spot");
    assert_eq!(<Dog as Animal>::baby_name(), "puppy");
}

#[test]
fn point_is_written_in_round_brackets() {
    assert_eq!(Point { x: 2, y: 3 }.text(), "(2, 3)");
    assert_eq!(Point { x: -10, y: 0 }.text(), "(-10, 0)");
}

#[test]
fn outline_frames_the_text() {
    assert_eq!(
        outline("(2, 3)"),
        vec!["**********", "*        *", "* (2, 3) *", "*        *", "**********"]
    );
    assert_eq!(outline(""), vec!["****", "*  *", "*  *", "*  *", "****"]);
}

#[test]
fn outline_is_as_wide_as_the_text_has_bytes() {
    assert_eq!(
        outline("\u{e9}"),
        vec!["******", "*    *", "* \u{e9} *", "*    *", "******"]
    );
}

#[test]
fn wrapper_lists_its_items_in_square_brackets() {
    let wrapper = Wrapper(vec![String::from("hello"), String::from("world")]);
    assert_eq!(wrapper.text(), "[hello, world]");
    assert_eq!(Wrapper(vec![]).text(), "[]");
}

#[test]
fn my_box_hands_out_what_it_holds() {
    let x = 5;
    let y = MyBox::new(x);
    assert_eq!(5, x);
    assert_eq!(5, *y);
}

#[test]
fn my_box_of_a_string_coerces_to_a_string_slice() {
    let name = MyBox::new(String::from("test_1!"));
    assert_eq!(hello(&name), "Hello, test_1!!");
    assert_eq!(hello(&(*name)[..]), "Hello, test_1!!");
}
