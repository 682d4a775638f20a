use fallible::some::{MoveIt, SomeFrom, SomeInto};

#[derive(Debug, PartialEq)]
struct Digit(u8);

impl SomeFrom<char> for Digit {
    fn some_from(value: char) -> Option<Self> {
        value.to_digit(10).map(|d| Digit(d as u8))
    }
}

#[test]
fn can_early_return() {
    let a = Some(3);
    let b = match a {
        Some(t) => t,
        None => return Default::default(),
    };
    assert!(b == 3);
}

#[test]
fn some_from_gives_something_or_nothing() {
    assert_eq!(Digit::some_from('7'), Some(Digit(7)));
    assert_eq!(Digit::some_from('x'), None);
}

#[test]
fn some_into_mirrors_some_from() {
    let seven: Option<Digit> = '7'.some_into();
    assert_eq!(seven, Some(Digit(7)));
    let nothing: Option<Digit> = 'x'.some_into();
    assert_eq!(nothing, None);
}

#[test]
fn move_it_calls_the_function_on_the_value() {
    assert_eq!(3_usize.move_it(|v| (v, v + 4)), (3, 7));
}

#[test]
fn move_it_chains() {
    let sum = 3_usize
        .move_it(|v| (v, v + 4))
        .move_it(Some)
        .map(|(l, r)| l..r)
        .unwrap()
        .move_it(|range| range.start + range.end);
    assert_eq!(sum, 10);
}
