use fallible::iter::W;
use fallible::scripted::Scripted;

#[test]
fn w_hands_out_what_it_holds() {
    let w = W::new(String::from("held"));
    assert_eq!(w.len(), 4);
    assert_eq!(*w, "held");
}

#[test]
fn w_lets_what_it_holds_change() {
    let mut w = W::new(vec![1, 2]);
    w.push(3);
    *w.last_mut().unwrap() += 1;
    assert_eq!(*w, vec![1, 2, 4]);
}

#[test]
fn w_turns_into_an_into_iter() {
    let outcomes: Vec<Result<Option<u8>, u8>> = vec![Ok(Some(1))];
    let _iter = W::new(Scripted::new(outcomes)).into_iter();
}
