use rust_music_theory::chord::Number;
#[test]
fn test_number_seventh() {
    let string = "seventh";
    let (number, _) = Number::from_regex(string).unwrap();
    assert_eq!(Number::Seventh, number);
}

#[test]
fn test_number_triad() {
    let string = "triad";
    let (number, _) = Number::from_regex(string).unwrap();
    assert_eq!(Number::Triad, number);
}
