use tsugumi::spread::Spread;

#[test]
fn test_spread_next() {
    assert_eq!(Spread::Left.next(), Some(Spread::Right));
    assert_eq!(Spread::Right.next(), Some(Spread::Left));
    assert_eq!(Spread::Center.next(), Some(Spread::Right));
}

#[test]
fn test_spread_for_index_alternates() {
    assert_eq!(Spread::for_index(0), Spread::Left);
    assert_eq!(Spread::for_index(1), Spread::Right);
    assert_eq!(Spread::for_index(2), Spread::Left);
    assert_eq!(Spread::for_index(3), Spread::Right);
    assert_eq!(Spread::for_index(4), Spread::Left);
}

#[test]
fn test_spread_property_tokens() {
    assert_eq!(Spread::Left.property(), "page-spread-left");
    assert_eq!(Spread::Right.property(), "page-spread-right");
    assert_eq!(Spread::Center.property(), "rendition:page-spread-center");
}
