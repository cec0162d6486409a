use tsugumi::model::{
    CollectionType, Direction, Layout, Orientation, Rendition, Spread, TitleType, UnknownVariant,
};

#[test]
fn test_title_type_table() {
    for (text, value) in [
        ("main", TitleType::Main),
        ("subtitle", TitleType::Subtitle),
        ("short", TitleType::Short),
        ("collection", TitleType::Collection),
        ("edition", TitleType::Edition),
        ("expanded", TitleType::Expanded),
    ] {
        assert_eq!(TitleType::from_str(text), Ok(value));
        assert_eq!(value.as_str(), text);
    }
    assert_eq!(TitleType::from_str("hoge"), Err(UnknownVariant));
}

#[test]
fn test_collection_type_table() {
    assert_eq!(CollectionType::from_str("series"), Ok(CollectionType::Series));
    assert_eq!(CollectionType::from_str("set"), Ok(CollectionType::SetGroup));
    assert_eq!(CollectionType::Series.as_str(), "series");
    assert_eq!(CollectionType::SetGroup.as_str(), "set");
    assert_eq!(CollectionType::from_str("box"), Err(UnknownVariant));
}

#[test]
fn test_direction_table() {
    assert_eq!(Direction::from_str("rtl"), Ok(Direction::RightToLeft));
    assert_eq!(Direction::from_str("ltr"), Ok(Direction::LeftToRight));
    assert_eq!(Direction::RightToLeft.as_str(), "rtl");
    assert_eq!(Direction::from_str("ttb"), Err(UnknownVariant));
}

#[test]
fn test_layout_orientation_spread_tables() {
    assert_eq!(Layout::from_str("pre-paginated"), Ok(Layout::PrePaginated));
    assert_eq!(Layout::from_str("reflowable"), Ok(Layout::Reflowable));
    assert_eq!(Layout::PrePaginated.as_str(), "pre-paginated");
    assert_eq!(Orientation::from_str("landscape"), Ok(Orientation::Landscape));
    assert_eq!(Orientation::Auto.as_str(), "auto");
    assert_eq!(Spread::from_str("none"), Ok(Spread::NoSpread));
    assert_eq!(Spread::from_str("both"), Ok(Spread::Both));
    assert_eq!(Spread::NoSpread.as_str(), "none");
    assert_eq!(Spread::from_str("wide"), Err(UnknownVariant));
}

#[test]
fn test_rendition_defaults() {
    let r = Rendition::default();
    assert_eq!(r.direction, Direction::RightToLeft);
    assert_eq!(r.layout, Layout::PrePaginated);
    assert_eq!(r.orientation, Orientation::Auto);
    assert_eq!(r.spread, Spread::Auto);
    assert!(r.style.is_empty());
}
