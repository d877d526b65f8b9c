use rsml::base::{Length, Percentage};
use rsml::flex::{AlignItem, AlignItems, FlexBasis, FlexDirection, JustifyContent};
use rsml::style::{SizeValue, SpaceSize};

#[test]
fn test_flex_basis_from_str() {
    assert_eq!(FlexBasis::from_str("auto").unwrap(), FlexBasis::Auto);
    assert_eq!(
        FlexBasis::from_str("50%").unwrap(),
        FlexBasis::Percentage(Percentage::new(50))
    );
    assert_eq!(
        FlexBasis::from_str("100mm").unwrap(),
        FlexBasis::Length(Length::from_mm(100))
    );
    assert!(FlexBasis::from_str("invalid").is_err());
}

#[test]
fn test_align_item_from_str() {
    assert_eq!(AlignItem::from_str("flex-start").unwrap(), AlignItem::FlexStart);
    assert_eq!(AlignItem::from_str("flex-end").unwrap(), AlignItem::FlexEnd);
    assert_eq!(AlignItem::from_str("center").unwrap(), AlignItem::Center);
    assert!(AlignItem::from_str("invalid").is_err());
}

#[test]
fn test_align_items_from_str() {
    let align_items = AlignItems::from_str("flex-start center").unwrap();
    assert_eq!(align_items.cross1, AlignItem::FlexStart);
    assert_eq!(align_items.cross2, AlignItem::Center);

    let align_items = AlignItems::from_str("flex-end flex-start").unwrap();
    assert_eq!(align_items.cross1, AlignItem::FlexEnd);
    assert_eq!(align_items.cross2, AlignItem::FlexStart);

    assert!(AlignItems::from_str("invalid").is_err());
    assert!(AlignItems::from_str("flex-start").is_err());
    assert!(AlignItems::from_str("flex-start center extra").is_err());
}

#[test]
fn test_justify_content_from_str() {
    assert_eq!(JustifyContent::from_str("flex-start").unwrap(), JustifyContent::FlexStart);
    assert_eq!(JustifyContent::from_str("flex-end").unwrap(), JustifyContent::FlexEnd);
    assert_eq!(JustifyContent::from_str("center").unwrap(), JustifyContent::Center);
    assert_eq!(JustifyContent::from_str("space-between").unwrap(), JustifyContent::SpaceBetween);
    assert_eq!(JustifyContent::from_str("space-around").unwrap(), JustifyContent::SpaceAround);
    assert_eq!(JustifyContent::from_str("space-evenly").unwrap(), JustifyContent::SpaceEvenly);
    assert!(JustifyContent::from_str("invalid").is_err());
}

#[test]
fn test_flex_direction_from_str() {
    assert_eq!(FlexDirection::from_str("x").unwrap(), FlexDirection::X);
    assert_eq!(FlexDirection::from_str("y").unwrap(), FlexDirection::Y);
    assert_eq!(FlexDirection::from_str("z").unwrap(), FlexDirection::Z);
    assert_eq!(FlexDirection::from_str("x-reverse").unwrap(), FlexDirection::ReverseX);
    assert_eq!(FlexDirection::from_str("y-reverse").unwrap(), FlexDirection::ReverseY);
    assert_eq!(FlexDirection::from_str("z-reverse").unwrap(), FlexDirection::ReverseZ);
    assert!(FlexDirection::from_str("invalid").is_err());
}

#[test]
fn test_flex_basis_to_space_size() {
    let flex_basis = FlexBasis::Length(Length::from_mm(100));

    assert_eq!(
        flex_basis.to_space_size(&FlexDirection::X),
        SpaceSize::new(SizeValue::Length(Length::from_mm(100)), SizeValue::Auto, SizeValue::Auto)
    );

    assert_eq!(
        flex_basis.to_space_size(&FlexDirection::Y),
        SpaceSize::new(SizeValue::Auto, SizeValue::Length(Length::from_mm(100)), SizeValue::Auto)
    );

    assert_eq!(
        flex_basis.to_space_size(&FlexDirection::Z),
        SpaceSize::new(SizeValue::Auto, SizeValue::Auto, SizeValue::Length(Length::from_mm(100)))
    );

    let flex_basis = FlexBasis::Percentage(Percentage::new(50));

    assert_eq!(
        flex_basis.to_space_size(&FlexDirection::X),
        SpaceSize::new(SizeValue::Percentage(Percentage::new(50)), SizeValue::Auto, SizeValue::Auto)
    );

    let flex_basis = FlexBasis::Auto;

    assert_eq!(
        flex_basis.to_space_size(&FlexDirection::X),
        SpaceSize::new(SizeValue::Auto, SizeValue::Auto, SizeValue::Auto)
    );

    let flex_basis = FlexBasis::Length(Length::from_mm(100));

    assert_eq!(
        flex_basis.to_space_size(&FlexDirection::ReverseX),
        flex_basis.to_space_size(&FlexDirection::X)
    );

    assert_eq!(
        flex_basis.to_space_size(&FlexDirection::ReverseY),
        flex_basis.to_space_size(&FlexDirection::Y)
    );

    assert_eq!(
        flex_basis.to_space_size(&FlexDirection::ReverseZ),
        flex_basis.to_space_size(&FlexDirection::Z)
    );
}

#[test]
fn keywords_ignore_case_and_padding() {
    assert_eq!(JustifyContent::from_str("  Space-Between "), Ok(JustifyContent::SpaceBetween));
    assert_eq!(FlexDirection::from_str("Z-REVERSE"), Ok(FlexDirection::ReverseZ));
    assert_eq!(FlexBasis::from_str(" AUTO "), Ok(FlexBasis::Auto));
    assert_eq!(FlexDirection::default(), FlexDirection::ReverseZ);
    assert_eq!(JustifyContent::default(), JustifyContent::FlexStart);
}
