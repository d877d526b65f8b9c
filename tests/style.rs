use rsml::base::{Length, ParseError, Percentage};
use rsml::dim3::Dim3;
use rsml::flex::{AlignItem, FlexBasis, FlexDirection, JustifyContent};
use rsml::style::{
    AxisPos, Display, PositionValue, SizeValue, SpacePosition, SpaceSize, Style,
};

#[test]
fn mod_test_display_parsing() {
    assert_eq!(Display::from_str("cube").unwrap(), Display::Cube);
    assert_eq!(Display::from_str("flex").unwrap(), Display::Flex);
    assert!(Display::from_str("invalid").is_err());
}

#[test]
fn mod_test_justify_content_parsing() {
    assert_eq!(JustifyContent::from_str("flex-start").unwrap(), JustifyContent::FlexStart);
    assert_eq!(JustifyContent::from_str("flex-end").unwrap(), JustifyContent::FlexEnd);
    assert_eq!(JustifyContent::from_str("center").unwrap(), JustifyContent::Center);
    assert_eq!(JustifyContent::from_str("space-between").unwrap(), JustifyContent::SpaceBetween);
    assert_eq!(JustifyContent::from_str("space-around").unwrap(), JustifyContent::SpaceAround);
    assert_eq!(JustifyContent::from_str("space-evenly").unwrap(), JustifyContent::SpaceEvenly);
    assert!(JustifyContent::from_str("invalid").is_err());
}

#[test]
fn style_test_justify_content_parsing() {
    assert_eq!(JustifyContent::from_str("flex-start").unwrap(), JustifyContent::FlexStart);
    assert_eq!(JustifyContent::from_str("flex-end").unwrap(), JustifyContent::FlexEnd);
    assert_eq!(JustifyContent::from_str("center").unwrap(), JustifyContent::Center);
    assert_eq!(JustifyContent::from_str("space-between").unwrap(), JustifyContent::SpaceBetween);
    assert_eq!(JustifyContent::from_str("space-around").unwrap(), JustifyContent::SpaceAround);
    assert_eq!(JustifyContent::from_str("space-evenly").unwrap(), JustifyContent::SpaceEvenly);
    assert!(JustifyContent::from_str("invalid").is_err());
}

#[test]
fn test_align_items_parsing() {
    let style = Style::from_style_string("align-items:flex-start center").unwrap();
    assert_eq!(style.align_items.cross1, AlignItem::FlexStart);
    assert_eq!(style.align_items.cross2, AlignItem::Center);

    let style = Style::from_style_string("display:flex").unwrap();
    assert_eq!(style.align_items.cross1, AlignItem::FlexStart);
    assert_eq!(style.align_items.cross2, AlignItem::FlexStart);
}

#[test]
fn mod_test_flex_direction_parsing() {
    assert_eq!(FlexDirection::from_str("x").unwrap(), FlexDirection::X);
    assert_eq!(FlexDirection::from_str("y").unwrap(), FlexDirection::Y);
    assert_eq!(FlexDirection::from_str("z").unwrap(), FlexDirection::Z);
    assert!(FlexDirection::from_str("invalid").is_err());
}

#[test]
fn mod_test_axis_pos_parsing() {
    assert_eq!(AxisPos::from_str("min").unwrap(), AxisPos::Min);
    assert_eq!(AxisPos::from_str("max").unwrap(), AxisPos::Max);
    assert_eq!(AxisPos::from_str("random").unwrap(), AxisPos::Random);
    assert_eq!(AxisPos::from_str("10cm").unwrap(), AxisPos::Length(Length::from_cm(10)));
    assert!(AxisPos::from_str("invalid").is_err());
}

#[test]
fn style_test_axis_pos_parsing() {
    assert_eq!(AxisPos::from_str("min").unwrap(), AxisPos::Min);
    assert_eq!(AxisPos::from_str("max").unwrap(), AxisPos::Max);
    assert_eq!(AxisPos::from_str("random").unwrap(), AxisPos::Random);
    assert_eq!(AxisPos::from_str("10cm").unwrap(), AxisPos::Length(Length::from_cm(10)));
    assert!(AxisPos::from_str("invalid").is_err());
}

#[test]
fn test_flex_basis_to_size_value_conversion() {
    let flex_basis_length = FlexBasis::Length(Length::from_mm(100));
    let size_value: SizeValue = flex_basis_length.into();
    assert_eq!(size_value, SizeValue::Length(Length::from_mm(100)));

    let flex_basis_percentage = FlexBasis::Percentage(Percentage::new(50));
    let size_value: SizeValue = flex_basis_percentage.into();
    assert_eq!(size_value, SizeValue::Percentage(Percentage::new(50)));

    let flex_basis_auto = FlexBasis::Auto;
    let size_value: SizeValue = flex_basis_auto.into();
    assert_eq!(size_value, SizeValue::Auto);
}

#[test]
fn mod_test_style_parsing() {
    let style_str = "size:10m 50% auto;display:flex;justify-content:flex-end;align-items:flex-start center;flex-direction:x;pos:10cm 20cm 30cm;flex-basis:50%";
    let style = Style::from_style_string(style_str).unwrap();

    assert_eq!(style.size_x(), &SizeValue::Length(Length::from_m(10)));
    assert_eq!(style.size_y(), &SizeValue::Percentage(Percentage::new(50)));
    assert_eq!(style.size_z(), &SizeValue::Auto);
    assert_eq!(style.display, Display::Flex);
    assert_eq!(style.justify_content, JustifyContent::FlexEnd);
    assert_eq!(style.align_items.cross1, AlignItem::FlexStart);
    assert_eq!(style.align_items.cross2, AlignItem::Center);
    assert_eq!(style.flex_direction, FlexDirection::X);
    assert_eq!(style.position_x(), &PositionValue::Length(Length::from_cm(10)));
    assert_eq!(style.position_y(), &PositionValue::Length(Length::from_cm(20)));
    assert_eq!(style.position_z(), &PositionValue::Length(Length::from_cm(30)));
    assert_eq!(style.flex_basis, FlexBasis::Percentage(Percentage::new(50)));
}

#[test]
fn mod_test_style_parsing_with_defaults() {
    let style = Style::from_style_string("display:flex").unwrap();

    assert_eq!(style.display, Display::Flex);
    assert_eq!(style.size_x(), &SizeValue::Auto);
    assert_eq!(style.size_y(), &SizeValue::Auto);
    assert_eq!(style.size_z(), &SizeValue::Auto);
    assert_eq!(style.justify_content, JustifyContent::FlexStart);
    assert_eq!(style.align_items.cross1, AlignItem::FlexStart);
    assert_eq!(style.align_items.cross2, AlignItem::FlexStart);
    assert_eq!(style.flex_direction, FlexDirection::default());
    assert_eq!(style.position_x(), &PositionValue::Auto);
    assert_eq!(style.position_y(), &PositionValue::Auto);
    assert_eq!(style.position_z(), &PositionValue::Auto);
    assert_eq!(style.flex_basis, FlexBasis::Auto);
}

#[test]
fn test_space_position_parsing() {
    let style = Style::from_style_string("pos:10cm 20cm auto").unwrap();
    assert_eq!(style.position_x(), &PositionValue::Length(Length::from_cm(10)));
    assert_eq!(style.position_y(), &PositionValue::Length(Length::from_cm(20)));
    assert_eq!(style.position_z(), &PositionValue::Auto);
}

#[test]
fn test_position_value_parsing() {
    assert_eq!(PositionValue::from_str("auto").unwrap(), PositionValue::Auto);
    assert_eq!(PositionValue::from_str("10cm").unwrap(), PositionValue::Length(Length::from_cm(10)));
    assert_eq!(PositionValue::from_str("5m").unwrap(), PositionValue::Length(Length::from_m(5)));
    assert_eq!(PositionValue::from_str("20mm").unwrap(), PositionValue::Length(Length::from_mm(20)));
}

#[test]
fn test_position_value_display() {
    assert_eq!(PositionValue::Auto.to_string(), "auto");
    assert_eq!(PositionValue::Length(Length::from_cm(10)).to_string(), "10cm");
    assert_eq!(PositionValue::Length(Length::from_m(5)).to_string(), "5m");
}

#[test]
fn test_space_position_default() {
    let position = SpacePosition::default();
    assert_eq!(position.x, PositionValue::Auto);
    assert_eq!(position.y, PositionValue::Auto);
    assert_eq!(position.z, PositionValue::Auto);
}

#[test]
fn test_space_position_display() {
    let position = SpacePosition {
        x: PositionValue::Length(Length::from_cm(10)),
        y: PositionValue::Length(Length::from_m(5)),
        z: PositionValue::Auto,
    };
    assert_eq!(position.to_string(), "10cm 5m auto");
}

#[test]
fn mod_test_invalid_style_parsing() {
    assert!(Style::from_style_string("invalid").is_err());
    assert!(Style::from_style_string("size:10m 5m").is_err());
    assert!(Style::from_style_string("display:invalid").is_err());
}

#[test]
fn test_space_size_from_dim3_length() {
    let dim3 = Dim3::new(Length::from_m(10), Length::from_cm(20), Length::from_mm(30));
    let space_size = SpaceSize::from_dim3_length(dim3);

    assert_eq!(space_size.x, SizeValue::Length(Length::from_m(10)));
    assert_eq!(space_size.y, SizeValue::Length(Length::from_cm(20)));
    assert_eq!(space_size.z, SizeValue::Length(Length::from_mm(30)));
}

#[test]
fn style_errors_by_kind() {
    assert_eq!(Style::from_style_string("invalid"), Err(ParseError::InvalidDeclaration));
    assert_eq!(Style::from_style_string("a:b:c"), Err(ParseError::InvalidDeclaration));
    assert_eq!(Style::from_style_string("size:10m 5m"), Err(ParseError::WrongValueCount));
    assert_eq!(Style::from_style_string("display:invalid"), Err(ParseError::UnknownKeyword));
    assert_eq!(Style::from_style_string("size:1m 2m 3km"), Err(ParseError::UnknownUnit));
    assert_eq!(Style::from_style_string("pos:1m 2m"), Err(ParseError::WrongValueCount));
}

#[test]
fn style_unknown_properties_and_blanks_are_skipped() {
    let style = Style::from_style_string(" ; colour:red ;; display : cube ; ").unwrap();
    assert_eq!(style.display, Display::Cube);
    assert_eq!(style.size, SpaceSize::default());
    let later = Style::from_style_string("display:cube;display:flex").unwrap();
    assert_eq!(later.display, Display::Flex);
    assert_eq!(Style::from_style_string("").unwrap(), Style::new());
}

#[test]
fn size_value_text_and_parse() {
    assert_eq!(SizeValue::from_str("AUTO"), Ok(SizeValue::Auto));
    assert_eq!(SizeValue::from_str(" 25% "), Ok(SizeValue::Percentage(Percentage::new(25))));
    assert_eq!(SizeValue::from_str("2M"), Ok(SizeValue::Length(Length::from_m(2))));
    assert_eq!(SizeValue::Percentage(Percentage::new(25)).to_string(), "25%");
    assert_eq!(
        SpaceSize::new(SizeValue::Length(Length::from_mm(15)), SizeValue::Auto, SizeValue::Percentage(Percentage::new(5))).to_string(),
        "15mm auto 5%"
    );
}

#[test]
fn size_value_merge_priority() {
    let mut v = SizeValue::Auto;
    v.assign_priority(SizeValue::Percentage(Percentage::new(40)));
    assert_eq!(v, SizeValue::Percentage(Percentage::new(40)));
    v.assign_priority(SizeValue::Length(Length::from_mm(3)));
    assert_eq!(v, SizeValue::Length(Length::from_mm(3)));
    v.assign_priority(SizeValue::Percentage(Percentage::new(10)));
    assert_eq!(v, SizeValue::Length(Length::from_mm(3)));
    v.assign_priority(SizeValue::Auto);
    assert_eq!(v, SizeValue::Length(Length::from_mm(3)));
    v.assign_priority(SizeValue::Length(Length::from_mm(9)));
    assert_eq!(v, SizeValue::Length(Length::from_mm(9)));
}

#[test]
fn size_value_add_and_max() {
    let mut v = SizeValue::Length(Length::from_mm(10));
    v.add(&SizeValue::Length(Length::from_mm(5)));
    assert_eq!(v, SizeValue::Length(Length::from_mm(15)));
    v.add(&SizeValue::Auto);
    assert_eq!(v, SizeValue::Length(Length::from_mm(15)));
    v.max(&SizeValue::Length(Length::from_mm(40)));
    assert_eq!(v, SizeValue::Length(Length::from_mm(40)));
    v.max(&SizeValue::Length(Length::from_mm(1)));
    assert_eq!(v, SizeValue::Length(Length::from_mm(40)));
    let mut a = SizeValue::Auto;
    a.add(&SizeValue::Length(Length::from_mm(5)));
    assert_eq!(a, SizeValue::Auto);
}

#[test]
fn space_size_helpers() {
    let s = SpaceSize::new(SizeValue::Auto, SizeValue::Percentage(Percentage::new(5)), SizeValue::Length(Length::from_mm(2)));
    assert!(s.has_auto());
    assert!(!s.all_length());
    assert_eq!(s.get_length(), None);
    let z = s.create_self_by_auto_to_zero();
    assert_eq!(z, SpaceSize::new(SizeValue::Length(Length::from_mm(0)), SizeValue::Percentage(Percentage::new(5)), SizeValue::Length(Length::from_mm(2))));
    let full = SpaceSize::zero();
    assert!(full.all_length());
    assert_eq!(full.get_length(), Some(Dim3::new(Length::from_mm(0), Length::from_mm(0), Length::from_mm(0))));
}

#[test]
fn axis_pos_absolute() {
    let lo = Length::from_mm(10);
    let hi = Length::from_mm(20);
    assert_eq!(AxisPos::Min.absolute_pos(lo, hi), lo);
    assert_eq!(AxisPos::Max.absolute_pos(lo, hi), hi);
    assert_eq!(AxisPos::Length(Length::from_mm(7)).absolute_pos(lo, hi), Length::from_mm(7));
    for _ in 0..20 {
        let r = AxisPos::Random.absolute_pos(lo, hi);
        assert!(r.mm() >= 10 && r.mm() <= 20);
    }
    assert_eq!(AxisPos::Random.absolute_pos(lo, lo), lo);
}
