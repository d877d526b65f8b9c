use vstd::prelude::*;
use crate::base::{
    length_parse, parse_length_chars, parse_percentage_chars, percentage_parse, Length,
    ParseError, Percentage,
};
use crate::style::{SizeValue, SpaceSize};
use crate::text::{chars_of, eq_nocase, eq_word, split_words, trim, trimmed, views, words};

verus! {

/// The size a child asks for along its parent's main axis.
#[derive(Debug, Clone, Copy, PartialEq, Eq, Structural)]
pub enum FlexBasis {
    Length(Length),
    Percentage(Percentage),
    Auto,
}

impl Default for FlexBasis {
    fn default() -> (r: FlexBasis)
        ensures
            r == FlexBasis::Auto,
    {
        FlexBasis::Auto
    }
}

pub open spec fn basis_value(b: FlexBasis) -> SizeValue {
    match b {
        FlexBasis::Length(l) => SizeValue::Length(l),
        FlexBasis::Percentage(p) => SizeValue::Percentage(p),
        FlexBasis::Auto => SizeValue::Auto,
    }
}

/// What reading `s` as a flex basis gives.
pub open spec fn flex_basis_parse(s: Seq<char>) -> Result<FlexBasis, ParseError> {
    let t = trim(s);
    if eq_nocase(t, "auto"@) {
        Ok(FlexBasis::Auto)
    } else if t.len() > 0 && t.last() == '%' {
        match percentage_parse(t) {
            Ok(p) => Ok(FlexBasis::Percentage(p)),
            Err(e) => Err(e),
        }
    } else {
        match length_parse(t) {
            Ok(l) => Ok(FlexBasis::Length(l)),
            Err(e) => Err(e),
        }
    }
}

/// The size that a basis gives along the main axis of `direction`; the other two axes are `Auto`.
pub open spec fn basis_size(b: FlexBasis, direction: FlexDirection) -> SpaceSize {
    let v = basis_value(b);
    match direction.axis() {
        Axis::X => SpaceSize { x: v, y: SizeValue::Auto, z: SizeValue::Auto },
        Axis::Y => SpaceSize { x: SizeValue::Auto, y: v, z: SizeValue::Auto },
        Axis::Z => SpaceSize { x: SizeValue::Auto, y: SizeValue::Auto, z: v },
    }
}

impl FlexBasis {
    /// Reads `auto`, a percentage such as `50%`, or a length such as `10cm`.
    pub fn from_str(s: &str) -> (r: Result<FlexBasis, ParseError>)
        ensures
            r == flex_basis_parse(s@),
    {
        let v = chars_of(s);
        parse_flex_basis_chars(&v)
    }

    /// The basis as a size value.
    pub fn to_size_value(&self) -> (r: SizeValue)
        ensures
            r == basis_value(*self),
    {
        match self {
            FlexBasis::Length(l) => SizeValue::Length(*l),
            FlexBasis::Percentage(p) => SizeValue::Percentage(*p),
            FlexBasis::Auto => SizeValue::Auto,
        }
    }

    /// The basis placed on the main axis of `direction`, the other axes `Auto`.
    pub fn to_space_size(&self, direction: &FlexDirection) -> (r: SpaceSize)
        ensures
            r == basis_size(*self, *direction),
    {
        let v = self.to_size_value();
        match direction.main_axis() {
            Axis::X => SpaceSize { x: v, y: SizeValue::Auto, z: SizeValue::Auto },
            Axis::Y => SpaceSize { x: SizeValue::Auto, y: v, z: SizeValue::Auto },
            Axis::Z => SpaceSize { x: SizeValue::Auto, y: SizeValue::Auto, z: v },
        }
    }
}

pub fn parse_flex_basis_chars(s: &Vec<char>) -> (r: Result<FlexBasis, ParseError>)
    ensures
        r == flex_basis_parse(s@),
{
    let t = trimmed(s);
    if eq_word(&t, "auto") {
        Ok(FlexBasis::Auto)
    } else if t.len() > 0 && t[t.len() - 1] == '%' {
        match parse_percentage_chars(&t) {
            Ok(p) => Ok(FlexBasis::Percentage(p)),
            Err(e) => Err(e),
        }
    } else {
        match parse_length_chars(&t) {
            Ok(l) => Ok(FlexBasis::Length(l)),
            Err(e) => Err(e),
        }
    }
}

impl core::str::FromStr for FlexBasis {
    type Err = ParseError;

    fn from_str(s: &str) -> Result<FlexBasis, ParseError> {
        FlexBasis::from_str(s)
    }
}

/// Where a child sits on one cross axis of its container.
#[derive(Debug, Clone, Copy, PartialEq, Eq, Structural)]
pub enum AlignItem {
    FlexStart,
    FlexEnd,
    Center,
}

pub open spec fn align_item_parse(s: Seq<char>) -> Result<AlignItem, ParseError> {
    let t = trim(s);
    if eq_nocase(t, "flex-start"@) {
        Ok(AlignItem::FlexStart)
    } else if eq_nocase(t, "flex-end"@) {
        Ok(AlignItem::FlexEnd)
    } else if eq_nocase(t, "center"@) {
        Ok(AlignItem::Center)
    } else {
        Err(ParseError::UnknownKeyword)
    }
}

pub fn parse_align_item_chars(s: &Vec<char>) -> (r: Result<AlignItem, ParseError>)
    ensures
        r == align_item_parse(s@),
{
    let t = trimmed(s);
    if eq_word(&t, "flex-start") {
        Ok(AlignItem::FlexStart)
    } else if eq_word(&t, "flex-end") {
        Ok(AlignItem::FlexEnd)
    } else if eq_word(&t, "center") {
        Ok(AlignItem::Center)
    } else {
        Err(ParseError::UnknownKeyword)
    }
}

impl AlignItem {
    /// Reads `flex-start`, `flex-end` or `center`.
    pub fn from_str(s: &str) -> (r: Result<AlignItem, ParseError>)
        ensures
            r == align_item_parse(s@),
    {
        let v = chars_of(s);
        parse_align_item_chars(&v)
    }
}

impl core::str::FromStr for AlignItem {
    type Err = ParseError;

    fn from_str(s: &str) -> Result<AlignItem, ParseError> {
        AlignItem::from_str(s)
    }
}

/// Alignment on the two cross axes, in the order that the main axis fixes.
#[derive(Debug, Clone, Copy, PartialEq, Eq, Structural)]
pub struct AlignItems {
    pub cross1: AlignItem,
    pub cross2: AlignItem,
}

impl Default for AlignItems {
    fn default() -> (r: AlignItems)
        ensures
            r.cross1 == AlignItem::FlexStart && r.cross2 == AlignItem::FlexStart,
    {
        AlignItems { cross1: AlignItem::FlexStart, cross2: AlignItem::FlexStart }
    }
}

/// What reading `s` as two alignment words gives.
pub open spec fn align_items_parse(s: Seq<char>) -> Result<AlignItems, ParseError> {
    let w = words(s);
    if w.len() != 2 {
        Err(ParseError::WrongValueCount)
    } else {
        match align_item_parse(w[0]) {
            Err(e) => Err(e),
            Ok(a) => match align_item_parse(w[1]) {
                Err(e) => Err(e),
                Ok(b) => Ok(AlignItems { cross1: a, cross2: b }),
            },
        }
    }
}

pub fn parse_align_items_chars(s: &Vec<char>) -> (r: Result<AlignItems, ParseError>)
    ensures
        r == align_items_parse(s@),
{
    let w = split_words(s);
    if w.len() != 2 {
        return Err(ParseError::WrongValueCount);
    }
    assert(views(w@)[0] == w@[0]@);
    assert(views(w@)[1] == w@[1]@);
    let a = match parse_align_item_chars(&w[0]) {
        Ok(a) => a,
        Err(e) => return Err(e),
    };
    let b = match parse_align_item_chars(&w[1]) {
        Ok(b) => b,
        Err(e) => return Err(e),
    };
    Ok(AlignItems { cross1: a, cross2: b })
}

impl AlignItems {
    /// Reads two alignment words, such as `flex-start center`.
    pub fn from_str(s: &str) -> (r: Result<AlignItems, ParseError>)
        ensures
            r == align_items_parse(s@),
    {
        let v = chars_of(s);
        parse_align_items_chars(&v)
    }
}

impl core::str::FromStr for AlignItems {
    type Err = ParseError;

    fn from_str(s: &str) -> Result<AlignItems, ParseError> {
        AlignItems::from_str(s)
    }
}

/// How children are spread along the main axis.
#[derive(Debug, Clone, Copy, PartialEq, Eq, Structural)]
pub enum JustifyContent {
    FlexStart,
    FlexEnd,
    Center,
    SpaceBetween,
    SpaceAround,
    SpaceEvenly,
}

impl Default for JustifyContent {
    fn default() -> (r: JustifyContent)
        ensures
            r == JustifyContent::FlexStart,
    {
        JustifyContent::FlexStart
    }
}

pub open spec fn justify_content_parse(s: Seq<char>) -> Result<JustifyContent, ParseError> {
    let t = trim(s);
    if eq_nocase(t, "flex-start"@) {
        Ok(JustifyContent::FlexStart)
    } else if eq_nocase(t, "flex-end"@) {
        Ok(JustifyContent::FlexEnd)
    } else if eq_nocase(t, "center"@) {
        Ok(JustifyContent::Center)
    } else if eq_nocase(t, "space-between"@) {
        Ok(JustifyContent::SpaceBetween)
    } else if eq_nocase(t, "space-around"@) {
        Ok(JustifyContent::SpaceAround)
    } else if eq_nocase(t, "space-evenly"@) {
        Ok(JustifyContent::SpaceEvenly)
    } else {
        Err(ParseError::UnknownKeyword)
    }
}

pub fn parse_justify_content_chars(s: &Vec<char>) -> (r: Result<JustifyContent, ParseError>)
    ensures
        r == justify_content_parse(s@),
{
    let t = trimmed(s);
    if eq_word(&t, "flex-start") {
        Ok(JustifyContent::FlexStart)
    } else if eq_word(&t, "flex-end") {
        Ok(JustifyContent::FlexEnd)
    } else if eq_word(&t, "center") {
        Ok(JustifyContent::Center)
    } else if eq_word(&t, "space-between") {
        Ok(JustifyContent::SpaceBetween)
    } else if eq_word(&t, "space-around") {
        Ok(JustifyContent::SpaceAround)
    } else if eq_word(&t, "space-evenly") {
        Ok(JustifyContent::SpaceEvenly)
    } else {
        Err(ParseError::UnknownKeyword)
    }
}

impl JustifyContent {
    /// Reads one of the six `justify-content` keywords.
    pub fn from_str(s: &str) -> (r: Result<JustifyContent, ParseError>)
        ensures
            r == justify_content_parse(s@),
    {
        let v = chars_of(s);
        parse_justify_content_chars(&v)
    }
}

impl core::str::FromStr for JustifyContent {
    type Err = ParseError;

    fn from_str(s: &str) -> Result<JustifyContent, ParseError> {
        JustifyContent::from_str(s)
    }
}

/// One of the three spatial axes.
#[derive(Debug, Clone, Copy, PartialEq, Eq, Structural)]
pub enum Axis {
    X,
    Y,
    Z,
}

/// The axis along which a container stacks its children, and in which order.
#[derive(Debug, Clone, Copy, PartialEq, Eq, Structural)]
pub enum FlexDirection {
    X,
    Y,
    Z,
    ReverseX,
    ReverseY,
    ReverseZ,
}

impl Default for FlexDirection {
    fn default() -> (r: FlexDirection)
        ensures
            r == FlexDirection::ReverseZ,
    {
        FlexDirection::ReverseZ
    }
}

impl FlexDirection {
    pub open spec fn axis(self) -> Axis {
        match self {
            FlexDirection::X | FlexDirection::ReverseX => Axis::X,
            FlexDirection::Y | FlexDirection::ReverseY => Axis::Y,
            FlexDirection::Z | FlexDirection::ReverseZ => Axis::Z,
        }
    }

    pub open spec fn reversed(self) -> bool {
        match self {
            FlexDirection::ReverseX | FlexDirection::ReverseY | FlexDirection::ReverseZ => true,
            _ => false,
        }
    }

    /// The main axis, whichever the order.
    pub fn main_axis(&self) -> (r: Axis)
        ensures
            r == self.axis(),
    {
        match self {
            FlexDirection::X | FlexDirection::ReverseX => Axis::X,
            FlexDirection::Y | FlexDirection::ReverseY => Axis::Y,
            FlexDirection::Z | FlexDirection::ReverseZ => Axis::Z,
        }
    }

    /// Whether children are placed in reverse order.
    pub fn is_reverse(&self) -> (r: bool)
        ensures
            r == self.reversed(),
    {
        match self {
            FlexDirection::ReverseX | FlexDirection::ReverseY | FlexDirection::ReverseZ => true,
            _ => false,
        }
    }

    /// Reads one of `x`, `y`, `z`, `x-reverse`, `y-reverse`, `z-reverse`.
    pub fn from_str(s: &str) -> (r: Result<FlexDirection, ParseError>)
        ensures
            r == flex_direction_parse(s@),
    {
        let v = chars_of(s);
        parse_flex_direction_chars(&v)
    }
}

pub open spec fn flex_direction_parse(s: Seq<char>) -> Result<FlexDirection, ParseError> {
    let t = trim(s);
    if eq_nocase(t, "x"@) {
        Ok(FlexDirection::X)
    } else if eq_nocase(t, "y"@) {
        Ok(FlexDirection::Y)
    } else if eq_nocase(t, "z"@) {
        Ok(FlexDirection::Z)
    } else if eq_nocase(t, "x-reverse"@) {
        Ok(FlexDirection::ReverseX)
    } else if eq_nocase(t, "y-reverse"@) {
        Ok(FlexDirection::ReverseY)
    } else if eq_nocase(t, "z-reverse"@) {
        Ok(FlexDirection::ReverseZ)
    } else {
        Err(ParseError::UnknownKeyword)
    }
}

pub fn parse_flex_direction_chars(s: &Vec<char>) -> (r: Result<FlexDirection, ParseError>)
    ensures
        r == flex_direction_parse(s@),
{
    let t = trimmed(s);
    if eq_word(&t, "x") {
        Ok(FlexDirection::X)
    } else if eq_word(&t, "y") {
        Ok(FlexDirection::Y)
    } else if eq_word(&t, "z") {
        Ok(FlexDirection::Z)
    } else if eq_word(&t, "x-reverse") {
        Ok(FlexDirection::ReverseX)
    } else if eq_word(&t, "y-reverse") {
        Ok(FlexDirection::ReverseY)
    } else if eq_word(&t, "z-reverse") {
        Ok(FlexDirection::ReverseZ)
    } else {
        Err(ParseError::UnknownKeyword)
    }
}

impl core::str::FromStr for FlexDirection {
    type Err = ParseError;

    fn from_str(s: &str) -> Result<FlexDirection, ParseError> {
        FlexDirection::from_str(s)
    }
}

} // verus!
