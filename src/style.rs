use vstd::prelude::*;
use vstd::string::StringExecFns;
use crate::base::{
    length_parse, length_text, parse_length_chars, parse_percentage_chars, percentage_parse, sat,
    Length, ParseError, Percentage,
};
use crate::dim3::{len_max, Dim3};
use crate::flex::{
    align_items_parse, flex_basis_parse, flex_direction_parse, justify_content_parse,
    parse_align_items_chars, parse_flex_basis_chars, parse_flex_direction_chars,
    parse_justify_content_chars, AlignItem, AlignItems, FlexBasis, FlexDirection, JustifyContent,
};
use crate::text::{
    chars_of, eq_exact, eq_nocase, eq_word, split_chars, split_seq, split_words, trim, trimmed,
    views, words,
};

verus! {

/// A size on one axis: a length, a share of the parent, or not yet known.
#[derive(Debug, Clone, Copy, PartialEq, Eq, Structural)]
pub enum SizeValue {
    Length(Length),
    Percentage(Percentage),
    Auto,
}

impl Default for SizeValue {
    fn default() -> (r: SizeValue)
        ensures
            r == SizeValue::Auto,
    {
        SizeValue::Auto
    }
}

/// Rank in the merge order: a length outranks a percentage, which outranks `Auto`.
pub open spec fn rank(v: SizeValue) -> int {
    match v {
        SizeValue::Length(_) => 2,
        SizeValue::Percentage(_) => 1,
        SizeValue::Auto => 0,
    }
}

/// The value of a slot holding `a` after `b` is assigned to it with priority.
pub open spec fn merge(a: SizeValue, b: SizeValue) -> SizeValue {
    match b {
        SizeValue::Length(_) => b,
        SizeValue::Percentage(_) => if a is Length {
            a
        } else {
            b
        },
        SizeValue::Auto => a,
    }
}

/// The slot after adding `b` along a stacking axis.
pub open spec fn size_add(a: SizeValue, b: SizeValue) -> SizeValue {
    match (a, b) {
        (SizeValue::Length(x), SizeValue::Length(y)) => SizeValue::Length(Length(sat(x.0 + y.0))),
        _ => a,
    }
}

/// The slot after taking the larger with `b` on a cross axis.
pub open spec fn size_max(a: SizeValue, b: SizeValue) -> SizeValue {
    match (a, b) {
        (SizeValue::Length(x), SizeValue::Length(y)) => SizeValue::Length(len_max(x, y)),
        _ => a,
    }
}

/// What reading `s` as a size value gives.
pub open spec fn size_value_parse(s: Seq<char>) -> Result<SizeValue, ParseError> {
    let t = trim(s);
    if eq_nocase(t, "auto"@) {
        Ok(SizeValue::Auto)
    } else if t.len() > 0 && t.last() == '%' {
        match percentage_parse(t) {
            Ok(p) => Ok(SizeValue::Percentage(p)),
            Err(e) => Err(e),
        }
    } else {
        match length_parse(t) {
            Ok(l) => Ok(SizeValue::Length(l)),
            Err(e) => Err(e),
        }
    }
}

/// The decimal digits and unit of a size value, or `auto`.
pub open spec fn size_value_text(v: SizeValue) -> Seq<char> {
    match v {
        SizeValue::Length(l) => length_text(l.0),
        SizeValue::Percentage(p) => crate::base::decimal(p.0 as nat) + "%"@,
        SizeValue::Auto => "auto"@,
    }
}

impl SizeValue {
    /// Reads `auto`, a percentage such as `50%`, or a length such as `10cm`.
    pub fn from_str(s: &str) -> (r: Result<SizeValue, ParseError>)
        ensures
            r == size_value_parse(s@),
    {
        let v = chars_of(s);
        parse_size_value_chars(&v)
    }

    /// Assigns `other` unless the slot already holds a value of higher rank.
    pub fn assign_priority(&mut self, other: SizeValue)
        ensures
            *final(self) == merge(*old(self), other),
    {
        match other {
            SizeValue::Length(_) => {
                *self = other;
            },
            SizeValue::Percentage(_) => {
                if !self.is_length() {
                    *self = other;
                }
            },
            SizeValue::Auto => {},
        }
    }

    /// Adds `other` when both are lengths (saturating); otherwise leaves the slot.
    pub fn add(&mut self, other: &SizeValue)
        ensures
            *final(self) == size_add(*old(self), *other),
    {
        if let SizeValue::Length(a) = *self {
            if let SizeValue::Length(b) = *other {
                *self = SizeValue::Length(a.plus(b));
            }
        }
    }

    /// Takes the larger with `other` when both are lengths; otherwise leaves the slot.
    pub fn max(&mut self, other: &SizeValue)
        ensures
            *final(self) == size_max(*old(self), *other),
    {
        if let SizeValue::Length(a) = *self {
            if let SizeValue::Length(b) = *other {
                *self = SizeValue::Length(a.max_of(b));
            }
        }
    }

    pub fn is_length(&self) -> (r: bool)
        ensures
            r == (*self is Length),
    {
        match self {
            SizeValue::Length(_) => true,
            _ => false,
        }
    }

    pub fn is_auto(&self) -> (r: bool)
        ensures
            r == (*self is Auto),
    {
        match self {
            SizeValue::Auto => true,
            _ => false,
        }
    }

    /// The text of the value: a length in its largest exact unit, `NN%`, or `auto`.
    pub fn to_string(&self) -> (r: String)
        ensures
            r@ == size_value_text(*self),
    {
        match self {
            SizeValue::Length(l) => l.to_string(),
            SizeValue::Percentage(p) => p.to_string(),
            SizeValue::Auto => "auto".to_owned(),
        }
    }
}

pub fn parse_size_value_chars(s: &Vec<char>) -> (r: Result<SizeValue, ParseError>)
    ensures
        r == size_value_parse(s@),
{
    let t = trimmed(s);
    if eq_word(&t, "auto") {
        Ok(SizeValue::Auto)
    } else if t.len() > 0 && t[t.len() - 1] == '%' {
        match parse_percentage_chars(&t) {
            Ok(p) => Ok(SizeValue::Percentage(p)),
            Err(e) => Err(e),
        }
    } else {
        match parse_length_chars(&t) {
            Ok(l) => Ok(SizeValue::Length(l)),
            Err(e) => Err(e),
        }
    }
}

impl core::str::FromStr for SizeValue {
    type Err = ParseError;

    fn from_str(s: &str) -> Result<SizeValue, ParseError> {
        SizeValue::from_str(s)
    }
}

impl From<FlexBasis> for SizeValue {
    fn from(b: FlexBasis) -> SizeValue {
        b.to_size_value()
    }
}

impl vstd::std_specs::convert::FromSpecImpl<FlexBasis> for SizeValue {
    open spec fn obeys_from_spec() -> bool {
        true
    }

    open spec fn from_spec(b: FlexBasis) -> SizeValue {
        crate::flex::basis_value(b)
    }
}

impl From<Length> for SizeValue {
    fn from(l: Length) -> SizeValue {
        SizeValue::Length(l)
    }
}

impl vstd::std_specs::convert::FromSpecImpl<Length> for SizeValue {
    open spec fn obeys_from_spec() -> bool {
        true
    }

    open spec fn from_spec(l: Length) -> SizeValue {
        SizeValue::Length(l)
    }
}

/// Assigning a length always leaves that length in the slot.
pub proof fn lemma_merge_length_wins(a: SizeValue, l: Length)
    ensures
        merge(a, SizeValue::Length(l)) == SizeValue::Length(l),
{
}

/// Assigning `Auto` never changes the slot.
pub proof fn lemma_merge_auto_keeps(a: SizeValue)
    ensures
        merge(a, SizeValue::Auto) == a,
{
}

/// Assigning the same value twice is the same as assigning it once.
pub proof fn lemma_merge_idempotent(a: SizeValue, b: SizeValue)
    ensures
        merge(merge(a, b), b) == merge(a, b),
{
}

/// Two values of different rank give the same slot in either order, and the result
/// is never of lower rank than what was there.
pub proof fn lemma_merge_order_independent(a: SizeValue, b: SizeValue, c: SizeValue)
    requires
        rank(b) != rank(c),
    ensures
        merge(merge(a, b), c) == merge(merge(a, c), b),
        rank(merge(a, b)) >= rank(a),
{
}

/// A position on one axis: a length or not given.
#[derive(Debug, Clone, Copy, PartialEq, Eq, Structural)]
pub enum PositionValue {
    Length(Length),
    Auto,
}

impl Default for PositionValue {
    fn default() -> (r: PositionValue)
        ensures
            r == PositionValue::Auto,
    {
        PositionValue::Auto
    }
}

pub open spec fn position_value_parse(s: Seq<char>) -> Result<PositionValue, ParseError> {
    let t = trim(s);
    if eq_nocase(t, "auto"@) {
        Ok(PositionValue::Auto)
    } else {
        match length_parse(t) {
            Ok(l) => Ok(PositionValue::Length(l)),
            Err(e) => Err(e),
        }
    }
}

pub open spec fn position_value_text(v: PositionValue) -> Seq<char> {
    match v {
        PositionValue::Length(l) => length_text(l.0),
        PositionValue::Auto => "auto"@,
    }
}

pub fn parse_position_value_chars(s: &Vec<char>) -> (r: Result<PositionValue, ParseError>)
    ensures
        r == position_value_parse(s@),
{
    let t = trimmed(s);
    if eq_word(&t, "auto") {
        Ok(PositionValue::Auto)
    } else {
        match parse_length_chars(&t) {
            Ok(l) => Ok(PositionValue::Length(l)),
            Err(e) => Err(e),
        }
    }
}

impl PositionValue {
    /// Reads `auto` or a length.
    pub fn from_str(s: &str) -> (r: Result<PositionValue, ParseError>)
        ensures
            r == position_value_parse(s@),
    {
        let v = chars_of(s);
        parse_position_value_chars(&v)
    }

    /// The text of the value: a length in its largest exact unit, or `auto`.
    pub fn to_string(&self) -> (r: String)
        ensures
            r@ == position_value_text(*self),
    {
        match self {
            PositionValue::Length(l) => l.to_string(),
            PositionValue::Auto => "auto".to_owned(),
        }
    }
}

impl core::str::FromStr for PositionValue {
    type Err = ParseError;

    fn from_str(s: &str) -> Result<PositionValue, ParseError> {
        PositionValue::from_str(s)
    }
}

impl From<Length> for PositionValue {
    fn from(l: Length) -> PositionValue {
        PositionValue::Length(l)
    }
}

impl vstd::std_specs::convert::FromSpecImpl<Length> for PositionValue {
    open spec fn obeys_from_spec() -> bool {
        true
    }

    open spec fn from_spec(l: Length) -> PositionValue {
        PositionValue::Length(l)
    }
}

/// `a b c`, joined by single spaces.
pub fn join3(a: String, b: String, c: String) -> (r: String)
    ensures
        r@ == a@ + " "@ + b@ + " "@ + c@,
{
    let r = a.concat(" ");
    let r = r.concat(b.as_str());
    let r = r.concat(" ");
    r.concat(c.as_str())
}

/// A size value for each axis.
#[derive(Debug, Clone, Copy, PartialEq, Eq, Structural)]
pub struct SpaceSize {
    pub x: SizeValue,
    pub y: SizeValue,
    pub z: SizeValue,
}

impl Default for SpaceSize {
    fn default() -> (r: SpaceSize)
        ensures
            r == auto_size(),
    {
        SpaceSize { x: SizeValue::Auto, y: SizeValue::Auto, z: SizeValue::Auto }
    }
}

pub open spec fn auto_size() -> SpaceSize {
    SpaceSize { x: SizeValue::Auto, y: SizeValue::Auto, z: SizeValue::Auto }
}

pub open spec fn merge3(a: SpaceSize, b: SpaceSize) -> SpaceSize {
    SpaceSize { x: merge(a.x, b.x), y: merge(a.y, b.y), z: merge(a.z, b.z) }
}

pub open spec fn length_size(d: Dim3<Length>) -> SpaceSize {
    SpaceSize {
        x: SizeValue::Length(d.x),
        y: SizeValue::Length(d.y),
        z: SizeValue::Length(d.z),
    }
}

pub open spec fn zero_if_auto(v: SizeValue) -> SizeValue {
    if v is Auto {
        SizeValue::Length(Length(0))
    } else {
        v
    }
}

impl SpaceSize {
    pub open spec fn all_len(self) -> bool {
        self.x is Length && self.y is Length && self.z is Length
    }

    pub open spec fn any_auto(self) -> bool {
        self.x is Auto || self.y is Auto || self.z is Auto
    }

    pub fn new(x: SizeValue, y: SizeValue, z: SizeValue) -> (r: SpaceSize)
        ensures
            r == (SpaceSize { x, y, z }),
    {
        SpaceSize { x, y, z }
    }

    /// A size with the three lengths of `d`.
    pub fn from_dim3_length(d: Dim3<Length>) -> (r: SpaceSize)
        ensures
            r == length_size(d),
    {
        SpaceSize {
            x: SizeValue::Length(d.x),
            y: SizeValue::Length(d.y),
            z: SizeValue::Length(d.z),
        }
    }

    /// Zero length on every axis.
    pub fn zero() -> (r: SpaceSize)
        ensures
            r == length_size(Dim3 { x: Length(0), y: Length(0), z: Length(0) }),
    {
        SpaceSize {
            x: SizeValue::Length(Length(0)),
            y: SizeValue::Length(Length(0)),
            z: SizeValue::Length(Length(0)),
        }
    }

    /// Assigns `other` axis by axis with priority.
    pub fn assign_priority(&mut self, other: SpaceSize)
        ensures
            *final(self) == merge3(*old(self), other),
    {
        self.x.assign_priority(other.x);
        self.y.assign_priority(other.y);
        self.z.assign_priority(other.z);
    }

    /// Whether some axis is still `Auto`.
    pub fn has_auto(&self) -> (r: bool)
        ensures
            r == self.any_auto(),
    {
        self.x.is_auto() || self.y.is_auto() || self.z.is_auto()
    }

    /// Whether every axis is a length.
    pub fn all_length(&self) -> (r: bool)
        ensures
            r == self.all_len(),
    {
        self.x.is_length() && self.y.is_length() && self.z.is_length()
    }

    /// The same size with every `Auto` axis set to zero length.
    pub fn create_self_by_auto_to_zero(&self) -> (r: SpaceSize)
        ensures
            r == (SpaceSize { x: zero_if_auto(self.x), y: zero_if_auto(self.y), z: zero_if_auto(self.z) }),
    {
        let x = if self.x.is_auto() {
            SizeValue::Length(Length(0))
        } else {
            self.x
        };
        let y = if self.y.is_auto() {
            SizeValue::Length(Length(0))
        } else {
            self.y
        };
        let z = if self.z.is_auto() {
            SizeValue::Length(Length(0))
        } else {
            self.z
        };
        SpaceSize { x, y, z }
    }

    /// The three lengths, when every axis is a length.
    pub fn get_length(&self) -> (r: Option<Dim3<Length>>)
        ensures
            self.all_len() ==> r == Some(
                Dim3 { x: self.x->Length_0, y: self.y->Length_0, z: self.z->Length_0 },
            ),
            !self.all_len() ==> r is None,
    {
        match (self.x, self.y, self.z) {
            (SizeValue::Length(x), SizeValue::Length(y), SizeValue::Length(z)) => Some(
                Dim3 { x, y, z },
            ),
            _ => None,
        }
    }

    /// The text `x y z` of the three values.
    pub fn to_string(&self) -> (r: String)
        ensures
            r@ == size_value_text(self.x) + " "@ + size_value_text(self.y) + " "@
                + size_value_text(self.z),
    {
        join3(self.x.to_string(), self.y.to_string(), self.z.to_string())
    }
}

/// How a container lays out its children.
#[derive(Debug, Clone, Copy, PartialEq, Eq, Structural)]
pub enum Display {
    /// Stacks children along one axis.
    Flex,
    /// Takes only explicit sizes.
    Cube,
}

pub open spec fn display_parse(s: Seq<char>) -> Result<Display, ParseError> {
    let t = trim(s);
    if eq_nocase(t, "flex"@) {
        Ok(Display::Flex)
    } else if eq_nocase(t, "cube"@) {
        Ok(Display::Cube)
    } else {
        Err(ParseError::UnknownKeyword)
    }
}

pub fn parse_display_chars(s: &Vec<char>) -> (r: Result<Display, ParseError>)
    ensures
        r == display_parse(s@),
{
    let t = trimmed(s);
    if eq_word(&t, "flex") {
        Ok(Display::Flex)
    } else if eq_word(&t, "cube") {
        Ok(Display::Cube)
    } else {
        Err(ParseError::UnknownKeyword)
    }
}

impl Display {
    /// Reads `flex` or `cube`.
    pub fn from_str(s: &str) -> (r: Result<Display, ParseError>)
        ensures
            r == display_parse(s@),
    {
        let v = chars_of(s);
        parse_display_chars(&v)
    }

    pub fn to_string(&self) -> (r: String)
        ensures
            r@ == (match *self {
                Display::Flex => "flex"@,
                Display::Cube => "cube"@,
            }),
    {
        match self {
            Display::Flex => "flex".to_owned(),
            Display::Cube => "cube".to_owned(),
        }
    }
}

impl core::str::FromStr for Display {
    type Err = ParseError;

    fn from_str(s: &str) -> Result<Display, ParseError> {
        Display::from_str(s)
    }
}

/// A place on one axis between two bounds.
#[derive(Debug, Clone, Copy, PartialEq, Eq, Structural)]
pub enum AxisPos {
    Min,
    Max,
    Random,
    Length(Length),
}

pub open spec fn axis_pos_parse(s: Seq<char>) -> Result<AxisPos, ParseError> {
    let t = trim(s);
    if eq_nocase(t, "min"@) {
        Ok(AxisPos::Min)
    } else if eq_nocase(t, "max"@) {
        Ok(AxisPos::Max)
    } else if eq_nocase(t, "random"@) {
        Ok(AxisPos::Random)
    } else {
        match length_parse(s) {
            Ok(l) => Ok(AxisPos::Length(l)),
            Err(_) => Err(ParseError::UnknownKeyword),
        }
    }
}

/// Relies on `rand::Rng::gen_range` over `thread_rng`: a value drawn from `min..=max`.
#[verifier::external_body]
fn random_between(min: u32, max: u32) -> (r: u32)
    requires
        min <= max,
    ensures
        min <= r <= max,
{
    rand::Rng::gen_range(&mut rand::thread_rng(), min..=max)
}

impl AxisPos {
    /// Reads `min`, `max`, `random` or a length.
    pub fn from_str(s: &str) -> (r: Result<AxisPos, ParseError>)
        ensures
            r == axis_pos_parse(s@),
    {
        let v = chars_of(s);
        let t = trimmed(&v);
        if eq_word(&t, "min") {
            Ok(AxisPos::Min)
        } else if eq_word(&t, "max") {
            Ok(AxisPos::Max)
        } else if eq_word(&t, "random") {
            Ok(AxisPos::Random)
        } else {
            match parse_length_chars(&v) {
                Ok(l) => Ok(AxisPos::Length(l)),
                Err(_) => Err(ParseError::UnknownKeyword),
            }
        }
    }

    /// The place between `min` and `max`: one of the bounds, a given length, or a
    /// value drawn from the bounds.
    pub fn absolute_pos(&self, min: Length, max: Length) -> (r: Length)
        requires
            *self is Random ==> min.0 <= max.0,
        ensures
            *self is Min ==> r == min,
            *self is Max ==> r == max,
            *self is Random ==> min.0 <= r.0 <= max.0,
            *self is Length ==> r == self->Length_0,
    {
        match self {
            AxisPos::Min => min,
            AxisPos::Max => max,
            AxisPos::Random => Length(random_between(min.0, max.0)),
            AxisPos::Length(l) => *l,
        }
    }

    pub fn to_string(&self) -> (r: String)
        ensures
            r@ == (match *self {
                AxisPos::Min => "min"@,
                AxisPos::Max => "max"@,
                AxisPos::Random => "random"@,
                AxisPos::Length(l) => length_text(l.0),
            }),
    {
        match self {
            AxisPos::Min => "min".to_owned(),
            AxisPos::Max => "max".to_owned(),
            AxisPos::Random => "random".to_owned(),
            AxisPos::Length(l) => l.to_string(),
        }
    }
}

impl core::str::FromStr for AxisPos {
    type Err = ParseError;

    fn from_str(s: &str) -> Result<AxisPos, ParseError> {
        AxisPos::from_str(s)
    }
}

/// A position value for each axis.
#[derive(Debug, Clone, Copy, PartialEq, Eq, Structural)]
pub struct SpacePosition {
    pub x: PositionValue,
    pub y: PositionValue,
    pub z: PositionValue,
}

impl Default for SpacePosition {
    fn default() -> (r: SpacePosition)
        ensures
            r == auto_position(),
    {
        SpacePosition { x: PositionValue::Auto, y: PositionValue::Auto, z: PositionValue::Auto }
    }
}

pub open spec fn auto_position() -> SpacePosition {
    SpacePosition { x: PositionValue::Auto, y: PositionValue::Auto, z: PositionValue::Auto }
}

impl SpacePosition {
    /// The text `x y z` of the three values.
    pub fn to_string(&self) -> (r: String)
        ensures
            r@ == position_value_text(self.x) + " "@ + position_value_text(self.y) + " "@
                + position_value_text(self.z),
    {
        join3(self.x.to_string(), self.y.to_string(), self.z.to_string())
    }
}

/// Every layout property of a node.
#[derive(Debug, Clone, Copy, PartialEq, Eq, Structural)]
pub struct Style {
    pub size: SpaceSize,
    pub display: Display,
    pub justify_content: JustifyContent,
    pub align_items: AlignItems,
    pub flex_direction: FlexDirection,
    pub position: SpacePosition,
    pub flex_basis: FlexBasis,
}

/// The style of a node that declares nothing.
pub open spec fn default_style() -> Style {
    Style {
        size: auto_size(),
        display: Display::Flex,
        justify_content: JustifyContent::FlexStart,
        align_items: AlignItems { cross1: AlignItem::FlexStart, cross2: AlignItem::FlexStart },
        flex_direction: FlexDirection::ReverseZ,
        position: auto_position(),
        flex_basis: FlexBasis::Auto,
    }
}

impl Default for Style {
    fn default() -> (r: Style)
        ensures
            r == default_style(),
    {
        Style::new()
    }
}

/// Three values of one property, read from the words of `val`.
pub open spec fn size_triple(val: Seq<char>) -> Result<SpaceSize, ParseError> {
    let w = words(val);
    if w.len() != 3 {
        Err(ParseError::WrongValueCount)
    } else {
        match (size_value_parse(w[0]), size_value_parse(w[1]), size_value_parse(w[2])) {
            (Err(e), _, _) => Err(e),
            (Ok(_), Err(e), _) => Err(e),
            (Ok(_), Ok(_), Err(e)) => Err(e),
            (Ok(x), Ok(y), Ok(z)) => Ok(SpaceSize { x, y, z }),
        }
    }
}

pub open spec fn position_triple(val: Seq<char>) -> Result<SpacePosition, ParseError> {
    let w = words(val);
    if w.len() != 3 {
        Err(ParseError::WrongValueCount)
    } else {
        match (
            position_value_parse(w[0]),
            position_value_parse(w[1]),
            position_value_parse(w[2]),
        ) {
            (Err(e), _, _) => Err(e),
            (Ok(_), Err(e), _) => Err(e),
            (Ok(_), Ok(_), Err(e)) => Err(e),
            (Ok(x), Ok(y), Ok(z)) => Ok(SpacePosition { x, y, z }),
        }
    }
}

/// `st` after one declaration `property:value`; blank declarations and unknown
/// properties leave it as it is.
#[verifier::opaque]
pub open spec fn apply_declaration(st: Style, decl: Seq<char>) -> Result<Style, ParseError> {
    let d = trim(decl);
    let parts = split_seq(d, ':');
    if d.len() == 0 {
        Ok(st)
    } else if parts.len() != 2 {
        Err(ParseError::InvalidDeclaration)
    } else {
        let prop = trim(parts[0]);
        let val = trim(parts[1]);
        if prop == "size"@ {
            match size_triple(val) {
                Ok(v) => Ok(Style { size: v, ..st }),
                Err(e) => Err(e),
            }
        } else if prop == "display"@ {
            match display_parse(val) {
                Ok(v) => Ok(Style { display: v, ..st }),
                Err(e) => Err(e),
            }
        } else if prop == "justify-content"@ {
            match justify_content_parse(val) {
                Ok(v) => Ok(Style { justify_content: v, ..st }),
                Err(e) => Err(e),
            }
        } else if prop == "align-items"@ {
            match align_items_parse(val) {
                Ok(v) => Ok(Style { align_items: v, ..st }),
                Err(e) => Err(e),
            }
        } else if prop == "flex-direction"@ {
            match flex_direction_parse(val) {
                Ok(v) => Ok(Style { flex_direction: v, ..st }),
                Err(e) => Err(e),
            }
        } else if prop == "pos"@ {
            match position_triple(val) {
                Ok(v) => Ok(Style { position: v, ..st }),
                Err(e) => Err(e),
            }
        } else if prop == "flex-basis"@ {
            match flex_basis_parse(val) {
                Ok(v) => Ok(Style { flex_basis: v, ..st }),
                Err(e) => Err(e),
            }
        } else {
            Ok(st)
        }
    }
}

/// The default style after the declarations `decls`, in order, stopping at the first error.
pub open spec fn apply_all(decls: Seq<Seq<char>>) -> Result<Style, ParseError>
    decreases decls.len(),
{
    if decls.len() == 0 {
        Ok(default_style())
    } else {
        match apply_all(decls.drop_last()) {
            Err(e) => Err(e),
            Ok(st) => apply_declaration(st, decls.last()),
        }
    }
}

/// What reading a `;`-separated declaration string gives.
pub open spec fn style_parse(s: Seq<char>) -> Result<Style, ParseError> {
    apply_all(split_seq(s, ';'))
}

proof fn lemma_apply_all_err(decls: Seq<Seq<char>>, i: int, e: ParseError)
    requires
        0 <= i <= decls.len(),
        apply_all(decls.take(i)) == Err::<Style, ParseError>(e),
    ensures
        apply_all(decls) == Err::<Style, ParseError>(e),
    decreases decls.len() - i,
{
    if i < decls.len() {
        assert(decls.take(i + 1).drop_last() =~= decls.take(i));
        lemma_apply_all_err(decls, i + 1, e);
    } else {
        assert(decls.take(i) =~= decls);
    }
}

fn parse_size_triple(val: &Vec<char>) -> (r: Result<SpaceSize, ParseError>)
    ensures
        r == size_triple(val@),
{
    let w = split_words(val);
    if w.len() != 3 {
        return Err(ParseError::WrongValueCount);
    }
    assert(views(w@)[0] == w@[0]@);
    assert(views(w@)[1] == w@[1]@);
    assert(views(w@)[2] == w@[2]@);
    let x = match parse_size_value_chars(&w[0]) {
        Ok(v) => v,
        Err(e) => return Err(e),
    };
    let y = match parse_size_value_chars(&w[1]) {
        Ok(v) => v,
        Err(e) => return Err(e),
    };
    let z = match parse_size_value_chars(&w[2]) {
        Ok(v) => v,
        Err(e) => return Err(e),
    };
    Ok(SpaceSize { x, y, z })
}

fn parse_position_triple(val: &Vec<char>) -> (r: Result<SpacePosition, ParseError>)
    ensures
        r == position_triple(val@),
{
    let w = split_words(val);
    if w.len() != 3 {
        return Err(ParseError::WrongValueCount);
    }
    assert(views(w@)[0] == w@[0]@);
    assert(views(w@)[1] == w@[1]@);
    assert(views(w@)[2] == w@[2]@);
    let x = match parse_position_value_chars(&w[0]) {
        Ok(v) => v,
        Err(e) => return Err(e),
    };
    let y = match parse_position_value_chars(&w[1]) {
        Ok(v) => v,
        Err(e) => return Err(e),
    };
    let z = match parse_position_value_chars(&w[2]) {
        Ok(v) => v,
        Err(e) => return Err(e),
    };
    Ok(SpacePosition { x, y, z })
}

/// Applies one declaration to `st`.
pub fn apply_declaration_chars(st: Style, decl: &Vec<char>) -> (r: Result<Style, ParseError>)
    ensures
        r == apply_declaration(st, decl@),
{
    reveal(apply_declaration);
    let d = trimmed(decl);
    if d.len() == 0 {
        return Ok(st);
    }
    let parts = split_chars(&d, ':');
    if parts.len() != 2 {
        return Err(ParseError::InvalidDeclaration);
    }
    assert(views(parts@)[0] == parts@[0]@);
    assert(views(parts@)[1] == parts@[1]@);
    let prop = trimmed(&parts[0]);
    let val = trimmed(&parts[1]);
    if eq_exact(&prop, "size") {
        match parse_size_triple(&val) {
            Ok(v) => Ok(Style { size: v, ..st }),
            Err(e) => Err(e),
        }
    } else if eq_exact(&prop, "display") {
        match parse_display_chars(&val) {
            Ok(v) => Ok(Style { display: v, ..st }),
            Err(e) => Err(e),
        }
    } else if eq_exact(&prop, "justify-content") {
        match parse_justify_content_chars(&val) {
            Ok(v) => Ok(Style { justify_content: v, ..st }),
            Err(e) => Err(e),
        }
    } else if eq_exact(&prop, "align-items") {
        match parse_align_items_chars(&val) {
            Ok(v) => Ok(Style { align_items: v, ..st }),
            Err(e) => Err(e),
        }
    } else if eq_exact(&prop, "flex-direction") {
        match parse_flex_direction_chars(&val) {
            Ok(v) => Ok(Style { flex_direction: v, ..st }),
            Err(e) => Err(e),
        }
    } else if eq_exact(&prop, "pos") {
        match parse_position_triple(&val) {
            Ok(v) => Ok(Style { position: v, ..st }),
            Err(e) => Err(e),
        }
    } else if eq_exact(&prop, "flex-basis") {
        match parse_flex_basis_chars(&val) {
            Ok(v) => Ok(Style { flex_basis: v, ..st }),
            Err(e) => Err(e),
        }
    } else {
        Ok(st)
    }
}

impl Style {
    /// The style of a node that declares nothing.
    pub fn new() -> (r: Style)
        ensures
            r == default_style(),
    {
        Style {
            size: SpaceSize { x: SizeValue::Auto, y: SizeValue::Auto, z: SizeValue::Auto },
            display: Display::Flex,
            justify_content: JustifyContent::FlexStart,
            align_items: AlignItems { cross1: AlignItem::FlexStart, cross2: AlignItem::FlexStart },
            flex_direction: FlexDirection::ReverseZ,
            position: SpacePosition {
                x: PositionValue::Auto,
                y: PositionValue::Auto,
                z: PositionValue::Auto,
            },
            flex_basis: FlexBasis::Auto,
        }
    }

    pub fn size_x(&self) -> (r: &SizeValue)
        ensures
            *r == self.size.x,
    {
        &self.size.x
    }

    pub fn size_y(&self) -> (r: &SizeValue)
        ensures
            *r == self.size.y,
    {
        &self.size.y
    }

    pub fn size_z(&self) -> (r: &SizeValue)
        ensures
            *r == self.size.z,
    {
        &self.size.z
    }

    pub fn position_x(&self) -> (r: &PositionValue)
        ensures
            *r == self.position.x,
    {
        &self.position.x
    }

    pub fn position_y(&self) -> (r: &PositionValue)
        ensures
            *r == self.position.y,
    {
        &self.position.y
    }

    pub fn position_z(&self) -> (r: &PositionValue)
        ensures
            *r == self.position.z,
    {
        &self.position.z
    }

    /// Reads a declaration string such as `size:10m 50% auto;display:flex`, starting
    /// from the default style; the first malformed declaration fails the whole string.
    pub fn from_style_string(s: &str) -> (r: Result<Style, ParseError>)
        ensures
            r == style_parse(s@),
    {
        let v = chars_of(s);
        let decls = split_chars(&v, ';');
        let ghost ds = views(decls@);
        let mut st = Style::new();
        let mut i: usize = 0;
        assert(ds.take(0) =~= Seq::<Seq<char>>::empty());
        while i < decls.len()
            invariant
                ds == views(decls@),
                ds == split_seq(v@, ';'),
                v@ == s@,
                i <= decls@.len(),
                apply_all(ds.take(i as int)) == Ok::<Style, ParseError>(st),
            decreases decls@.len() - i,
        {
            assert(ds.take(i as int + 1).drop_last() =~= ds.take(i as int));
            assert(ds[i as int] == decls@[i as int]@);
            match apply_declaration_chars(st, &decls[i]) {
                Ok(next) => {
                    st = next;
                },
                Err(e) => {
                    proof {
                        let pre = ds.take(i as int + 1);
                        assert(pre.drop_last() =~= ds.take(i as int));
                        assert(pre.last() == ds[i as int]);
                        assert(apply_declaration(st, ds[i as int]) == Err::<Style, ParseError>(e));
                        assert(apply_all(pre) == Err::<Style, ParseError>(e));
                        lemma_apply_all_err(ds, i as int + 1, e);
                    }
                    return Err(e);
                },
            }
            i = i + 1;
        }
        assert(ds.take(ds.len() as int) =~= ds);
        Ok(st)
    }
}

/// The resolved size and place of a node.
#[derive(Debug, Clone, Copy, PartialEq, Eq, Structural)]
pub struct ComputedStyle {
    pub size: Dim3<Length>,
    pub pos: Dim3<Length>,
}

impl Default for ComputedStyle {
    fn default() -> (r: ComputedStyle)
        ensures
            r.size == (Dim3 { x: Length(0), y: Length(0), z: Length(0) }),
            r.pos == (Dim3 { x: Length(0), y: Length(0), z: Length(0) }),
    {
        ComputedStyle {
            size: Dim3 { x: Length(0), y: Length(0), z: Length(0) },
            pos: Dim3 { x: Length(0), y: Length(0), z: Length(0) },
        }
    }
}

} // verus!
