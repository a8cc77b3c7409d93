//! Typed attribute values.
use vstd::prelude::*;

verus! {

/// Bit pattern of the `f32` value 0.0.
pub const F32_ZERO: u32 = 0x0000_0000;
/// Bit pattern of the `f32` value 0.5.
pub const F32_HALF: u32 = 0x3f00_0000;
/// Bit pattern of the `f32` value 1.0.
pub const F32_ONE: u32 = 0x3f80_0000;
/// Bit pattern of the `f32` value 600.0.
pub const F32_600: u32 = 0x4416_0000;
/// Bit pattern of the `f32` value 800.0.
pub const F32_800: u32 = 0x4448_0000;

#[derive(Clone, Copy, Debug, PartialEq, Eq, Structural)]
pub enum AttributeType {
    Integer,
    Float,
    String,
    Boolean,
    Vector2,
}

/// An attribute's value. `Float` and `Vector2` hold `f32` bit patterns.
#[derive(Debug, PartialEq)]
pub enum AttributeValue {
    Integer(i32),
    Float(u32),
    String(String),
    Boolean(bool),
    Vector2(u32, u32),
}

/// The mathematical value of an `AttributeValue`.
pub enum AttributeValueView {
    Integer(i32),
    Float(u32),
    String(Seq<char>),
    Boolean(bool),
    Vector2(u32, u32),
}

impl View for AttributeValue {
    type V = AttributeValueView;

    open spec fn view(&self) -> AttributeValueView {
        match self {
            AttributeValue::Integer(v) => AttributeValueView::Integer(*v),
            AttributeValue::Float(v) => AttributeValueView::Float(*v),
            AttributeValue::String(s) => AttributeValueView::String(s@),
            AttributeValue::Boolean(b) => AttributeValueView::Boolean(*b),
            AttributeValue::Vector2(x, y) => AttributeValueView::Vector2(*x, *y),
        }
    }
}

impl Clone for AttributeValue {
    fn clone(&self) -> (r: Self)
        ensures
            r@ == self@,
    {
        match self {
            AttributeValue::Integer(v) => AttributeValue::Integer(*v),
            AttributeValue::Float(v) => AttributeValue::Float(*v),
            AttributeValue::String(s) => AttributeValue::String(s.clone()),
            AttributeValue::Boolean(b) => AttributeValue::Boolean(*b),
            AttributeValue::Vector2(x, y) => AttributeValue::Vector2(*x, *y),
        }
    }
}

/// A named, typed value of an entity.
#[derive(Debug)]
pub struct Attribute {
    pub id: u128,
    pub name: String,
    pub data_type: AttributeType,
    pub value: AttributeValue,
}

pub struct AttributeView {
    pub id: u128,
    pub name: Seq<char>,
    pub data_type: AttributeType,
    pub value: AttributeValueView,
}

impl View for Attribute {
    type V = AttributeView;

    open spec fn view(&self) -> AttributeView {
        AttributeView {
            id: self.id,
            name: self.name@,
            data_type: self.data_type,
            value: self.value@,
        }
    }
}

impl Clone for Attribute {
    fn clone(&self) -> (r: Self)
        ensures
            r@ == self@,
    {
        Attribute {
            id: self.id,
            name: self.name.clone(),
            data_type: self.data_type,
            value: self.value.clone(),
        }
    }
}

/// Physical behaviour of an entity. `friction`, `restitution` and `density`
/// hold `f32` bit patterns.
#[derive(Clone, Copy, Debug)]
pub struct PhysicsProperties {
    pub is_movable: bool,
    pub affected_by_gravity: bool,
    pub creates_gravity: bool,
    pub has_collision: bool,
    pub friction: u32,
    pub restitution: u32,
    pub density: u32,
    pub can_rotate: bool,
}

impl Default for PhysicsProperties {
    fn default() -> (r: Self)
        ensures
            r == (PhysicsProperties {
                is_movable: false,
                affected_by_gravity: false,
                creates_gravity: false,
                has_collision: true,
                friction: F32_HALF,
                restitution: F32_ZERO,
                density: F32_ONE,
                can_rotate: false,
            }),
    {
        PhysicsProperties {
            is_movable: false,
            affected_by_gravity: false,
            creates_gravity: false,
            has_collision: true,
            friction: F32_HALF,
            restitution: F32_ZERO,
            density: F32_ONE,
            can_rotate: false,
        }
    }
}

} // verus!
