//! Colors and line weights, both carried as small raw integers with coded
//! special values.
use vstd::prelude::*;

verus! {

/// An indexed color.  The raw value `0` defers to the containing block,
/// `256` to the layer, `257` to the entity; a negative value marks a layer
/// that is turned off; `1` through `255` are palette indexes.
#[derive(Clone, Copy, Debug, PartialEq, Eq, Structural)]
pub struct Color {
    /// The raw coded value of the color.
    pub raw_value: i16,
}

impl Color {
    /// The raw value of this color, as it is read for contracts.
    pub open spec fn raw(self) -> int {
        self.raw_value as int
    }

    /// Returns `true` if the color defaults back to the item's layer's
    /// color.
    pub fn is_by_layer(&self) -> (r: bool)
        ensures
            r == (self.raw() == 256),
    {
        self.raw_value == 256
    }

    /// Returns `true` if the color defaults back to the entity's color.
    pub fn is_by_entity(&self) -> (r: bool)
        ensures
            r == (self.raw() == 257),
    {
        self.raw_value == 257
    }

    /// Returns `true` if the color defaults back to the containing block's
    /// color.
    pub fn is_by_block(&self) -> (r: bool)
        ensures
            r == (self.raw() == 0),
    {
        self.raw_value == 0
    }

    /// Returns `true` if the color represents a layer that is turned off.
    pub fn is_turned_off(&self) -> (r: bool)
        ensures
            r == (self.raw() < 0),
    {
        self.raw_value < 0
    }

    /// Sets the color to default back to the item's layer's color.
    pub fn set_by_layer(&mut self)
        ensures
            final(self).raw() == 256,
    {
        self.raw_value = 256
    }

    /// Sets the color to default back to the containing block's color.
    pub fn set_by_block(&mut self)
        ensures
            final(self).raw() == 0,
    {
        self.raw_value = 0
    }

    /// Sets the color to default back to the containing entity's color.
    pub fn set_by_entity(&mut self)
        ensures
            final(self).raw() == 257,
    {
        self.raw_value = 257
    }

    /// Sets the color to represent a layer that is turned off.
    pub fn turn_off(&mut self)
        ensures
            final(self).raw() == -1,
    {
        self.raw_value = -1
    }

    /// Returns `true` if the color represents a proper color index.
    pub fn is_index(&self) -> (r: bool)
        ensures
            r == (1 <= self.raw() <= 255),
    {
        self.raw_value >= 1 && self.raw_value <= 255
    }

    /// Gets the indexable value of the color, if it has one.
    pub fn index(&self) -> (r: Option<u8>)
        ensures
            1 <= self.raw() <= 255 ==> r == Some(self.raw() as u8),
            !(1 <= self.raw() <= 255) ==> r is None,
    {
        if self.is_index() {
            Some(self.raw_value as u8)
        } else {
            None
        }
    }

    /// Gets the raw value of the color.
    pub fn get_raw_value(&self) -> (r: i16)
        ensures
            r as int == self.raw(),
    {
        self.raw_value
    }

    /// Creates a new color from a raw value.
    pub fn from_raw_value(val: i16) -> (r: Color)
        ensures
            r.raw() == val as int,
    {
        Color { raw_value: val }
    }

    /// Creates a color that defaults to the item's layer's color.
    pub fn by_layer() -> (r: Color)
        ensures
            r.raw() == 256,
    {
        Color { raw_value: 256 }
    }

    /// Creates a color that defaults back to the containing block's color.
    pub fn by_block() -> (r: Color)
        ensures
            r.raw() == 0,
    {
        Color { raw_value: 0 }
    }

    /// Creates a color that defaults back to the containing entity's color.
    pub fn by_entity() -> (r: Color)
        ensures
            r.raw() == 257,
    {
        Color { raw_value: 257 }
    }

    /// Creates a color from a palette index.
    pub fn from_index(i: u8) -> (r: Color)
        ensures
            r.raw() == i as int,
    {
        Color { raw_value: i as i16 }
    }

    /// Gets a color value for a layer that is suitable to be written to a
    /// file: never a by-block or by-layer code, and negative when the layer
    /// is off.
    pub fn get_writable_color_value(&self, layer_is_on: bool) -> (r: i16)
        requires
            self.raw() != i16::MIN,
        ensures
            r as int == spec_writable_color(self.raw(), layer_is_on),
    {
        let raw: i16 = self.raw_value;
        let mag: i16 = if raw < 0 {
            -raw
        } else {
            raw
        };
        let value: i16 = if mag == 0 || mag == 256 {
            7
        } else {
            mag
        };
        if layer_is_on {
            value
        } else {
            -value
        }
    }
}

/// The color value written for a layer: the magnitude of the raw value,
/// with the by-block and by-layer codes replaced by palette white, negated
/// when the layer is off.
pub open spec fn spec_writable_color(raw: int, layer_is_on: bool) -> int {
    let mag = if raw < 0 {
        -raw
    } else {
        raw
    };
    let value = if mag == 0 || mag == 256 {
        7
    } else {
        mag
    };
    if layer_is_on {
        value
    } else {
        -value
    }
}

/// A line weight, as a raw coded value: `-1` defers to the containing
/// block and `-2` to the layer.
#[derive(Clone, Copy, Debug, PartialEq, Eq, Structural)]
pub struct LineWeight {
    /// The raw coded value of the line weight.
    pub raw_value: i16,
}

impl LineWeight {
    /// The raw value of this line weight, as it is read for contracts.
    pub open spec fn raw(self) -> int {
        self.raw_value as int
    }

    /// Creates a new line weight of zero.
    pub fn new() -> (r: LineWeight)
        ensures
            r.raw() == 0,
    {
        LineWeight::from_raw_value(0)
    }

    /// Creates a new line weight from a raw value.
    pub fn from_raw_value(v: i16) -> (r: LineWeight)
        ensures
            r.raw() == v as int,
    {
        LineWeight { raw_value: v }
    }

    /// Creates a new line weight that defaults back to the containing
    /// block's line weight.
    pub fn by_block() -> (r: LineWeight)
        ensures
            r.raw() == -1,
    {
        LineWeight::from_raw_value(-1)
    }

    /// Creates a new line weight that defaults back to the item's layer's
    /// line weight.
    pub fn by_layer() -> (r: LineWeight)
        ensures
            r.raw() == -2,
    {
        LineWeight::from_raw_value(-2)
    }

    /// Gets the raw value representing the line weight.
    pub fn get_raw_value(&self) -> (r: i16)
        ensures
            r as int == self.raw(),
    {
        self.raw_value
    }
}

} // verus!
