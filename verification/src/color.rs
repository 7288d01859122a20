//! Colours as arrays of components, and the reading of a component by its
//! name. The components are of any type that can be cloned.

use vstd::prelude::*;

verus! {

/// A gray level.
#[derive(Default, Debug, Clone, Eq, PartialEq, Hash)]
pub struct ColorG<T: Clone>(pub [T; 1]);

/// A gray level and an opacity.
#[derive(Default, Debug, Clone, Eq, PartialEq, Hash)]
pub struct ColorGa<T: Clone>(pub [T; 2]);

/// Blue, green and red.
#[derive(Default, Debug, Clone, Eq, PartialEq, Hash)]
pub struct ColorBgr<T: Clone>(pub [T; 3]);

/// Blue, green, red and an opacity.
#[derive(Default, Debug, Clone, Eq, PartialEq, Hash)]
pub struct ColorBgra<T: Clone>(pub [T; 4]);

/// Red, green and blue.
#[derive(Default, Debug, Clone, Eq, PartialEq, Hash)]
pub struct ColorRgb<T: Clone>(pub [T; 3]);

/// Red, green, blue and an opacity.
#[derive(Default, Debug, Clone, Eq, PartialEq, Hash)]
pub struct ColorRgba<T: Clone>(pub [T; 4]);

/// Hue, saturation and value.
#[derive(Default, Debug, Clone, Eq, PartialEq, Hash)]
pub struct ColorHsv<T: Clone>(pub [T; 3]);

/// Hue, saturation, value and an opacity.
#[derive(Default, Debug, Clone, Eq, PartialEq, Hash)]
pub struct ColorHsva<T: Clone>(pub [T; 4]);

/// A colour in one of the layouts.
#[derive(Debug, Clone, Eq, PartialEq, Hash)]
pub enum Color<T: Clone> {
    G(ColorG<T>),
    Ga(ColorGa<T>),
    Bgr(ColorBgr<T>),
    Bgra(ColorBgra<T>),
    Rgb(ColorRgb<T>),
    Rgba(ColorRgba<T>),
    Hsv(ColorHsv<T>),
    Hsva(ColorHsva<T>),
}

/// Why a colour could not be converted.
#[derive(Debug, Clone, Eq, PartialEq)]
pub enum ColorCastError {
    /// The named quantity is not a whole number.
    NotAInteger(&'static str),
}

impl ColorCastError {
    /// What went wrong, in words.
    pub open spec fn text(self) -> Seq<char> {
        match self {
            ColorCastError::NotAInteger(what) => what@ + " is not a integer"@,
        }
    }

    /// What went wrong, in words.
    pub fn to_text(&self) -> (s: String)
        ensures
            s@ == self.text(),
    {
        match self {
            ColorCastError::NotAInteger(what) => {
                let mut s = String::from_str(what);
                s.append(" is not a integer");
                s
            },
        }
    }
}

/// The gray level of a colour.
pub trait ColorGrayIndex<T: Clone> {
    /// The component that `gray` hands out a clone of.
    spec fn gray_part(&self) -> T;

    fn gray(&self) -> (c: T)
        ensures
            cloned(self.gray_part(), c),
    ;
}

/// The red, green and blue parts of a colour.
pub trait ColorRgbIndex<T: Clone> {
    /// The component that `r` hands out a clone of.
    spec fn r_part(&self) -> T;

    fn r(&self) -> (c: T)
        ensures
            cloned(self.r_part(), c),
    ;

    /// The component that `g` hands out a clone of.
    spec fn g_part(&self) -> T;

    fn g(&self) -> (c: T)
        ensures
            cloned(self.g_part(), c),
    ;

    /// The component that `b` hands out a clone of.
    spec fn b_part(&self) -> T;

    fn b(&self) -> (c: T)
        ensures
            cloned(self.b_part(), c),
    ;
}

/// The hue, saturation and value of a colour.
pub trait ColorHsvIndex<T: Clone> {
    /// The component that `h` hands out a clone of.
    spec fn h_part(&self) -> T;

    fn h(&self) -> (c: T)
        ensures
            cloned(self.h_part(), c),
    ;

    /// The component that `s` hands out a clone of.
    spec fn s_part(&self) -> T;

    fn s(&self) -> (c: T)
        ensures
            cloned(self.s_part(), c),
    ;

    /// The component that `v` hands out a clone of.
    spec fn v_part(&self) -> T;

    fn v(&self) -> (c: T)
        ensures
            cloned(self.v_part(), c),
    ;
}

/// The opacity of a colour.
pub trait ColorAlphaIndex<T: Clone> {
    /// The component that `a` hands out a clone of.
    spec fn a_part(&self) -> T;

    fn a(&self) -> (c: T)
        ensures
            cloned(self.a_part(), c),
    ;
}

impl<T: Clone> ColorGrayIndex<T> for ColorG<T> {
    open spec fn gray_part(&self) -> T {
        self.0[0]
    }

    fn gray(&self) -> (c: T) {
        self.0[0].clone()
    }
}

impl<T: Clone> ColorRgbIndex<T> for ColorG<T> {
    open spec fn r_part(&self) -> T {
        self.0[0]
    }

    fn r(&self) -> (c: T) {
        self.0[0].clone()
    }

    open spec fn g_part(&self) -> T {
        self.0[0]
    }

    fn g(&self) -> (c: T) {
        self.0[0].clone()
    }

    open spec fn b_part(&self) -> T {
        self.0[0]
    }

    fn b(&self) -> (c: T) {
        self.0[0].clone()
    }
}

impl<T: Clone> ColorGrayIndex<T> for ColorGa<T> {
    open spec fn gray_part(&self) -> T {
        self.0[0]
    }

    fn gray(&self) -> (c: T) {
        self.0[0].clone()
    }
}

impl<T: Clone> ColorRgbIndex<T> for ColorGa<T> {
    open spec fn r_part(&self) -> T {
        self.0[0]
    }

    fn r(&self) -> (c: T) {
        self.0[0].clone()
    }

    open spec fn g_part(&self) -> T {
        self.0[0]
    }

    fn g(&self) -> (c: T) {
        self.0[0].clone()
    }

    open spec fn b_part(&self) -> T {
        self.0[0]
    }

    fn b(&self) -> (c: T) {
        self.0[0].clone()
    }
}

impl<T: Clone> ColorAlphaIndex<T> for ColorGa<T> {
    open spec fn a_part(&self) -> T {
        self.0[1]
    }

    fn a(&self) -> (c: T) {
        self.0[1].clone()
    }
}

impl<T: Clone> ColorRgbIndex<T> for ColorBgr<T> {
    open spec fn r_part(&self) -> T {
        self.0[2]
    }

    fn r(&self) -> (c: T) {
        self.0[2].clone()
    }

    open spec fn g_part(&self) -> T {
        self.0[1]
    }

    fn g(&self) -> (c: T) {
        self.0[1].clone()
    }

    open spec fn b_part(&self) -> T {
        self.0[0]
    }

    fn b(&self) -> (c: T) {
        self.0[0].clone()
    }
}

impl<T: Clone> ColorRgbIndex<T> for ColorBgra<T> {
    open spec fn r_part(&self) -> T {
        self.0[2]
    }

    fn r(&self) -> (c: T) {
        self.0[2].clone()
    }

    open spec fn g_part(&self) -> T {
        self.0[1]
    }

    fn g(&self) -> (c: T) {
        self.0[1].clone()
    }

    open spec fn b_part(&self) -> T {
        self.0[0]
    }

    fn b(&self) -> (c: T) {
        self.0[0].clone()
    }
}

impl<T: Clone> ColorAlphaIndex<T> for ColorBgra<T> {
    open spec fn a_part(&self) -> T {
        self.0[3]
    }

    fn a(&self) -> (c: T) {
        self.0[3].clone()
    }
}

impl<T: Clone> ColorRgbIndex<T> for ColorRgb<T> {
    open spec fn r_part(&self) -> T {
        self.0[0]
    }

    fn r(&self) -> (c: T) {
        self.0[0].clone()
    }

    open spec fn g_part(&self) -> T {
        self.0[1]
    }

    fn g(&self) -> (c: T) {
        self.0[1].clone()
    }

    open spec fn b_part(&self) -> T {
        self.0[2]
    }

    fn b(&self) -> (c: T) {
        self.0[2].clone()
    }
}

impl<T: Clone> ColorRgbIndex<T> for ColorRgba<T> {
    open spec fn r_part(&self) -> T {
        self.0[0]
    }

    fn r(&self) -> (c: T) {
        self.0[0].clone()
    }

    open spec fn g_part(&self) -> T {
        self.0[1]
    }

    fn g(&self) -> (c: T) {
        self.0[1].clone()
    }

    open spec fn b_part(&self) -> T {
        self.0[2]
    }

    fn b(&self) -> (c: T) {
        self.0[2].clone()
    }
}

impl<T: Clone> ColorAlphaIndex<T> for ColorRgba<T> {
    open spec fn a_part(&self) -> T {
        self.0[3]
    }

    fn a(&self) -> (c: T) {
        self.0[3].clone()
    }
}

impl<T: Clone> ColorHsvIndex<T> for ColorHsv<T> {
    open spec fn h_part(&self) -> T {
        self.0[0]
    }

    fn h(&self) -> (c: T) {
        self.0[0].clone()
    }

    open spec fn s_part(&self) -> T {
        self.0[1]
    }

    fn s(&self) -> (c: T) {
        self.0[1].clone()
    }

    open spec fn v_part(&self) -> T {
        self.0[2]
    }

    fn v(&self) -> (c: T) {
        self.0[2].clone()
    }
}

impl<T: Clone> ColorHsvIndex<T> for ColorHsva<T> {
    open spec fn h_part(&self) -> T {
        self.0[0]
    }

    fn h(&self) -> (c: T) {
        self.0[0].clone()
    }

    open spec fn s_part(&self) -> T {
        self.0[1]
    }

    fn s(&self) -> (c: T) {
        self.0[1].clone()
    }

    open spec fn v_part(&self) -> T {
        self.0[2]
    }

    fn v(&self) -> (c: T) {
        self.0[2].clone()
    }
}

impl<T: Clone> ColorAlphaIndex<T> for ColorHsva<T> {
    open spec fn a_part(&self) -> T {
        self.0[3]
    }

    fn a(&self) -> (c: T) {
        self.0[3].clone()
    }
}

impl<T: Clone> ColorHsv<T> {
    /// The colour without its opacity.
    pub fn from_hsva(hsva: ColorHsva<T>) -> (hsv: ColorHsv<T>)
        ensures
            cloned(hsva.0[0], hsv.0[0]),
            cloned(hsva.0[1], hsv.0[1]),
            cloned(hsva.0[2], hsv.0[2]),
    {
        ColorHsv([hsva.h(), hsva.s(), hsva.v()])
    }
}

} // verus!
