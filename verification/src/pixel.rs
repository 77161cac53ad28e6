//! Pixels: what the nodes ask of a pixel type, and two pixel types over any channel.
use vstd::prelude::*;

verus! {

/// One of the three color channels.
#[derive(Debug, Clone, Copy, PartialEq, Eq, Structural)]
pub enum RedGreenBlue {
    Red,
    Green,
    Blue,
}

/// A pixel with an opacity that can be scaled.
pub trait Alpha: Sized {
    type AlphaChannel;

    /// The fully transparent pixel.
    const TRANSPARENT: Self;

    /// This pixel with its opacity multiplied by `alpha`.
    fn multiplied_alpha(&self, alpha: Self::AlphaChannel) -> Self;
}

/// A pixel with a brightness.
pub trait Luminance {
    type LuminanceChannel;

    /// The brightness of this pixel.
    fn l(&self) -> Self::LuminanceChannel;
}

/// A channel value that can be read as a value of the channel type `Out`.
pub trait LinearChannel<Out> {
    /// This value as one of the type `Out`.
    fn cast_linear_channel(self) -> Out;
}

impl<C> LinearChannel<C> for C {
    /// A channel value read as its own type is itself.
    fn cast_linear_channel(self) -> (value: C)
        ensures
            value == self,
    {
        self
    }
}

/// A pixel whose color channels can be replaced one by one.
pub trait RGBMut: Sized {
    type ColorChannel;

    /// This pixel with `channel` set to `value`.
    spec fn with_channel(self, channel: RedGreenBlue, value: Self::ColorChannel) -> Self;

    fn set_red(&mut self, red: Self::ColorChannel)
        ensures
            *final(self) == old(self).with_channel(RedGreenBlue::Red, red),
    ;

    fn set_green(&mut self, green: Self::ColorChannel)
        ensures
            *final(self) == old(self).with_channel(RedGreenBlue::Green, green),
    ;

    fn set_blue(&mut self, blue: Self::ColorChannel)
        ensures
            *final(self) == old(self).with_channel(RedGreenBlue::Blue, blue),
    ;
}

/// A color with opacity.
#[derive(Debug, PartialEq)]
pub struct Rgba<C> {
    pub red: C,
    pub green: C,
    pub blue: C,
    pub alpha: C,
}

impl<C: Copy> Clone for Rgba<C> {
    fn clone(&self) -> (pixel: Self)
        ensures
            pixel == *self,
    {
        *self
    }
}

impl<C: Copy> Copy for Rgba<C> {

}

impl<C> RGBMut for Rgba<C> {
    type ColorChannel = C;

    open spec fn with_channel(self, channel: RedGreenBlue, value: C) -> Self {
        match channel {
            RedGreenBlue::Red => Rgba { red: value, ..self },
            RedGreenBlue::Green => Rgba { green: value, ..self },
            RedGreenBlue::Blue => Rgba { blue: value, ..self },
        }
    }

    fn set_red(&mut self, red: C) {
        self.red = red;
    }

    fn set_green(&mut self, green: C) {
        self.green = green;
    }

    fn set_blue(&mut self, blue: C) {
        self.blue = blue;
    }
}

impl<C> Rgba<C> {
    /// The value of one color channel.
    pub open spec fn channel(self, channel: RedGreenBlue) -> C {
        match channel {
            RedGreenBlue::Red => self.red,
            RedGreenBlue::Green => self.green,
            RedGreenBlue::Blue => self.blue,
        }
    }
}

/// A gray value.
#[derive(Debug, PartialEq)]
pub struct Luma<C> {
    pub l: C,
}

impl<C: Copy> Clone for Luma<C> {
    fn clone(&self) -> (pixel: Self)
        ensures
            pixel == *self,
    {
        *self
    }
}

impl<C: Copy> Copy for Luma<C> {

}

impl<C: Copy> Luminance for Luma<C> {
    type LuminanceChannel = C;

    fn l(&self) -> (l: C)
        ensures
            l == self.l,
    {
        self.l
    }
}

/// `value` is the brightness of a pixel, read as a color channel.
pub open spec fn brightness<S: Luminance, C>(source: &S, value: C) -> bool where
    S::LuminanceChannel: LinearChannel<C>,
 {
    exists|l: S::LuminanceChannel|
        {
            &&& #[trigger] call_ensures(S::l, (source,), l)
            &&& call_ensures(
                <S::LuminanceChannel as LinearChannel<C>>::cast_linear_channel,
                (l,),
                value,
            )
        }
}

/// No pixel of the type has two brightnesses.
pub open spec fn has_one_brightness<S: Luminance, C>() -> bool where
    S::LuminanceChannel: LinearChannel<C>,
 {
    forall|source: &S, a: C, b: C| #[trigger]
        brightness(source, a) && #[trigger] brightness(source, b) ==> a == b
}

/// A channel that is set twice holds what was set last, and of two channels it does not matter
/// which is set first.
pub open spec fn has_separate_channels<P: RGBMut>() -> bool {
    &&& forall|pixel: P, channel: RedGreenBlue, a: P::ColorChannel, b: P::ColorChannel|
        #[trigger] pixel.with_channel(channel, a).with_channel(channel, b) == pixel.with_channel(
            channel,
            b,
        )
    &&& forall|
        pixel: P,
        first: RedGreenBlue,
        second: RedGreenBlue,
        a: P::ColorChannel,
        b: P::ColorChannel,
    |
        first != second ==> #[trigger] pixel.with_channel(first, a).with_channel(second, b)
            == pixel.with_channel(second, b).with_channel(first, a)
}

/// The channels of an [`Rgba`] are separate.
pub proof fn rgba_has_separate_channels<C>()
    ensures
        has_separate_channels::<Rgba<C>>(),
{
}

/// The one brightness of a [`Luma`] is its gray value.
pub proof fn luma_has_one_brightness<C: Copy>()
    ensures
        has_one_brightness::<Luma<C>, C>(),
        forall|source: &Luma<C>, value: C| #[trigger]
            brightness(source, value) ==> value == source.l,
{
}

/// Setting a channel of an [`Rgba`] gives that channel the value, and leaves the other two
/// and the opacity as they were.
pub proof fn channels_are_independent<C>(
    pixel: Rgba<C>,
    target: RedGreenBlue,
    value: C,
    other: RedGreenBlue,
)
    ensures
        pixel.with_channel(target, value).channel(target) == value,
        other != target ==> pixel.with_channel(target, value).channel(other) == pixel.channel(other),
        pixel.with_channel(target, value).alpha == pixel.alpha,
{
}

} // verus!
