use vstd::prelude::*;
use x11rb::image as x11image;

verus! {

/// Why a colour component or a pixel layout was rejected.
#[derive(Debug, Clone, Copy, PartialEq, Eq)]
pub enum LayoutError {
    /// A width of zero or above 16 bits, or bits beyond the 32-bit pixel.
    InvalidComponent,
    /// Two components claim the same bit.
    Overlap,
}

/// One colour channel of a pixel value: `width` bits starting `shift` bits
/// above the least significant bit.
#[derive(Debug, Clone, Copy, PartialEq, Eq)]
pub struct ColorComponent {
    pub width: u8,
    pub shift: u8,
}

/// `w` set bits, shifted up by `s`.
pub open spec fn component_mask(w: u32, s: u32) -> u32 {
    (0xffff_ffffu32 >> ((32 - w) as u32)) << s
}

/// Repeats the high bits of `value` downward until 16 bits are filled,
/// doubling the number of valid bits at each step.
pub open spec fn widen(value: u32, width: u32) -> u32
    decreases if width < 16 { 16 - width } else { 0 },
{
    if width == 0 || width >= 16 {
        value
    } else {
        widen(value | (value >> width), (width * 2) as u32)
    }
}

impl ColorComponent {
    pub open spec fn wf(self) -> bool {
        1 <= self.width <= 16 && self.shift + self.width <= 32
    }

    pub open spec fn mask_spec(self) -> u32 {
        component_mask(self.width as u32, self.shift as u32)
    }

    /// The component's intensity in `pixel`, widened to 16 bits.
    pub open spec fn decode_spec(self, pixel: u32) -> u16 {
        widen(
            ((pixel & self.mask_spec()) >> (self.shift as u32)) << ((16 - self.width) as u32),
            self.width as u32,
        ) as u16
    }

    /// The top `width` bits of a 16-bit intensity, placed at `shift`.
    pub open spec fn encode_spec(self, intensity: u16) -> u32 {
        ((intensity as u32) >> ((16 - self.width) as u32)) << (self.shift as u32)
    }

    /// A component of `width` bits at `shift`; rejected unless it has
    /// between 1 and 16 bits and fits a 32-bit pixel.
    pub fn new(width: u8, shift: u8) -> (r: Result<ColorComponent, LayoutError>)
        ensures
            r is Ok <==> (1 <= width <= 16 && shift + width <= 32),
            r matches Ok(c) ==> c.width == width && c.shift == shift,
    {
        if 1 <= width && width <= 16 && shift <= 32 - width {
            Ok(ColorComponent { width, shift })
        } else {
            Err(LayoutError::InvalidComponent)
        }
    }

    /// The bits of a pixel value that belong to this component.
    pub fn mask(self) -> (r: u32)
        requires
            self.wf(),
        ensures
            r == self.mask_spec(),
    {
        (0xffff_ffffu32 >> (32 - self.width as u32)) << (self.shift as u32)
    }
}

/// Where the red, green and blue channels sit in a pixel value.
#[derive(Debug, Clone, Copy, PartialEq, Eq)]
pub struct PixelLayout {
    pub red: ColorComponent,
    pub green: ColorComponent,
    pub blue: ColorComponent,
}

pub open spec fn disjoint(a: u32, b: u32) -> bool {
    a & b == 0
}

impl PixelLayout {
    /// Each component is valid and no two of them overlap.
    pub open spec fn wf(self) -> bool {
        &&& self.red.wf()
        &&& self.green.wf()
        &&& self.blue.wf()
        &&& disjoint(self.red.mask_spec(), self.green.mask_spec())
        &&& disjoint(self.red.mask_spec(), self.blue.mask_spec())
        &&& disjoint(self.green.mask_spec(), self.blue.mask_spec())
    }

    /// Every component lies within the low `bits` bits.
    pub open spec fn fits(self, bits: int) -> bool {
        &&& self.red.shift + self.red.width <= bits
        &&& self.green.shift + self.green.width <= bits
        &&& self.blue.shift + self.blue.width <= bits
    }

    pub open spec fn depth_spec(self) -> int {
        self.red.width + self.green.width + self.blue.width
    }

    pub open spec fn decode_spec(self, pixel: u32) -> (u16, u16, u16) {
        (self.red.decode_spec(pixel), self.green.decode_spec(pixel), self.blue.decode_spec(pixel))
    }

    pub open spec fn encode_spec(self, rgb: (u16, u16, u16)) -> u32 {
        self.red.encode_spec(rgb.0) | self.green.encode_spec(rgb.1) | self.blue.encode_spec(rgb.2)
    }

    /// The layout of `0xRRGGBB` with 8 bits per channel.
    pub open spec fn rgb888() -> PixelLayout {
        PixelLayout {
            red: ColorComponent { width: 8, shift: 16 },
            green: ColorComponent { width: 8, shift: 8 },
            blue: ColorComponent { width: 8, shift: 0 },
        }
    }

    /// A layout of the three components; rejected if one of them is invalid
    /// or two of them overlap.
    pub fn new(red: ColorComponent, green: ColorComponent, blue: ColorComponent) -> (r: Result<
        PixelLayout,
        LayoutError,
    >)
        ensures
            !(red.wf() && green.wf() && blue.wf()) <==> r == Err::<PixelLayout, LayoutError>(
                LayoutError::InvalidComponent,
            ),
            r is Ok <==> (PixelLayout { red, green, blue }).wf(),
            r matches Ok(l) ==> l == (PixelLayout { red, green, blue }),
    {
        if !(ColorComponent::new(red.width, red.shift).is_ok() && ColorComponent::new(
            green.width,
            green.shift,
        ).is_ok() && ColorComponent::new(blue.width, blue.shift).is_ok()) {
            return Err(LayoutError::InvalidComponent);
        }
        let (r, g, b) = (red.mask(), green.mask(), blue.mask());
        if r & g == 0 && r & b == 0 && g & b == 0 {
            Ok(PixelLayout { red, green, blue })
        } else {
            Err(LayoutError::Overlap)
        }
    }

    /// The layout of the decoded image's pixels, `0xRRGGBB`.
    pub fn rgb() -> (r: PixelLayout)
        ensures
            r == PixelLayout::rgb888(),
            r.wf(),
    {
        assert(component_mask(8, 16) & component_mask(8, 8) == 0) by (bit_vector);
        assert(component_mask(8, 16) & component_mask(8, 0) == 0) by (bit_vector);
        assert(component_mask(8, 8) & component_mask(8, 0) == 0) by (bit_vector);
        PixelLayout {
            red: ColorComponent { width: 8, shift: 16 },
            green: ColorComponent { width: 8, shift: 8 },
            blue: ColorComponent { width: 8, shift: 0 },
        }
    }

    /// The number of bits that the three components use.
    pub fn depth(self) -> (r: u8)
        requires
            self.wf(),
        ensures
            r == self.depth_spec(),
    {
        self.red.width + self.green.width + self.blue.width
    }
}

/// Relies on x11rb's `PixelLayout::decode`: each component's bits of
/// `pixel`, widened to 16 bits by repeating them. The layout is rebuilt with
/// `ColorComponent::new` and `PixelLayout::new`, which accept every
/// well-formed component.
#[verifier::external_body]
pub(crate) fn layout_decode(l: PixelLayout, pixel: u32) -> (r: (u16, u16, u16))
    requires
        l.wf(),
    ensures
        r == l.decode_spec(pixel),
{
    let c = |c: ColorComponent| x11image::ColorComponent::new(c.width, c.shift).expect("valid");
    x11image::PixelLayout::new(c(l.red), c(l.green), c(l.blue)).decode(pixel)
}

/// Relies on x11rb's `PixelLayout::encode`: the top bits of each intensity,
/// placed at its component's shift and combined. The layout is rebuilt with
/// `ColorComponent::new` and `PixelLayout::new`, which accept every
/// well-formed component.
#[verifier::external_body]
pub(crate) fn layout_encode(l: PixelLayout, rgb: (u16, u16, u16)) -> (r: u32)
    requires
        l.wf(),
    ensures
        r == l.encode_spec(rgb),
{
    let c = |c: ColorComponent| x11image::ColorComponent::new(c.width, c.shift).expect("valid");
    x11image::PixelLayout::new(c(l.red), c(l.green), c(l.blue)).encode(rgb)
}

} // verus!
