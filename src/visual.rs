use vstd::prelude::*;
use crate::layout::{ColorComponent, PixelLayout};
use x11rb::image as x11image;

verus! {

/// Protocol code of the true-colour visual class.
pub const TRUE_COLOR: u8 = 4;

/// Protocol code of the direct-colour visual class.
pub const DIRECT_COLOR: u8 = 5;

/// How a display maps pixel values to colours, as the server reports it.
#[derive(Debug, Clone, Copy, PartialEq, Eq)]
pub struct VisualDescriptor {
    pub visual_id: u32,
    /// The protocol code of the visual's class.
    pub class: u8,
    pub bits_per_rgb_value: u8,
    pub colormap_entries: u16,
    pub red_mask: u32,
    pub green_mask: u32,
    pub blue_mask: u32,
}

/// The visuals that a screen supports at one depth.
#[derive(Debug, Clone)]
pub struct DepthGroup {
    pub depth: u8,
    pub visuals: Vec<VisualDescriptor>,
}

/// Why a screen's visual cannot drive the pipeline.
#[derive(Debug, Clone, Copy, PartialEq, Eq)]
pub enum VisualError {
    /// No depth group lists the visual.
    NotFound,
    /// The visual is neither true colour nor direct colour.
    NotDirectColor,
    /// A channel mask is not one run of 1 to 16 bits, or two masks overlap.
    Malformed,
    /// The channels' widths do not add up to the depth that lists the visual.
    DepthMismatch,
}

pub open spec fn is_direct(class: u8) -> bool {
    class == TRUE_COLOR || class == DIRECT_COLOR
}

/// `mask` is one run of 1 to 16 set bits.
pub open spec fn is_component_mask(mask: u32) -> bool {
    exists|c: ColorComponent| c.wf() && c.mask_spec() == mask
}

/// `l` has the three channel masks of `vis`.
pub open spec fn layout_of(l: PixelLayout, vis: VisualDescriptor) -> bool {
    &&& l.red.wf() && l.green.wf() && l.blue.wf()
    &&& l.red.mask_spec() == vis.red_mask
    &&& l.green.mask_spec() == vis.green_mask
    &&& l.blue.mask_spec() == vis.blue_mask
}

/// Relies on x11rb's `ColorComponent::from_mask`: a mask that is one run of
/// 1 to 16 set bits is the component with exactly that mask; any other mask
/// is refused.
#[verifier::external_body]
fn component_from_mask(mask: u32) -> (r: Option<ColorComponent>)
    ensures
        r is Some <==> is_component_mask(mask),
        r matches Some(c) ==> c.wf() && c.mask_spec() == mask,
{
    x11image::ColorComponent::from_mask(mask).ok().map(
        |c| ColorComponent { width: c.width(), shift: c.shift() },
    )
}

/// What checking `vis`, listed under `depth`, gives.
pub open spec fn visual_outcome(depth: u8, vis: VisualDescriptor, r: Result<PixelLayout, VisualError>) -> bool {
    if !is_direct(vis.class) {
        r == Err::<PixelLayout, VisualError>(VisualError::NotDirectColor)
    } else if !(is_component_mask(vis.red_mask) && is_component_mask(vis.green_mask)
        && is_component_mask(vis.blue_mask)) || vis.red_mask & vis.green_mask != 0
        || vis.red_mask & vis.blue_mask != 0 || vis.green_mask & vis.blue_mask != 0 {
        r == Err::<PixelLayout, VisualError>(VisualError::Malformed)
    } else {
        forall|l: PixelLayout|
            layout_of(l, vis) ==> if l.depth_spec() == depth {
                r == Ok::<PixelLayout, VisualError>(l)
            } else {
                r == Err::<PixelLayout, VisualError>(VisualError::DepthMismatch)
            }
    }
}

/// Some depth group lists a visual with identifier `id`.
pub open spec fn lists_visual(depths: Seq<DepthGroup>, id: u32) -> bool {
    exists|d: int, v: int|
        0 <= d < depths.len() && 0 <= v < depths[d].visuals@.len()
            && depths[d].visuals@[v].visual_id == id
}

/// Visual `v` of group `d` is the first one with identifier `id`, groups
/// and visuals taken in order.
pub open spec fn first_listing(depths: Seq<DepthGroup>, id: u32, d: int, v: int) -> bool {
    &&& 0 <= d < depths.len()
    &&& 0 <= v < depths[d].visuals@.len()
    &&& depths[d].visuals@[v].visual_id == id
    &&& forall|d2: int, v2: int|
        0 <= d2 < d && 0 <= v2 < depths[d2].visuals@.len() ==> depths[d2].visuals@[v2].visual_id
            != id
    &&& forall|v2: int| 0 <= v2 < v ==> depths[d].visuals@[v2].visual_id != id
}

fn layout_for(depth: u8, vis: VisualDescriptor) -> (r: Result<PixelLayout, VisualError>)
    ensures
        visual_outcome(depth, vis, r),
        r != Err::<PixelLayout, VisualError>(VisualError::NotFound),
        r matches Ok(l) ==> l.wf(),
{
    if vis.class != TRUE_COLOR && vis.class != DIRECT_COLOR {
        return Err(VisualError::NotDirectColor);
    }
    let (red, green, blue) = match (
        component_from_mask(vis.red_mask),
        component_from_mask(vis.green_mask),
        component_from_mask(vis.blue_mask),
    ) {
        (Some(r), Some(g), Some(b)) => (r, g, b),
        _ => return Err(VisualError::Malformed),
    };
    let layout = match PixelLayout::new(red, green, blue) {
        Ok(l) => l,
        Err(_) => return Err(VisualError::Malformed),
    };
    let r = if layout.depth() == depth {
        Ok(layout)
    } else {
        Err(VisualError::DepthMismatch)
    };
    assert forall|l: PixelLayout| layout_of(l, vis) implies l == layout by {
        lemma_mask_determines(l.red, red);
        lemma_mask_determines(l.green, green);
        lemma_mask_determines(l.blue, blue);
    }
    r
}

/// A component is determined by its mask.
proof fn lemma_mask_determines(a: ColorComponent, b: ColorComponent)
    requires
        a.wf(),
        b.wf(),
        a.mask_spec() == b.mask_spec(),
    ensures
        a == b,
{
    let (aw, as_, bw, bs) = (a.width as u32, a.shift as u32, b.width as u32, b.shift as u32);
    assert(aw == bw && as_ == bs) by (bit_vector)
        requires
            1 <= aw <= 16,
            1 <= bw <= 16,
            as_ + aw <= 32,
            bs + bw <= 32,
            (0xffff_ffffu32 >> ((32 - aw) as u32)) << as_ == (0xffff_ffffu32 >> ((32 - bw)
                as u32)) << bs,
    ;
}

/// Finds the visual `id` among the screen's depth groups and derives the
/// pixel layout it uses.
///
/// The first listing of `id` decides: it must be a true- or direct-colour
/// visual whose channel masks are disjoint runs of 1 to 16 bits, and whose
/// widths add up to the depth of the group that lists it.
pub fn check_visual(depths: &Vec<DepthGroup>, id: u32) -> (r: Result<PixelLayout, VisualError>)
    ensures
        !lists_visual(depths@, id) <==> r == Err::<PixelLayout, VisualError>(
            VisualError::NotFound,
        ),
        forall|d: int, v: int|
            first_listing(depths@, id, d, v) ==> visual_outcome(
                depths@[d].depth,
                depths@[d].visuals@[v],
                r,
            ),
{
    let mut d: usize = 0;
    while d < depths.len()
        invariant
            d <= depths@.len(),
            forall|d2: int, v2: int|
                0 <= d2 < d && 0 <= v2 < depths@[d2].visuals@.len()
                    ==> depths@[d2].visuals@[v2].visual_id != id,
        decreases depths@.len() - d,
    {
        let group = &depths[d];
        let mut v: usize = 0;
        while v < group.visuals.len()
            invariant
                d < depths@.len(),
                group == depths@[d as int],
                v <= group.visuals@.len(),
                forall|d2: int, v2: int|
                    0 <= d2 < d && 0 <= v2 < depths@[d2].visuals@.len()
                        ==> depths@[d2].visuals@[v2].visual_id != id,
                forall|v2: int| 0 <= v2 < v ==> group.visuals@[v2].visual_id != id,
            decreases group.visuals@.len() - v,
        {
            if group.visuals[v].visual_id == id {
                let r = layout_for(group.depth, group.visuals[v]);
                proof {
                    assert(first_listing(depths@, id, d as int, v as int));
                    assert(lists_visual(depths@, id));
                    assert forall|d3: int, v3: int| first_listing(depths@, id, d3, v3) implies d3
                        == d && v3 == v by {
                        if d3 < d {
                            assert(depths@[d3].visuals@[v3].visual_id != id);
                        } else if d3 > d {
                            assert(depths@[d as int].visuals@[v as int].visual_id != id);
                        } else if v3 < v {
                        } else if v3 > v {
                        }
                    }
                }
                return r;
            }
            v = v + 1;
        }
        d = d + 1;
    }
    Err(VisualError::NotFound)
}

/// `vis` describes a layout of disjoint channels of 1 to 16 bits whose widths
/// add up to `depth`.
pub open spec fn conformant(depth: u8, vis: VisualDescriptor) -> bool {
    exists|l: PixelLayout| layout_of(l, vis) && l.wf() && l.depth_spec() == depth
}

/// A visual that is not true or direct colour is always refused; a true- or
/// direct-colour visual that describes a conformant layout is always
/// accepted, with a layout of its masks whose widths add up to the depth.
pub proof fn lemma_visual_verdict(depth: u8, vis: VisualDescriptor, r: Result<PixelLayout, VisualError>)
    requires
        visual_outcome(depth, vis, r),
    ensures
        !is_direct(vis.class) ==> r is Err,
        is_direct(vis.class) && conformant(depth, vis) ==> (r matches Ok(l) && layout_of(l, vis)
            && l.depth_spec() == depth),
{
    if is_direct(vis.class) && conformant(depth, vis) {
        let l = choose|l: PixelLayout| layout_of(l, vis) && l.wf() && l.depth_spec() == depth;
        assert(is_component_mask(vis.red_mask));
        assert(is_component_mask(vis.green_mask));
        assert(is_component_mask(vis.blue_mask));
    }
}

} // verus!
