//! Small helpers: child navigation order, draw passes and per-widget data.

use vstd::prelude::*;
use crate::geom::Rect;
use crate::widget_id::WidgetId;

verus! {

/// The default navigation order over `len` children: from child `from`
/// (or from outside, when `None`), the next child, or the previous one when
/// `reverse`; `None` at either end or without children
pub fn spatial_nav(reverse: bool, from: Option<usize>, len: usize) -> (r: Option<usize>)
    ensures
        r == (if len == 0 {
            None
        } else {
            match from {
                Some(i) => if !reverse && i + 1 < len {
                    Some((i + 1) as usize)
                } else if reverse && 0 < i {
                    Some((i - 1) as usize)
                } else {
                    None
                },
                None => if reverse { Some((len - 1) as usize) } else { Some(0usize) },
            }
        }),
{
    if len == 0 {
        return None;
    }
    let last = len - 1;
    match from {
        Some(index) => {
            if !reverse && index < last {
                Some(index + 1)
            } else if reverse && 0 < index {
                Some(index - 1)
            } else {
                None
            }
        },
        None => if reverse { Some(last) } else { Some(0) },
    }
}

/// Identifier of a draw pass
#[derive(Copy, Clone, Debug, PartialEq, Eq, Structural)]
pub struct PassId(pub u32);

impl PassId {
    /// Construct a new pass from a `u32` identifier
    pub fn new(n: u32) -> (r: PassId)
        ensures
            r.0 == n,
    {
        PassId(n)
    }

    /// The pass number
    pub fn pass(self) -> (r: usize)
        ensures
            r == self.0,
    {
        self.0 as usize
    }
}

/// Data every widget keeps: its last layout rect (relative to its parent)
/// and its identifier
#[derive(Debug)]
pub struct CoreData {
    pub rect: Rect,
    pub id: WidgetId,
}

impl Default for CoreData {
    fn default() -> (r: CoreData)
        ensures
            r.rect == Rect::default_spec(),
            r.id@ is None,
    {
        CoreData { rect: Rect::zero(), id: WidgetId::invalid() }
    }
}

impl Clone for CoreData {
    /// A copy keeps the rect but not the identifier: a copy has to be
    /// configured anew
    fn clone(&self) -> (r: CoreData)
        ensures
            r.rect == self.rect,
            r.id@ is None,
    {
        CoreData { rect: self.rect, id: WidgetId::invalid() }
    }
}


/// Why RGBA data does not make an icon
#[derive(Copy, Clone, Debug, PartialEq, Eq, Structural)]
pub enum BadIcon {
    /// The byte count is not a multiple of 4
    ByteCountNotDivisibleBy4 { byte_count: usize },
    /// `width * height` differs from the number of pixels given
    DimensionsVsPixelCount { width: u32, height: u32, width_x_height: u64, pixel_count: usize },
}

/// A window icon: 32-bit RGBA pixels, row by row
#[derive(Clone, Debug)]
pub struct Icon {
    rgba: Vec<u8>,
    width: u32,
    height: u32,
}

impl Icon {
    /// The pixel data
    pub closed spec fn spec_rgba(&self) -> Seq<u8> {
        self.rgba@
    }

    /// Width and height
    pub closed spec fn spec_size(&self) -> (u32, u32) {
        (self.width, self.height)
    }

    /// Create an icon from 32bpp RGBA data
    ///
    /// The length of `rgba` must be divisible by 4, and `width * height`
    /// must equal `rgba.len() / 4`.
    pub fn from_rgba(rgba: Vec<u8>, width: u32, height: u32) -> (r: Result<Icon, BadIcon>)
        ensures
            rgba.len() % 4 != 0 ==> r == Err::<Icon, BadIcon>(
                BadIcon::ByteCountNotDivisibleBy4 { byte_count: rgba.len() },
            ),
            rgba.len() % 4 == 0 && width * height != rgba.len() / 4 ==> r == Err::<Icon, BadIcon>(
                BadIcon::DimensionsVsPixelCount {
                    width,
                    height,
                    width_x_height: (width * height) as u64,
                    pixel_count: (rgba.len() / 4) as usize,
                },
            ),
            rgba.len() % 4 == 0 && width * height == rgba.len() / 4 ==> r is Ok && r.unwrap().spec_rgba()
                == rgba@ && r.unwrap().spec_size() == (width, height),
    {
        let byte_count = rgba.len();
        if byte_count % 4 != 0 {
            return Err(BadIcon::ByteCountNotDivisibleBy4 { byte_count });
        }
        let pixel_count = byte_count / 4;
        assert(width * height <= u32::MAX * u32::MAX) by (nonlinear_arith)
            requires
                width <= u32::MAX,
                height <= u32::MAX,
        ;
        assert(u32::MAX * u32::MAX <= u64::MAX) by (nonlinear_arith);
        let width_x_height = width as u64 * height as u64;
        if width_x_height != pixel_count as u64 {
            return Err(BadIcon::DimensionsVsPixelCount { width, height, width_x_height, pixel_count });
        }
        Ok(Icon { rgba, width, height })
    }

    /// Width and height in pixels
    pub fn size(&self) -> (r: (u32, u32))
        ensures
            r == self.spec_size(),
    {
        (self.width, self.height)
    }
}


/// Hands out widget identifiers while a tree is configured: each widget
/// takes its own identifier once, and derives one for each child from it
#[derive(Debug)]
pub struct ConfigureManager {
    id: WidgetId,
    used: bool,
}

impl ConfigureManager {
    /// The identifier this manager hands out
    pub closed spec fn spec_id(&self) -> WidgetId {
        self.id
    }

    /// Whether the identifier was taken already
    pub closed spec fn spec_used(&self) -> bool {
        self.used
    }

    /// A manager for the widget with identifier `id`
    pub fn new(id: WidgetId) -> (r: ConfigureManager)
        ensures
            r.spec_id() == id,
            !r.spec_used(),
    {
        ConfigureManager { id, used: false }
    }

    /// A manager for child `index`: its identifier is one level deeper, so
    /// `index` must be unique among the children
    pub fn child(&self, index: usize) -> (r: ConfigureManager)
        requires
            self.spec_id()@ is Some,
        ensures
            r.spec_id()@ == Some(self.spec_id()@.unwrap().push(index)),
            !r.spec_used(),
    {
        ConfigureManager { id: self.id.make_child(index), used: false }
    }

    /// Take the identifier; only once for each manager
    pub fn get_id(&mut self) -> (r: WidgetId)
        requires
            !old(self).spec_used(),
        ensures
            r == old(self).spec_id(),
            final(self).spec_id() == old(self).spec_id(),
            final(self).spec_used(),
    {
        self.used = true;
        self.id.clone()
    }
}

} // verus!
