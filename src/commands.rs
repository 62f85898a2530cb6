use vstd::prelude::*;

verus! {

/// One pixel-draw instruction emitted by a tool script.
#[derive(Clone, Copy, Debug, PartialEq, Eq, Structural)]
pub enum PaintCommand {
    DrawPixel { x: u32, y: u32, r: u8, g: u8, b: u8, a: u8 },
}

impl PaintCommand {
    /// The colour and alpha the instruction writes.
    pub open spec fn rgba(self) -> (u8, u8, u8, u8) {
        match self {
            PaintCommand::DrawPixel { r, g, b, a, .. } => (r, g, b, a),
        }
    }

    /// The instruction lands on texel number `k` of a canvas of the given size.
    pub open spec fn hits(self, width: u32, height: u32, k: int) -> bool {
        match self {
            PaintCommand::DrawPixel { x, y, .. } => x < width && y < height && y as int
                * width as int + x as int == k,
        }
    }

    /// The instruction lies outside a canvas of the given size.
    pub open spec fn outside(self, width: u32, height: u32) -> bool {
        match self {
            PaintCommand::DrawPixel { x, y, .. } => x >= width || y >= height,
        }
    }
}

} // verus!
