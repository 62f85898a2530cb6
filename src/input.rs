use vstd::prelude::*;

verus! {

/// The texel-space segment the pointer covered during one frame.
#[derive(Clone, Copy, Debug, PartialEq, Eq, Structural)]
pub struct Segment {
    pub start_x: u32,
    pub start_y: u32,
    pub end_x: u32,
    pub end_y: u32,
}

/// Display coordinate `p` in texels, for a canvas of `canvas` texels shown on
/// `view` display pixels: `p * canvas / view`, rounded down, at most `u32::MAX`.
pub open spec fn to_texel(p: u32, canvas: u32, view: u32) -> u32 {
    let t = p as int * canvas as int / view as int;
    if t > u32::MAX {
        u32::MAX
    } else {
        t as u32
    }
}

/// The segment from display position `from` to display position `to`, in texels.
pub open spec fn texel_segment(
    from: (u32, u32),
    to: (u32, u32),
    canvas_w: u32,
    canvas_h: u32,
    view_w: u32,
    view_h: u32,
) -> Segment {
    Segment {
        start_x: to_texel(from.0, canvas_w, view_w),
        start_y: to_texel(from.1, canvas_h, view_h),
        end_x: to_texel(to.0, canvas_w, view_w),
        end_y: to_texel(to.1, canvas_h, view_h),
    }
}

fn scale_to_texel(p: u32, canvas: u32, view: u32) -> (t: u32)
    requires
        view > 0,
    ensures
        t == to_texel(p, canvas, view),
{
    assert(p as u64 * canvas as u64 <= u64::MAX) by (nonlinear_arith)
        requires
            p <= u32::MAX,
            canvas <= u32::MAX,
    ;
    let t = (p as u64 * canvas as u64) / view as u64;
    if t > u32::MAX as u64 {
        u32::MAX
    } else {
        t as u32
    }
}

/// The pointer as the stroke pipeline sees it: Idle while `pressed` is false,
/// Dragging while it is true. Positions are in display pixels.
#[derive(Clone, Copy, Debug)]
pub struct StrokeInput {
    pub pointer: (u32, u32),
    pub last: Option<(u32, u32)>,
    pub pressed: bool,
}

impl StrokeInput {
    /// Idle, with the pointer at the origin.
    pub fn new() -> (s: StrokeInput)
        ensures
            s.pointer == (0u32, 0u32),
            s.last.is_none(),
            !s.pressed,
    {
        StrokeInput { pointer: (0, 0), last: None, pressed: false }
    }

    /// The pointer moved to `(x, y)`.
    pub fn pointer_moved(&mut self, x: u32, y: u32)
        ensures
            final(self).pointer == (x, y),
            final(self).last == old(self).last,
            final(self).pressed == old(self).pressed,
    {
        self.pointer = (x, y);
    }

    /// The primary button went down. Over a UI panel it starts nothing;
    /// otherwise a drag starts (or goes on) and an Idle pointer records its
    /// position as the last one.
    pub fn press(&mut self, over_ui: bool)
        ensures
            final(self).pointer == old(self).pointer,
            over_ui || old(self).pressed ==> *final(self) == *old(self),
            !over_ui && !old(self).pressed ==> final(self).pressed && final(self).last == Some(
                old(self).pointer,
            ),
    {
        if !over_ui && !self.pressed {
            self.pressed = true;
            self.last = Some(self.pointer);
        }
    }

    /// The primary button went up: the drag ends. Returns whether a drag was
    /// in progress, that is, whether a stroke is to be committed.
    pub fn release(&mut self) -> (was_dragging: bool)
        ensures
            was_dragging == old(self).pressed,
            final(self).pointer == old(self).pointer,
            !final(self).pressed,
            final(self).last.is_none(),
    {
        let was_dragging = self.pressed;
        self.pressed = false;
        self.last = None;
        was_dragging
    }

    /// One frame. While dragging and not over a UI panel, returns the texel
    /// segment from the last recorded position to the current one and records
    /// the current one; otherwise returns nothing and changes nothing.
    pub fn tick(&mut self, over_ui: bool, canvas_w: u32, canvas_h: u32, view_w: u32, view_h: u32) -> (seg: Option<Segment>)
        requires
            view_w > 0,
            view_h > 0,
        ensures
            !old(self).pressed || over_ui ==> seg.is_none() && *final(self) == *old(self),
            old(self).pressed && !over_ui ==> seg == Some(
                texel_segment(
                    match old(self).last {
                        Some(p) => p,
                        None => old(self).pointer,
                    },
                    old(self).pointer,
                    canvas_w,
                    canvas_h,
                    view_w,
                    view_h,
                ),
            ) && final(self).last == Some(old(self).pointer) && final(self).pointer == old(
                self,
            ).pointer && final(self).pressed,
    {
        if !self.pressed || over_ui {
            return None;
        }
        let start = match self.last {
            Some(p) => p,
            None => self.pointer,
        };
        let seg = Segment {
            start_x: scale_to_texel(start.0, canvas_w, view_w),
            start_y: scale_to_texel(start.1, canvas_h, view_h),
            end_x: scale_to_texel(self.pointer.0, canvas_w, view_w),
            end_y: scale_to_texel(self.pointer.1, canvas_h, view_h),
        };
        self.last = Some(self.pointer);
        Some(seg)
    }
}

} // verus!
