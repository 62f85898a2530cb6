use vstd::prelude::*;

use crate::commands::PaintCommand;

verus! {

/// The "over" operator on one colour channel, in 8-bit fixed point:
/// `src * alpha + dst * (1 - alpha)` with `alpha = a / 255`, rounded down.
pub open spec fn blend_channel(src: u8, dst: u8, a: u8) -> u8 {
    ((src as int * a as int + dst as int * (255 - a as int)) / 255) as u8
}

/// Byte offset of texel `(x, y)` in a row-major RGBA buffer of the given width.
pub open spec fn texel_index(width: u32, x: u32, y: u32) -> int {
    (y as int * width as int + x as int) * 4
}

/// The four channels of texel number `k` of an RGBA buffer.
pub open spec fn texel(buf: Seq<u8>, k: int) -> (u8, u8, u8, u8) {
    (buf[4 * k], buf[4 * k + 1], buf[4 * k + 2], buf[4 * k + 3])
}

/// Byte `j` of the image that results from laying `stroke` over `image`.
pub open spec fn over_byte(image: Seq<u8>, stroke: Seq<u8>, j: int) -> u8 {
    let base = j - j % 4;
    let a = stroke[base + 3];
    if a == 0 {
        image[j]
    } else if j % 4 == 3 {
        255
    } else {
        blend_channel(stroke[j], image[j], a)
    }
}

/// `stroke` alpha-blended over `image`: texels of the stroke with alpha 0 leave
/// the image as it is, the others are blended and come out opaque.
pub open spec fn over(image: Seq<u8>, stroke: Seq<u8>) -> Seq<u8> {
    Seq::new(image.len(), |j: int| over_byte(image, stroke, j))
}

/// The max-alpha rule: the texel at byte offset `i` takes the new colour only
/// when its alpha is strictly greater than the alpha already stored there.
pub open spec fn stroke_write(stroke: Seq<u8>, i: int, r: u8, g: u8, b: u8, a: u8) -> Seq<u8> {
    if a > stroke[i + 3] {
        stroke.update(i, r).update(i + 1, g).update(i + 2, b).update(i + 3, a)
    } else {
        stroke
    }
}

/// The stroke layer after one draw instruction; coordinates outside the
/// canvas leave it unchanged.
pub open spec fn stroke_draw(
    stroke: Seq<u8>,
    width: u32,
    height: u32,
    x: u32,
    y: u32,
    r: u8,
    g: u8,
    b: u8,
    a: u8,
) -> Seq<u8> {
    if x < width && y < height {
        stroke_write(stroke, texel_index(width, x, y), r, g, b, a)
    } else {
        stroke
    }
}

/// The stroke layer after applying `cmds` in order.
pub open spec fn stroke_after_commands(
    stroke: Seq<u8>,
    width: u32,
    height: u32,
    cmds: Seq<PaintCommand>,
) -> Seq<u8>
    decreases cmds.len(),
{
    if cmds.len() == 0 {
        stroke
    } else {
        let prev = stroke_after_commands(stroke, width, height, cmds.drop_last());
        match cmds.last() {
            PaintCommand::DrawPixel { x, y, r, g, b, a } => stroke_draw(
                prev,
                width,
                height,
                x,
                y,
                r,
                g,
                b,
                a,
            ),
        }
    }
}

/// A stroke layer with every byte zero: fully transparent.
pub open spec fn clear_layer(len: nat) -> Seq<u8> {
    Seq::new(len, |j: int| 0u8)
}

fn blend(src: u8, dst: u8, a: u8) -> (r: u8)
    ensures
        r == blend_channel(src, dst, a),
{
    let s = src as u32;
    let d = dst as u32;
    let al = a as u32;
    assert(s * al + d * (255 - al) <= 255 * 255) by (nonlinear_arith)
        requires
            s <= 255,
            d <= 255,
            al <= 255,
    ;
    let v = (s * al + d * (255 - al)) / 255;
    v as u8
}

/// Byte offset arithmetic of one in-range texel.
proof fn lemma_texel_in_range(width: u32, height: u32, x: u32, y: u32)
    requires
        x < width,
        y < height,
    ensures
        0 <= (y as int * width as int + x as int) < (width as int * height as int),
        texel_index(width, x, y) + 3 < width as int * height as int * 4,
{
    assert((y as int * width as int + x as int) < (width as int * height as int)) by (nonlinear_arith)
        requires
            x < width,
            y < height,
    ;
}

/// The four bytes of the texel that starts at `i` share that start.
proof fn lemma_texel_bytes(i: int)
    requires
        i % 4 == 0,
    ensures
        (i + 1) % 4 == 1,
        (i + 2) % 4 == 2,
        (i + 3) % 4 == 3,
        (i + 1) - (i + 1) % 4 == i,
        (i + 2) - (i + 2) % 4 == i,
        (i + 3) - (i + 3) % 4 == i,
        i - i % 4 == i,
        4 * (i / 4) == i,
{
}

/// Within one stroke, every texel holds the greatest alpha drawn onto it, with
/// the colour of the first instruction that drew that alpha; a texel that no
/// instruction with positive alpha reached stays fully transparent.
pub proof fn lemma_stroke_keeps_max_alpha(
    stroke: Seq<u8>,
    width: u32,
    height: u32,
    cmds: Seq<PaintCommand>,
    k: int,
)
    requires
        stroke.len() == width as int * height as int * 4,
        0 <= k < width as int * height as int,
        texel(stroke, k) == (0u8, 0u8, 0u8, 0u8),
    ensures
        ({
            let res = stroke_after_commands(stroke, width, height, cmds);
            &&& res.len() == stroke.len()
            &&& forall|j: int|
                0 <= j < cmds.len() && (#[trigger] cmds[j]).hits(width, height, k)
                    ==> cmds[j].rgba().3 <= res[4 * k + 3]
            &&& res[4 * k + 3] == 0 ==> texel(res, k) == (0u8, 0u8, 0u8, 0u8)
            &&& res[4 * k + 3] > 0 ==> exists|j: int|
                0 <= j < cmds.len() && (#[trigger] cmds[j]).hits(width, height, k) && texel(res, k)
                    == cmds[j].rgba() && forall|i: int|
                    0 <= i < j && (#[trigger] cmds[i]).hits(width, height, k) ==> cmds[i].rgba().3
                        < res[4 * k + 3]
        }),
    decreases cmds.len(),
{
    if cmds.len() > 0 {
        let pre = cmds.drop_last();
        lemma_stroke_keeps_max_alpha(stroke, width, height, pre, k);
        let prev = stroke_after_commands(stroke, width, height, pre);
        let res = stroke_after_commands(stroke, width, height, cmds);
        let n = cmds.len() - 1;
        assert(forall|j: int| 0 <= j < n ==> cmds[j] == pre[j]);
        match cmds.last() {
            PaintCommand::DrawPixel { x, y, r, g, b, a } => {
                if x < width && y < height {
                    lemma_texel_in_range(width, height, x, y);
                    let kk = y as int * width as int + x as int;
                    if kk != k {
                        assert(texel(res, k) == texel(prev, k));
                        assert(!cmds[n].hits(width, height, k));
                    } else {
                        assert(cmds[n].hits(width, height, k));
                        if a > prev[4 * k + 3] {
                            assert(texel(res, k) == cmds[n].rgba());
                        } else {
                            assert(res == prev);
                        }
                    }
                } else {
                    assert(res == prev);
                    assert(!cmds[n].hits(width, height, k));
                }
            },
        }
        if res[4 * k + 3] > 0 {
            if texel(res, k) == texel(prev, k) && prev[4 * k + 3] > 0 {
                let j = choose|j: int|
                    0 <= j < pre.len() && (#[trigger] pre[j]).hits(width, height, k) && texel(
                        prev,
                        k,
                    ) == pre[j].rgba() && forall|i: int|
                        0 <= i < j && (#[trigger] pre[i]).hits(width, height, k) ==> pre[i].rgba().3
                            < prev[4 * k + 3];
                assert(cmds[j] == pre[j]);
                assert forall|i: int|
                    0 <= i < j && (#[trigger] cmds[i]).hits(width, height, k) implies cmds[i].rgba().3
                        < res[4 * k + 3] by {
                    assert(cmds[i] == pre[i]);
                }
            } else {
                assert forall|i: int|
                    0 <= i < n && (#[trigger] cmds[i]).hits(width, height, k) implies cmds[i].rgba().3
                        < res[4 * k + 3] by {
                    assert(cmds[i] == pre[i]);
                }
            }
        }
    }
}

/// Instructions that all lie outside the canvas leave the stroke layer as it is.
pub proof fn lemma_outside_commands_change_nothing(
    stroke: Seq<u8>,
    width: u32,
    height: u32,
    cmds: Seq<PaintCommand>,
)
    requires
        forall|j: int| 0 <= j < cmds.len() ==> (#[trigger] cmds[j]).outside(width, height),
    ensures
        stroke_after_commands(stroke, width, height, cmds) == stroke,
    decreases cmds.len(),
{
    if cmds.len() > 0 {
        let pre = cmds.drop_last();
        assert forall|j: int| 0 <= j < pre.len() implies (#[trigger] pre[j]).outside(width, height) by {
            assert(pre[j] == cmds[j]);
        }
        lemma_outside_commands_change_nothing(stroke, width, height, pre);
        assert(cmds.last().outside(width, height));
    }
}

/// Committing when the stroke layer is fully transparent leaves the image as it is.
pub proof fn lemma_commit_of_clear_stroke_keeps_image(c: Canvas)
    requires
        c.wf(),
        forall|k: int|
            0 <= k < c.width as int * c.height as int ==> #[trigger] c.stroke_buffer@[4 * k + 3]
                == 0,
    ensures
        over(c.pixel_buffer@, c.stroke_buffer@) == c.pixel_buffer@,
{
    let image = c.pixel_buffer@;
    let stroke = c.stroke_buffer@;
    assert forall|j: int| 0 <= j < image.len() implies over_byte(image, stroke, j) == image[j] by {
        let k = j / 4;
        assert(j - j % 4 == 4 * k);
        assert(0 <= k < c.width as int * c.height as int);
        assert(stroke[4 * k + 3] == 0);
    }
    assert(over(image, stroke) =~= image);
}

/// An opaque instruction drawn at the start of a stroke and then committed
/// replaces the image's texel exactly.
pub proof fn lemma_opaque_draw_then_commit(c: Canvas, x: u32, y: u32, r: u8, g: u8, b: u8)
    requires
        c.wf(),
        x < c.width,
        y < c.height,
        c.stroke_buffer@[texel_index(c.width, x, y) + 3] < 255,
    ensures
        texel(
            over(
                c.pixel_buffer@,
                stroke_draw(c.stroke_buffer@, c.width, c.height, x, y, r, g, b, 255),
            ),
            y as int * c.width as int + x as int,
        ) == (r, g, b, 255u8),
{
    lemma_texel_in_range(c.width, c.height, x, y);
    let k = y as int * c.width as int + x as int;
    let i = 4 * k;
    lemma_texel_bytes(i);
    assert(blend_channel(r, c.pixel_buffer@[i], 255) == r);
    assert(blend_channel(g, c.pixel_buffer@[i + 1], 255) == g);
    assert(blend_channel(b, c.pixel_buffer@[i + 2], 255) == b);
}

/// A fixed-size raster with two layers: the permanent image and the
/// transient layer of the stroke in progress, both RGBA, row-major.
pub struct Canvas {
    /// The permanent image.
    pub pixel_buffer: Vec<u8>,
    /// The layer of the current stroke, not yet part of the image.
    pub stroke_buffer: Vec<u8>,
    pub width: u32,
    pub height: u32,
}

impl Canvas {
    /// Number of bytes of each layer.
    pub open spec fn byte_len(&self) -> int {
        self.width as int * self.height as int * 4
    }

    /// Both layers have one RGBA texel per position, every texel of the image
    /// is opaque, and a texel of the stroke layer with alpha 0 is all zero.
    pub open spec fn wf(&self) -> bool {
        &&& self.byte_len() <= usize::MAX
        &&& self.pixel_buffer@.len() == self.byte_len()
        &&& self.stroke_buffer@.len() == self.byte_len()
        &&& forall|k: int|
            0 <= k < self.width as int * self.height as int ==> #[trigger] self.pixel_buffer@[4 * k
                + 3] == 255
        &&& forall|k: int|
            0 <= k < self.width as int * self.height as int && #[trigger] self.stroke_buffer@[4 * k
                + 3] == 0 ==> self.stroke_buffer@[4 * k] == 0 && self.stroke_buffer@[4 * k + 1]
                == 0 && self.stroke_buffer@[4 * k + 2] == 0
    }

    /// A canvas of the given size: opaque white image, transparent stroke layer.
    pub fn new(width: u32, height: u32) -> (c: Canvas)
        requires
            width as int * height as int * 4 <= usize::MAX,
        ensures
            c.wf(),
            c.width == width,
            c.height == height,
            c.pixel_buffer@ == Seq::new(c.byte_len() as nat, |j: int| 255u8),
            c.stroke_buffer@ == clear_layer(c.byte_len() as nat),
    {
        assert(width as int * height as int <= usize::MAX) by (nonlinear_arith)
            requires
                width as int * height as int * 4 <= usize::MAX,
        ;
        let n: usize = width as usize * height as usize * 4;
        let pixel_buffer: Vec<u8> = vec![255u8; n];
        let stroke_buffer: Vec<u8> = vec![0u8; n];
        let c = Canvas { pixel_buffer, stroke_buffer, width, height };
        assert(c.pixel_buffer@ =~= Seq::new(c.byte_len() as nat, |j: int| 255u8));
        assert(c.stroke_buffer@ =~= clear_layer(c.byte_len() as nat));
        assert forall|k: int| 0 <= k < width as int * height as int implies #[trigger] c.pixel_buffer@[4
            * k + 3] == 255 by {}
        c
    }

    /// Writes one texel into the stroke layer under the max-alpha rule:
    /// the texel takes `(r, g, b, a)` only if `a` is strictly greater than its
    /// current alpha. Coordinates outside the canvas are ignored.
    pub fn draw_to_stroke(&mut self, x: u32, y: u32, r: u8, g: u8, b: u8, a: u8)
        requires
            old(self).wf(),
        ensures
            final(self).wf(),
            final(self).width == old(self).width,
            final(self).height == old(self).height,
            final(self).pixel_buffer@ == old(self).pixel_buffer@,
            final(self).stroke_buffer@ == stroke_draw(
                old(self).stroke_buffer@,
                old(self).width,
                old(self).height,
                x,
                y,
                r,
                g,
                b,
                a,
            ),
    {
        if x >= self.width || y >= self.height {
            return ;
        }
        let ghost k = y as int * self.width as int + x as int;
        proof {
            lemma_texel_in_range(self.width, self.height, x, y);
        }
        let i: usize = (y as usize * self.width as usize + x as usize) * 4;
        let current_a = self.stroke_buffer[i + 3];
        if a > current_a {
            self.stroke_buffer.set(i, r);
            self.stroke_buffer.set(i + 1, g);
            self.stroke_buffer.set(i + 2, b);
            self.stroke_buffer.set(i + 3, a);
            assert forall|t: int|
                0 <= t < self.width as int * self.height as int && #[trigger] self.stroke_buffer@[4
                    * t + 3] == 0 implies self.stroke_buffer@[4 * t] == 0
                && self.stroke_buffer@[4 * t + 1] == 0 && self.stroke_buffer@[4 * t + 2] == 0 by {
                assert(t != k);
                assert(old(self).stroke_buffer@[4 * t + 3] == 0);
            }
        }
    }

    /// Applies each instruction with `draw_to_stroke`, in order. Returns
    /// whether there was any instruction.
    pub fn apply_commands(&mut self, commands: &Vec<PaintCommand>) -> (dirty: bool)
        requires
            old(self).wf(),
        ensures
            final(self).wf(),
            final(self).width == old(self).width,
            final(self).height == old(self).height,
            final(self).pixel_buffer@ == old(self).pixel_buffer@,
            final(self).stroke_buffer@ == stroke_after_commands(
                old(self).stroke_buffer@,
                old(self).width,
                old(self).height,
                commands@,
            ),
            dirty == (commands@.len() > 0),
    {
        let mut i: usize = 0;
        while i < commands.len()
            invariant
                self.wf(),
                i <= commands@.len(),
                self.width == old(self).width,
                self.height == old(self).height,
                self.pixel_buffer@ == old(self).pixel_buffer@,
                self.stroke_buffer@ == stroke_after_commands(
                    old(self).stroke_buffer@,
                    self.width,
                    self.height,
                    commands@.subrange(0, i as int),
                ),
            decreases commands@.len() - i,
        {
            let cmd = commands[i];
            match cmd {
                PaintCommand::DrawPixel { x, y, r, g, b, a } => {
                    self.draw_to_stroke(x, y, r, g, b, a);
                },
            }
            assert(commands@.subrange(0, i + 1).drop_last() =~= commands@.subrange(0, i as int));
            i = i + 1;
        }
        assert(commands@.subrange(0, commands@.len() as int) =~= commands@);
        commands.len() > 0
    }

    /// The image as displayed: the stroke layer alpha-blended over the
    /// permanent image. Neither layer changes.
    pub fn composite(&self) -> (out: Vec<u8>)
        requires
            self.wf(),
        ensures
            out@ == over(self.pixel_buffer@, self.stroke_buffer@),
    {
        let n = self.stroke_buffer.len();
        let ghost image = self.pixel_buffer@;
        let ghost stroke = self.stroke_buffer@;
        let mut out: Vec<u8> = Vec::new();
        let mut i: usize = 0;
        while i < n
            invariant
                self.wf(),
                n == self.byte_len(),
                i <= n,
                i % 4 == 0,
                n % 4 == 0,
                image == self.pixel_buffer@,
                stroke == self.stroke_buffer@,
                out@.len() == i,
                forall|j: int| 0 <= j < i ==> out@[j] == #[trigger] over_byte(image, stroke, j),
            decreases n - i,
        {
            let a = self.stroke_buffer[i + 3];
            if a > 0 {
                out.push(blend(self.stroke_buffer[i], self.pixel_buffer[i], a));
                out.push(blend(self.stroke_buffer[i + 1], self.pixel_buffer[i + 1], a));
                out.push(blend(self.stroke_buffer[i + 2], self.pixel_buffer[i + 2], a));
                out.push(255);
            } else {
                out.push(self.pixel_buffer[i]);
                out.push(self.pixel_buffer[i + 1]);
                out.push(self.pixel_buffer[i + 2]);
                out.push(self.pixel_buffer[i + 3]);
            }
            proof {
                lemma_texel_bytes(i as int);
            }
            i = i + 4;
        }
        assert(out@ =~= over(image, stroke));
        out
    }

    /// Bakes the stroke layer into the image with the "over" operator and
    /// clears the stroke layer.
    pub fn commit_stroke(&mut self)
        requires
            old(self).wf(),
        ensures
            final(self).wf(),
            final(self).width == old(self).width,
            final(self).height == old(self).height,
            final(self).pixel_buffer@ == over(old(self).pixel_buffer@, old(self).stroke_buffer@),
            final(self).stroke_buffer@ == clear_layer(old(self).byte_len() as nat),
    {
        let n = self.stroke_buffer.len();
        let ghost image = self.pixel_buffer@;
        let ghost stroke = self.stroke_buffer@;
        let mut i: usize = 0;
        while i < n
            invariant
                n == old(self).byte_len(),
                self.width == old(self).width,
                self.height == old(self).height,
                self.byte_len() <= usize::MAX,
                image == old(self).pixel_buffer@,
                stroke == old(self).stroke_buffer@,
                old(self).wf(),
                self.pixel_buffer@.len() == n,
                self.stroke_buffer@.len() == n,
                i <= n,
                i % 4 == 0,
                n % 4 == 0,
                forall|j: int| 0 <= j < i ==> self.pixel_buffer@[j] == #[trigger] over_byte(image, stroke, j),
                forall|j: int| 0 <= j < i ==> #[trigger] self.stroke_buffer@[j] == 0,
                forall|j: int| i <= j < n ==> #[trigger] self.pixel_buffer@[j] == image[j],
                forall|j: int| i <= j < n ==> #[trigger] self.stroke_buffer@[j] == stroke[j],
            decreases n - i,
        {
            let a = self.stroke_buffer[i + 3];
            proof {
                lemma_texel_bytes(i as int);
            }
            if a > 0 {
                let r = blend(self.stroke_buffer[i], self.pixel_buffer[i], a);
                let g = blend(self.stroke_buffer[i + 1], self.pixel_buffer[i + 1], a);
                let b = blend(self.stroke_buffer[i + 2], self.pixel_buffer[i + 2], a);
                self.pixel_buffer.set(i, r);
                self.pixel_buffer.set(i + 1, g);
                self.pixel_buffer.set(i + 2, b);
                self.pixel_buffer.set(i + 3, 255);
                self.stroke_buffer.set(i, 0);
                self.stroke_buffer.set(i + 1, 0);
                self.stroke_buffer.set(i + 2, 0);
                self.stroke_buffer.set(i + 3, 0);
            } else {
                assert(stroke[4 * (i as int / 4) + 3] == 0);
            }
            i = i + 4;
        }
        assert(self.pixel_buffer@ =~= over(image, stroke));
        assert(self.stroke_buffer@ =~= clear_layer(n as nat));
        assert forall|k: int| 0 <= k < self.width as int * self.height as int implies #[trigger] self.pixel_buffer@[4
            * k + 3] == 255 by {
            lemma_texel_bytes(4 * k);
            assert(image[4 * k + 3] == 255);
        }
    }
}

} // verus!
