use vstd::prelude::*;

use crate::canvas::{clear_layer, over, stroke_after_commands, Canvas};
use crate::commands::PaintCommand;
use crate::input::{texel_segment, StrokeInput};
use crate::packages::LoadedTool;
use crate::scripting::{LuaEngine, ToolLoadError};

verus! {

/// A pointer event, in display pixels.
#[derive(Clone, Copy, Debug, PartialEq, Eq, Structural)]
pub enum PointerEvent {
    Moved { x: u32, y: u32 },
    Pressed,
    Released,
}

/// The painting state the host keeps between frames: the canvas, the
/// pointer's stroke state and the name of the active tool.
pub struct PaintSession {
    pub canvas: Canvas,
    pub input: StrokeInput,
    pub active_tool_name: String,
}

impl PaintSession {
    pub open spec fn wf(&self) -> bool {
        self.canvas.wf()
    }

    /// A blank canvas of the given size, an idle pointer and no tool.
    pub fn new(width: u32, height: u32) -> (s: PaintSession)
        requires
            width as int * height as int * 4 <= usize::MAX,
        ensures
            s.wf(),
            s.canvas.width == width,
            s.canvas.height == height,
            s.canvas.pixel_buffer@ == Seq::new(s.canvas.byte_len() as nat, |j: int| 255u8),
            s.canvas.stroke_buffer@ == clear_layer(s.canvas.byte_len() as nat),
            !s.input.pressed,
            s.input.last.is_none(),
            s.active_tool_name@.len() == 0,
    {
        PaintSession {
            canvas: Canvas::new(width, height),
            input: StrokeInput::new(),
            active_tool_name: String::new(),
        }
    }

    /// Handles one pointer event. Releasing the button ends a drag by
    /// committing the stroke; returns whether it did, that is, whether the
    /// display must be refreshed.
    pub fn handle_pointer_event(&mut self, event: PointerEvent, over_ui: bool) -> (committed: bool)
        requires
            old(self).wf(),
        ensures
            final(self).wf(),
            final(self).active_tool_name == old(self).active_tool_name,
            final(self).canvas.width == old(self).canvas.width,
            final(self).canvas.height == old(self).canvas.height,
            committed == (event == PointerEvent::Released && old(self).input.pressed),
            committed ==> final(self).canvas.pixel_buffer@ == over(
                old(self).canvas.pixel_buffer@,
                old(self).canvas.stroke_buffer@,
            ) && final(self).canvas.stroke_buffer@ == clear_layer(
                old(self).canvas.byte_len() as nat,
            ),
            !committed ==> final(self).canvas == old(self).canvas,
            match event {
                PointerEvent::Moved { x, y } => final(self).input.pointer == (x, y)
                    && final(self).input.last == old(self).input.last && final(self).input.pressed
                    == old(self).input.pressed,
                PointerEvent::Pressed => final(self).input.pointer == old(self).input.pointer && (
                over_ui || old(self).input.pressed ==> final(self).input == old(self).input) && (
                !over_ui && !old(self).input.pressed ==> final(self).input.pressed
                    && final(self).input.last == Some(old(self).input.pointer)),
                PointerEvent::Released => !final(self).input.pressed
                    && final(self).input.last.is_none() && final(self).input.pointer == old(
                    self,
                ).input.pointer,
            },
    {
        match event {
            PointerEvent::Moved { x, y } => {
                self.input.pointer_moved(x, y);
                false
            },
            PointerEvent::Pressed => {
                self.input.press(over_ui);
                false
            },
            PointerEvent::Released => {
                if self.input.release() {
                    self.canvas.commit_stroke();
                    true
                } else {
                    false
                }
            },
        }
    }

    /// One frame: while dragging and not over a UI panel, runs the active
    /// tool over the segment the pointer covered and draws what it returns
    /// into the stroke layer. Returns whether anything was drawn, that is,
    /// whether the display must be refreshed; or, when the tool's callback
    /// failed, its error, with nothing drawn. The image never changes here.
    pub fn update(
        &mut self,
        engine: &LuaEngine,
        over_ui: bool,
        view_w: u32,
        view_h: u32,
        color: [u8; 3],
    ) -> (r: Result<bool, String>)
        requires
            old(self).wf(),
            view_w > 0,
            view_h > 0,
        ensures
            final(self).wf(),
            final(self).active_tool_name == old(self).active_tool_name,
            final(self).canvas.width == old(self).canvas.width,
            final(self).canvas.height == old(self).canvas.height,
            final(self).canvas.pixel_buffer@ == old(self).canvas.pixel_buffer@,
            !old(self).input.pressed || over_ui ==> r == Ok::<bool, String>(false)
                && final(self).canvas == old(self).canvas && final(self).input == old(
                self,
            ).input,
            old(self).input.pressed && !over_ui ==> final(self).input.last == Some(
                old(self).input.pointer,
            ) && final(self).input.pointer == old(self).input.pointer
                && final(self).input.pressed,
            r is Err ==> final(self).canvas == old(self).canvas,
            r matches Ok(dirty) ==> exists|cmds: Seq<PaintCommand>|
                final(self).canvas.stroke_buffer@ == stroke_after_commands(
                    old(self).canvas.stroke_buffer@,
                    old(self).canvas.width,
                    old(self).canvas.height,
                    cmds,
                ) && dirty == (cmds.len() > 0),
    {
        let w = self.canvas.width;
        let h = self.canvas.height;
        match self.input.tick(over_ui, w, h, view_w, view_h) {
            None => {
                assert(stroke_after_commands(
                    self.canvas.stroke_buffer@,
                    w,
                    h,
                    Seq::<PaintCommand>::empty(),
                ) == self.canvas.stroke_buffer@);
                Ok(false)
            },
            Some(seg) => {
                match engine.process_input(
                    seg.start_x,
                    seg.start_y,
                    seg.end_x,
                    seg.end_y,
                    color,
                ) {
                    Ok(cmds) => {
                        let dirty = self.canvas.apply_commands(&cmds);
                        assert(cmds@.len() == cmds.len());
                        Ok(dirty)
                    },
                    Err(e) => Err(e),
                }
            },
        }
    }

    /// Makes `tool` the active tool. Neither layer of the canvas nor the
    /// pointer state changes; on failure the active tool's name stays.
    pub fn select_tool(&mut self, engine: &mut LuaEngine, tool: &LoadedTool) -> (r: Result<
        (),
        ToolLoadError,
    >)
        ensures
            final(self).canvas == old(self).canvas,
            final(self).input == old(self).input,
            r is Ok ==> final(self).active_tool_name@ == tool.name@
                && final(engine).current_package_path@ == tool.package_path@,
            r is Err ==> final(self).active_tool_name == old(self).active_tool_name
                && final(engine).current_package_path@ == old(engine).current_package_path@,
    {
        let r = engine.load_tool(tool);
        if r.is_ok() {
            self.active_tool_name = tool.name.clone();
        }
        r
    }
}

} // verus!
