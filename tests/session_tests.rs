use pixle::packages::LoadedTool;
use pixle::scripting::{CursorType, LuaEngine};
use pixle::session::{PaintSession, PointerEvent};

const ROUND_BRUSH: &str = "
seen = {}
return {
  size = 10,
  cursor = 'circle',
  on_paint = function(api, sx, sy, ex, ey, r, g, b)
    seen[#seen + 1] = { sx, sy, ex, ey }
    local steps = math.max(math.abs(ex - sx), math.abs(ey - sy), 1)
    for i = 0, steps do
      local cx = sx + (ex - sx) * i // steps
      local cy = sy + (ey - sy) * i // steps
      for dy = -2, 2 do
        for dx = -2, 2 do
          if dx * dx + dy * dy <= 4 then
            api.draw_pixel(cx + dx, cy + dy, r, g, b)
          end
        end
      end
    end
  end,
}
";

fn texel(buf: &[u8], w: u32, x: u32, y: u32) -> [u8; 4] {
    let i = ((y * w + x) * 4) as usize;
    [buf[i], buf[i + 1], buf[i + 2], buf[i + 3]]
}

fn brush_tool(name: &str) -> LoadedTool {
    LoadedTool {
        name: name.to_string(),
        script_content: ROUND_BRUSH.to_string(),
        package_path: "packages/basic".to_string(),
    }
}

fn seen_segments(engine: &LuaEngine) -> Vec<Vec<u32>> {
    let seen: mlua::Table = engine.lua.globals().get("seen").unwrap();
    let mut out = Vec::new();
    for i in 1..=seen.raw_len() {
        let seg: Vec<u32> = seen.get(i).unwrap();
        out.push(seg);
    }
    out
}

#[test]
fn drag_paints_and_release_commits() {
    let mut engine = LuaEngine::new();
    let mut s = PaintSession::new(800, 600);
    s.select_tool(&mut engine, &brush_tool("A")).unwrap();
    assert_eq!(s.active_tool_name, "A");
    assert!(matches!(engine.get_current_cursor(), CursorType::SystemCircle));

    let red = [255, 0, 0];
    assert!(!s.handle_pointer_event(PointerEvent::Moved { x: 100, y: 100 }, false));
    assert!(!s.handle_pointer_event(PointerEvent::Pressed, false));
    assert!(s.input.pressed);
    assert!(!s.handle_pointer_event(PointerEvent::Moved { x: 110, y: 100 }, false));
    assert_eq!(s.update(&engine, false, 800, 600, red), Ok(true));
    assert_eq!(seen_segments(&engine), vec![vec![100, 100, 110, 100]]);

    for x in 100..=110 {
        assert_eq!(texel(&s.canvas.stroke_buffer, 800, x, 100), [255, 0, 0, 255]);
        assert_eq!(texel(&s.canvas.stroke_buffer, 800, x, 102), [255, 0, 0, 255]);
    }
    assert_eq!(texel(&s.canvas.stroke_buffer, 800, 105, 103), [0, 0, 0, 0]);
    assert_eq!(texel(&s.canvas.stroke_buffer, 800, 113, 100), [0, 0, 0, 0]);
    assert!(s.canvas.pixel_buffer.iter().all(|&v| v == 255));
    let shown = s.canvas.composite();
    assert_eq!(texel(&shown, 800, 105, 100), [255, 0, 0, 255]);

    assert!(s.handle_pointer_event(PointerEvent::Released, false));
    assert!(!s.input.pressed);
    assert!(s.canvas.stroke_buffer.iter().all(|&v| v == 0));
    for x in 100..=110 {
        assert_eq!(texel(&s.canvas.pixel_buffer, 800, x, 100), [255, 0, 0, 255]);
    }
    assert_eq!(texel(&s.canvas.pixel_buffer, 800, 105, 103), [255, 255, 255, 255]);
    // a second release commits nothing more
    assert!(!s.handle_pointer_event(PointerEvent::Released, false));
}

#[test]
fn idle_or_ui_frames_paint_nothing() {
    let mut engine = LuaEngine::new();
    let mut s = PaintSession::new(50, 50);
    s.select_tool(&mut engine, &brush_tool("A")).unwrap();
    s.handle_pointer_event(PointerEvent::Moved { x: 10, y: 10 }, false);
    assert_eq!(s.update(&engine, false, 50, 50, [0, 0, 0]), Ok(false));
    s.handle_pointer_event(PointerEvent::Pressed, false);
    assert_eq!(s.update(&engine, true, 50, 50, [0, 0, 0]), Ok(false));
    assert!(s.canvas.stroke_buffer.iter().all(|&v| v == 0));
    assert!(seen_segments(&engine).is_empty());
}

#[test]
fn switching_tools_while_idle_keeps_buffers() {
    let mut engine = LuaEngine::new();
    let mut s = PaintSession::new(40, 30);
    s.select_tool(&mut engine, &brush_tool("A")).unwrap();
    s.handle_pointer_event(PointerEvent::Moved { x: 5, y: 5 }, false);
    s.handle_pointer_event(PointerEvent::Pressed, false);
    s.handle_pointer_event(PointerEvent::Moved { x: 20, y: 5 }, false);
    assert_eq!(s.update(&engine, false, 40, 30, [0, 0, 255]), Ok(true));
    s.handle_pointer_event(PointerEvent::Released, false);
    let pix = s.canvas.pixel_buffer.clone();
    let stroke = s.canvas.stroke_buffer.clone();

    s.select_tool(&mut engine, &brush_tool("B")).unwrap();
    assert_eq!(s.active_tool_name, "B");
    let bad = LoadedTool {
        name: "C".to_string(),
        script_content: "return nil +".to_string(),
        package_path: "x".to_string(),
    };
    assert!(s.select_tool(&mut engine, &bad).is_err());
    assert_eq!(s.active_tool_name, "B");
    assert_eq!(s.canvas.pixel_buffer, pix);
    assert_eq!(s.canvas.stroke_buffer, stroke);
}

#[test]
fn failing_brush_reports_and_draws_nothing() {
    let mut engine = LuaEngine::new();
    let mut s = PaintSession::new(20, 20);
    let broken = LoadedTool {
        name: "broken".to_string(),
        script_content: "return { on_paint = function(api) api.draw_pixel(1, 1, 0, 0, 0) error('snap') end }"
            .to_string(),
        package_path: "pk".to_string(),
    };
    s.select_tool(&mut engine, &broken).unwrap();
    s.handle_pointer_event(PointerEvent::Pressed, false);
    let err = s.update(&engine, false, 20, 20, [0, 0, 0]).unwrap_err();
    assert!(err.contains("snap"));
    assert!(s.canvas.stroke_buffer.iter().all(|&v| v == 0));
}
