use pixle::commands::PaintCommand;
use pixle::packages::LoadedTool;
use pixle::scripting::{
    command_from_draw_args, commands_from_paint_result, cursor_from_field, CursorType, LuaEngine,
    ToolLoadError,
};

fn tool(name: &str, script: &str, path: &str) -> LoadedTool {
    LoadedTool {
        name: name.to_string(),
        script_content: script.to_string(),
        package_path: path.to_string(),
    }
}

#[test]
fn draw_args_become_commands() {
    assert_eq!(
        command_from_draw_args((3, 4, 1, 2, 3, None)),
        Some(PaintCommand::DrawPixel { x: 3, y: 4, r: 1, g: 2, b: 3, a: 255 })
    );
    assert_eq!(
        command_from_draw_args((0, 0, 9, 8, 7, Some(12))),
        Some(PaintCommand::DrawPixel { x: 0, y: 0, r: 9, g: 8, b: 7, a: 12 })
    );
    assert_eq!(command_from_draw_args((-1, 4, 1, 2, 3, None)), None);
    assert_eq!(command_from_draw_args((4, -1, 1, 2, 3, Some(5))), None);
}

#[test]
fn failed_callback_draws_nothing() {
    assert_eq!(
        commands_from_paint_result(&Err("boom".to_string())),
        Err("boom".to_string())
    );
    let calls = vec![(1, 1, 5, 5, 5, None), (-2, 1, 5, 5, 5, None), (2, 3, 0, 0, 0, Some(7))];
    assert_eq!(
        commands_from_paint_result(&Ok(calls)),
        Ok(vec![
            PaintCommand::DrawPixel { x: 1, y: 1, r: 5, g: 5, b: 5, a: 255 },
            PaintCommand::DrawPixel { x: 2, y: 3, r: 0, g: 0, b: 0, a: 7 },
        ])
    );
}

#[test]
fn cursor_field_choices() {
    assert!(matches!(cursor_from_field(None, "packages/p"), CursorType::SystemCircle));
    assert!(matches!(
        cursor_from_field(Some("circle".to_string()), "packages/p"),
        CursorType::SystemCircle
    ));
    match cursor_from_field(Some("cursor.png".to_string()), "packages/p") {
        CursorType::CustomImage(p) => {
            assert_eq!(std::path::Path::new(&p), std::path::Path::new("packages/p/cursor.png"))
        }
        CursorType::SystemCircle => panic!("expected an image cursor"),
    }
}

#[test]
fn engine_reads_tool_cursor() {
    let mut e = LuaEngine::new();
    assert!(matches!(e.get_current_cursor(), CursorType::SystemCircle));
    e.load_tool(&tool("a", "return { size = 4, cursor = 'img/c.png', on_paint = function() end }", "pk")).unwrap();
    match e.get_current_cursor() {
        CursorType::CustomImage(p) => {
            assert_eq!(std::path::Path::new(&p), std::path::Path::new("pk/img/c.png"))
        }
        CursorType::SystemCircle => panic!("expected an image cursor"),
    }
    e.load_tool(&tool("b", "return { size = 4, on_paint = function() end }", "pk2")).unwrap();
    assert!(matches!(e.get_current_cursor(), CursorType::SystemCircle));
}

#[test]
fn bad_script_keeps_previous_tool() {
    let mut e = LuaEngine::new();
    let good = "return { on_paint = function(api, sx, sy, ex, ey, r, g, b) api.draw_pixel(sx, sy, r, g, b) end }";
    e.load_tool(&tool("good", good, "pk")).unwrap();
    assert!(e.load_tool(&tool("bad", "this is not lua (", "other")).is_err());
    assert!(matches!(
        e.load_tool(&tool("num", "return 5", "other")),
        Err(ToolLoadError::Script(_))
    ));
    assert!(matches!(
        e.load_tool(&tool("nopaint", "return { size = 3 }", "other")),
        Err(ToolLoadError::MissingPaintCallback)
    ));
    assert!(matches!(
        e.load_tool(&tool("badpaint", "return { on_paint = 5 }", "other")),
        Err(ToolLoadError::MissingPaintCallback)
    ));
    assert_eq!(e.current_package_path, "pk");
    assert_eq!(
        e.process_input(2, 3, 4, 5, [9, 8, 7]),
        Ok(vec![PaintCommand::DrawPixel { x: 2, y: 3, r: 9, g: 8, b: 7, a: 255 }])
    );
}

#[test]
fn paint_callback_emits_in_order() {
    let mut e = LuaEngine::new();
    let script = "return { on_paint = function(api, sx, sy, ex, ey, r, g, b)
        api.draw_pixel(ex, ey, r, g, b, 10)
        api.draw_pixel(-1, sy, r, g, b)
        api.draw_pixel(sx, sy, 1, 2, 3)
    end }";
    e.load_tool(&tool("t", script, "pk")).unwrap();
    assert_eq!(
        e.process_input(1, 2, 3, 4, [100, 0, 50]),
        Ok(vec![
            PaintCommand::DrawPixel { x: 3, y: 4, r: 100, g: 0, b: 50, a: 10 },
            PaintCommand::DrawPixel { x: 1, y: 2, r: 1, g: 2, b: 3, a: 255 },
        ])
    );
}

#[test]
fn raising_callback_draws_nothing() {
    let mut e = LuaEngine::new();
    let script = "return { on_paint = function(api, sx, sy, ex, ey, r, g, b)
        api.draw_pixel(sx, sy, r, g, b)
        error('broken brush')
    end }";
    e.load_tool(&tool("t", script, "pk")).unwrap();
    let err = e.process_input(1, 2, 3, 4, [1, 1, 1]).unwrap_err();
    assert!(err.contains("broken brush"));
}

#[test]
fn no_tool_draws_nothing() {
    let e = LuaEngine::new();
    assert!(!e.tool_loaded);
    assert_eq!(e.process_input(1, 2, 3, 4, [1, 1, 1]), Ok(Vec::new()));
    let mut e2 = LuaEngine::new();
    assert!(e2.load_tool(&tool("t", "return { size = 2 }", "pk")).is_err());
    assert_eq!(e2.process_input(1, 2, 3, 4, [1, 1, 1]), Ok(Vec::new()));
    e2.load_tool(&tool("t", "return { size = 2, on_paint = function() end }", "pk")).unwrap();
    assert!(e2.tool_loaded);
    assert_eq!(e2.process_input(1, 2, 3, 4, [1, 1, 1]), Ok(Vec::new()));
}

#[test]
fn numeric_cursor_gets_the_ring() {
    let mut e = LuaEngine::new();
    e.load_tool(&tool("n", "return { cursor = 5, on_paint = function() end }", "pk")).unwrap();
    assert!(matches!(e.get_current_cursor(), CursorType::SystemCircle));
    e.load_tool(&tool("t", "return { cursor = {}, on_paint = function() end }", "pk")).unwrap();
    assert!(matches!(e.get_current_cursor(), CursorType::SystemCircle));
}

#[test]
fn scripts_cannot_reach_os_or_io() {
    let mut e = LuaEngine::new();
    assert!(matches!(
        e.load_tool(&tool("exit", "os.exit(1)", "pk")),
        Err(ToolLoadError::Script(_))
    ));
    assert!(matches!(
        e.load_tool(&tool("io", "io.write('x') return { on_paint = function() end }", "pk")),
        Err(ToolLoadError::Script(_))
    ));
    let script = "return { on_paint = function(api) os.exit(1) end }";
    e.load_tool(&tool("later", script, "pk")).unwrap();
    assert!(e.process_input(0, 0, 0, 0, [0, 0, 0]).is_err());
}

#[test]
fn failed_load_cannot_clear_active_tool() {
    let mut e = LuaEngine::new();
    let good = "return { on_paint = function(api, sx, sy, ex, ey, r, g, b) api.draw_pixel(ex, ey, r, g, b) end }";
    e.load_tool(&tool("good", good, "pk")).unwrap();
    assert!(e
        .load_tool(&tool("evil", "current_tool = nil; _G.current_tool = nil; error('no')", "x"))
        .is_err());
    assert_eq!(
        e.process_input(0, 0, 6, 7, [1, 2, 3]),
        Ok(vec![PaintCommand::DrawPixel { x: 6, y: 7, r: 1, g: 2, b: 3, a: 255 }])
    );
}
