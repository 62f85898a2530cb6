use vstd::prelude::*;

use crate::commands::PaintCommand;
use crate::packages::LoadedTool;

verus! {

#[verifier::external_type_specification]
#[verifier::external_body]
pub struct ExLua(mlua::Lua);

/// Relies on mlua::Lua::new_with: a fresh Lua state with only the coroutine,
/// table, string, utf8 and math libraries, so that scripts reach neither `os`,
/// `io` nor `package`. It fails only when asked for `debug` or `ffi`.
#[verifier::external_body]
fn new_sandboxed_lua() -> (r: Result<mlua::Lua, String>)
    ensures
        r is Ok,
{
    let libs = mlua::StdLib::COROUTINE | mlua::StdLib::TABLE | mlua::StdLib::STRING
        | mlua::StdLib::UTF8 | mlua::StdLib::MATH;
    mlua::Lua::new_with(libs, mlua::LuaOptions::default()).map_err(|e| e.to_string())
}

/// The arguments of one `draw_pixel(x, y, r, g, b, a?)` call made by a tool script.
pub type DrawArgs = (i32, i32, u8, u8, u8, Option<u8>);

/// The registry slot that holds the active tool's table, out of scripts' reach.
pub const CURRENT_TOOL: &'static str = "current_tool";

/// The tool's paint callback.
pub const ON_PAINT: &'static str = "on_paint";

/// The one function a paint callback is given to draw with.
pub const DRAW_PIXEL: &'static str = "draw_pixel";

/// The tool's cursor field.
pub const CURSOR_FIELD: &'static str = "cursor";

#[verifier::external_type_specification]
#[verifier::external_body]
pub struct ExLuaTable<'lua>(mlua::Table<'lua>);

/// Relies on mlua's Chunk::eval: runs `source`, which must yield a table.
/// Whether it succeeds depends on the script.
#[verifier::external_body]
fn eval_table<'lua>(lua: &'lua mlua::Lua, source: &str) -> (r: Result<mlua::Table<'lua>, String>) {
    lua.load(source).eval::<mlua::Table>().map_err(|e| e.to_string())
}

/// Relies on mlua's Table::raw_get: whether the field `name` of `t` holds a
/// function (read without metamethods).
#[verifier::external_body]
fn has_function(t: &mlua::Table, name: &str) -> (r: bool) {
    t.raw_get::<_, mlua::Function>(name).is_ok()
}

/// Relies on mlua's Lua::set_named_registry_value: stores `t` in the registry
/// slot `key`, which scripts cannot reach.
#[verifier::external_body]
fn set_registry_table(lua: &mlua::Lua, key: &str, t: mlua::Table) -> (r: Result<(), String>) {
    lua.set_named_registry_value(key, t).map_err(|e| e.to_string())
}

/// Relies on mlua's Lua::named_registry_value and Table::raw_get: the field
/// `field` of the table in the registry slot `key`, when there is such a table
/// and the field is a Lua string of valid UTF-8.
#[verifier::external_body]
fn registry_string_field(lua: &mlua::Lua, key: &str, field: &str) -> (r: Option<String>) {
    let value = lua.named_registry_value::<mlua::Table>(key).and_then(|t| t.raw_get(field));
    match value {
        Ok(mlua::Value::String(text)) => text.to_str().ok().map(|t| t.to_owned()),
        _ => None,
    }
}

/// Relies on mlua's Lua::scope and Function::call: calls the function `names.1`
/// of the table in the registry slot `names.0` with a table whose function `names.2`
/// records its arguments, then the segment and colour. Returns the recorded
/// arguments in call order, or the error the call raised.
#[verifier::external_body]
fn call_with_recorder(
    lua: &mlua::Lua,
    names: (&str, &str, &str),
    sx: u32,
    sy: u32,
    ex: u32,
    ey: u32,
    r: u8,
    g: u8,
    b: u8,
) -> (res: Result<Vec<DrawArgs>, String>) {
    let calls = std::cell::RefCell::new(Vec::new());
    lua.scope(|scope| {
        let api = lua.create_table()?;
        api.set(names.2, scope.create_function(|_, c: DrawArgs| Ok(calls.borrow_mut().push(c)))?)?;
        let tool: mlua::Table = lua.named_registry_value(names.0)?;
        tool.raw_get::<_, mlua::Function>(names.1)?.call::<_, ()>((api, sx, sy, ex, ey, r, g, b))
    }).map(|_| calls.into_inner()).map_err(|e| e.to_string())
}

/// The path `rel` resolved against the directory `base`.
pub uninterp spec fn joined_path(base: Seq<char>, rel: Seq<char>) -> Seq<char>;

/// Relies on std::path::Path::join: `rel` resolved against `base`.
#[verifier::external_body]
fn join_path(base: &str, rel: &str) -> (r: String)
    ensures
        r@ == joined_path(base@, rel@),
{
    std::path::Path::new(base).join(rel).to_string_lossy().into_owned()
}

/// The paint instruction for one `draw_pixel` call: none when a coordinate is
/// negative; a missing alpha means fully opaque.
pub open spec fn command_of_call(c: DrawArgs) -> Option<PaintCommand> {
    if c.0 >= 0 && c.1 >= 0 {
        Some(
            PaintCommand::DrawPixel {
                x: c.0 as u32,
                y: c.1 as u32,
                r: c.2,
                g: c.3,
                b: c.4,
                a: match c.5 {
                    Some(a) => a,
                    None => 255u8,
                },
            },
        )
    } else {
        None
    }
}

/// The paint instructions for a run of `draw_pixel` calls, in call order.
pub open spec fn commands_of_calls(calls: Seq<DrawArgs>) -> Seq<PaintCommand>
    decreases calls.len(),
{
    if calls.len() == 0 {
        Seq::empty()
    } else {
        let prev = commands_of_calls(calls.drop_last());
        match command_of_call(calls.last()) {
            Some(c) => prev.push(c),
            None => prev,
        }
    }
}

/// The instructions of two runs of calls, one after the other, are those of
/// the first run followed by those of the second.
proof fn lemma_commands_of_calls_concat(a: Seq<DrawArgs>, b: Seq<DrawArgs>)
    ensures
        commands_of_calls(a + b) == commands_of_calls(a) + commands_of_calls(b),
    decreases b.len(),
{
    if b.len() == 0 {
        assert(a + b =~= a);
        assert(commands_of_calls(a) + commands_of_calls(b) =~= commands_of_calls(a));
    } else {
        lemma_commands_of_calls_concat(a, b.drop_last());
        assert((a + b).drop_last() =~= a + b.drop_last());
        assert((a + b).last() == b.last());
        let pre = commands_of_calls(a);
        let mid = commands_of_calls(b.drop_last());
        match command_of_call(b.last()) {
            Some(c) => {
                assert((pre + mid).push(c) =~= pre + mid.push(c));
            },
            None => {},
        }
    }
}

/// A `draw_pixel` call with a negative coordinate contributes no instruction:
/// the instructions of a run of calls are those of the run without it.
pub proof fn lemma_negative_call_dropped(calls: Seq<DrawArgs>, i: int)
    requires
        0 <= i < calls.len(),
        calls[i].0 < 0 || calls[i].1 < 0,
    ensures
        commands_of_calls(calls) == commands_of_calls(calls.remove(i)),
{
    let a = calls.subrange(0, i);
    let b = calls.subrange(i + 1, calls.len() as int);
    let head = a.push(calls[i]);
    assert(calls =~= head + b);
    assert(calls.remove(i) =~= a + b);
    lemma_commands_of_calls_concat(head, b);
    lemma_commands_of_calls_concat(a, b);
    assert(head.drop_last() =~= a);
}

/// The paint instruction for one `draw_pixel` call made by a tool script.
pub fn command_from_draw_args(c: DrawArgs) -> (r: Option<PaintCommand>)
    ensures
        r == command_of_call(c),
{
    if c.0 >= 0 && c.1 >= 0 {
        let a = match c.5 {
            Some(a) => a,
            None => 255u8,
        };
        Some(PaintCommand::DrawPixel { x: c.0 as u32, y: c.1 as u32, r: c.2, g: c.3, b: c.4, a })
    } else {
        None
    }
}

/// What one paint callback produced: the instructions of its `draw_pixel`
/// calls, in order, or, when the callback failed, its error and no
/// instruction at all.
pub fn commands_from_paint_result(res: &Result<Vec<DrawArgs>, String>) -> (r: Result<
    Vec<PaintCommand>,
    String,
>)
    ensures
        match res {
            Ok(calls) => r matches Ok(cmds) && cmds@ == commands_of_calls(calls@),
            Err(e) => r matches Err(m) && m == e,
        },
{
    match res {
        Ok(calls) => {
            let mut cmds: Vec<PaintCommand> = Vec::new();
            let mut i: usize = 0;
            while i < calls.len()
                invariant
                    i <= calls@.len(),
                    cmds@ == commands_of_calls(calls@.subrange(0, i as int)),
                decreases calls@.len() - i,
            {
                if let Some(c) = command_from_draw_args(calls[i]) {
                    cmds.push(c);
                }
                assert(calls@.subrange(0, i + 1).drop_last() =~= calls@.subrange(0, i as int));
                i = i + 1;
            }
            assert(calls@.subrange(0, calls@.len() as int) =~= calls@);
            Ok(cmds)
        },
        Err(e) => Err(e.clone()),
    }
}

/// Whether two strings hold the same characters.
fn same_text(a: &str, b: &str) -> (r: bool)
    ensures
        r == (a@ == b@),
{
    let n = a.unicode_len();
    if n != b.unicode_len() {
        return false;
    }
    let mut i: usize = 0;
    while i < n
        invariant
            n == a@.len(),
            n == b@.len(),
            i <= n,
            forall|j: int| 0 <= j < i ==> a@[j] == b@[j],
        decreases n - i,
    {
        if a.get_char(i) != b.get_char(i) {
            return false;
        }
        i = i + 1;
    }
    assert(a@ =~= b@);
    true
}

/// Why a tool could not be loaded.
#[derive(Clone, Debug)]
pub enum ToolLoadError {
    /// The script failed to run or did not return a table; the message says why.
    Script(String),
    /// The tool's table has no paint callback.
    MissingPaintCallback,
}

/// How the pointer is drawn over the canvas.
#[derive(Clone, Debug)]
pub enum CursorType {
    /// A ring drawn by the host, sized after the brush.
    SystemCircle,
    /// An image file, by its path.
    CustomImage(String),
}

/// `r` is the cursor for a tool whose cursor field is `field`, in a package
/// at `package_path`: the ring when the field is absent or `"circle"`, else
/// the image at the field's path within the package.
pub open spec fn cursor_is(r: CursorType, field: Option<Seq<char>>, package_path: Seq<char>) -> bool {
    match field {
        None => r is SystemCircle,
        Some(c) => if c == seq!['c', 'i', 'r', 'c', 'l', 'e'] {
            r is SystemCircle
        } else {
            r matches CursorType::CustomImage(p) && p@ == joined_path(package_path, c)
        },
    }
}

/// The cursor for a tool's cursor field.
pub fn cursor_from_field(field: Option<String>, package_path: &str) -> (r: CursorType)
    ensures
        cursor_is(
            r,
            match field {
                Some(c) => Some(c@),
                None => None,
            },
            package_path@,
        ),
{
    match field {
        None => CursorType::SystemCircle,
        Some(c) => {
            let circle = "circle";
            proof {
                reveal_strlit("circle");
            }
            assert(circle@ =~= seq!['c', 'i', 'r', 'c', 'l', 'e']);
            if same_text(c.as_str(), circle) {
                CursorType::SystemCircle
            } else {
                CursorType::CustomImage(join_path(package_path, c.as_str()))
            }
        },
    }
}

/// The scripting runtime and the active tool: one tool at a time, replaced
/// wholesale when another is loaded.
pub struct LuaEngine {
    pub lua: mlua::Lua,
    pub current_package_path: String,
    /// Whether a tool has been loaded.
    pub tool_loaded: bool,
}

impl LuaEngine {
    /// A fresh sandboxed runtime with no tool loaded.
    pub fn new() -> (e: LuaEngine)
        ensures
            e.current_package_path@.len() == 0,
            !e.tool_loaded,
    {
        LuaEngine {
            lua: new_sandboxed_lua().unwrap(),
            current_package_path: String::new(),
            tool_loaded: false,
        }
    }

    /// Makes `tool` the active tool. Its script must evaluate to a table
    /// with a paint callback; otherwise the error is returned and the
    /// active tool, with its package, stays.
    pub fn load_tool(&mut self, tool: &LoadedTool) -> (r: Result<(), ToolLoadError>)
        ensures
            r is Ok ==> final(self).current_package_path@ == tool.package_path@
                && final(self).tool_loaded,
            r is Err ==> final(self).current_package_path@ == old(self).current_package_path@
                && final(self).tool_loaded == old(self).tool_loaded,
    {
        let table = match eval_table(&self.lua, tool.script_content.as_str()) {
            Ok(t) => t,
            Err(e) => return Err(ToolLoadError::Script(e)),
        };
        if !has_function(&table, ON_PAINT) {
            return Err(ToolLoadError::MissingPaintCallback);
        }
        match set_registry_table(&self.lua, CURRENT_TOOL, table) {
            Ok(()) => {
                self.current_package_path = tool.package_path.clone();
                self.tool_loaded = true;
                Ok(())
            },
            Err(e) => Err(ToolLoadError::Script(e)),
        }
    }

    /// The active tool's cursor; the ring when no tool is loaded or the tool
    /// declares no cursor as a string.
    pub fn get_current_cursor(&self) -> (r: CursorType)
        ensures
            !self.tool_loaded ==> r is SystemCircle,
            exists|field: Option<Seq<char>>| cursor_is(r, field, self.current_package_path@),
    {
        if !self.tool_loaded {
            assert(cursor_is(CursorType::SystemCircle, None, self.current_package_path@));
            return CursorType::SystemCircle;
        }
        let field = registry_string_field(&self.lua, CURRENT_TOOL, CURSOR_FIELD);
        let r = cursor_from_field(field, self.current_package_path.as_str());
        assert(cursor_is(
            r,
            match field {
                Some(c) => Some(c@),
                None => None,
            },
            self.current_package_path@,
        ));
        r
    }

    /// Runs the active tool's paint callback over one segment with the brush
    /// colour and returns the instructions it drew, in order. With no tool
    /// loaded there is nothing to run and nothing is drawn. A callback that
    /// fails draws nothing: its error is returned.
    pub fn process_input(
        &self,
        start_x: u32,
        start_y: u32,
        end_x: u32,
        end_y: u32,
        color: [u8; 3],
    ) -> (r: Result<Vec<PaintCommand>, String>)
        ensures
            !self.tool_loaded ==> (r matches Ok(cmds) && cmds@.len() == 0),
            r matches Ok(cmds) ==> exists|calls: Seq<DrawArgs>| cmds@ == commands_of_calls(calls),
    {
        if !self.tool_loaded {
            let none: Vec<PaintCommand> = Vec::new();
            assert(none@ =~= commands_of_calls(Seq::<DrawArgs>::empty()));
            return Ok(none);
        }
        let res = call_with_recorder(
            &self.lua,
            (CURRENT_TOOL, ON_PAINT, DRAW_PIXEL),
            start_x,
            start_y,
            end_x,
            end_y,
            color[0],
            color[1],
            color[2],
        );
        let r = commands_from_paint_result(&res);
        match res {
            Ok(calls) => {
                assert(r matches Ok(cmds) && cmds@ == commands_of_calls(calls@));
            },
            Err(_) => {},
        }
        r
    }
}

} // verus!
