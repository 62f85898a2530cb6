use vstd::prelude::*;

verus! {

/// What a package declares about itself in its manifest.
#[derive(Clone, Debug)]
pub struct PackageManifest {
    pub name: String,
    pub version: String,
    pub description: Option<String>,
}

/// A tool found in a package: its name, its script and the package's directory.
#[derive(Clone, Debug)]
pub struct LoadedTool {
    pub name: String,
    pub script_content: String,
    pub package_path: String,
}

/// The file name of a tool script: a non-empty stem followed by `.lua`.
pub open spec fn is_lua_file_name(name: Seq<char>) -> bool {
    name.len() > 4 && name.subrange(name.len() - 4, name.len() as int) == seq!['.', 'l', 'u', 'a']
}

/// The tool name of a script file: its file name without the `.lua` extension.
pub open spec fn tool_stem(name: Seq<char>) -> Seq<char> {
    name.subrange(0, name.len() - 4)
}

/// The tool name for a file of a package's tools directory, if the file is a
/// Lua script.
pub fn lua_tool_name(file_name: &str) -> (r: Option<String>)
    ensures
        r.is_some() == is_lua_file_name(file_name@),
        r matches Some(n) ==> n@ == tool_stem(file_name@),
{
    let n = file_name.unicode_len();
    if n > 4 && file_name.get_char(n - 4) == '.' && file_name.get_char(n - 3) == 'l'
        && file_name.get_char(n - 2) == 'u' && file_name.get_char(n - 1) == 'a' {
        assert(file_name@.subrange(n - 4, n as int) =~= seq!['.', 'l', 'u', 'a']);
        let stem = file_name.substring_char(0, n - 4);
        Some(stem.to_owned())
    } else {
        assert(n > 4 ==> file_name@.subrange(n - 4, n as int)[0] == file_name@[n - 4]);
        assert(n > 4 ==> file_name@.subrange(n - 4, n as int)[1] == file_name@[n - 3]);
        assert(n > 4 ==> file_name@.subrange(n - 4, n as int)[2] == file_name@[n - 2]);
        assert(n > 4 ==> file_name@.subrange(n - 4, n as int)[3] == file_name@[n - 1]);
        None
    }
}

/// The tools discovered in the installed packages, in discovery order.
pub struct PackageManager {
    pub tools: Vec<LoadedTool>,
}

impl PackageManager {
    pub fn new() -> (m: PackageManager)
        ensures
            m.tools@.len() == 0,
    {
        PackageManager { tools: Vec::new() }
    }

    /// Registers a file found under a package's tools directory. A Lua script
    /// becomes a tool named after its file stem; any other file is skipped.
    /// Returns whether a tool was added.
    pub fn add_script(&mut self, file_name: &str, script: String, package_path: String) -> (added:
        bool)
        ensures
            added == is_lua_file_name(file_name@),
            added ==> final(self).tools@.len() == old(self).tools@.len() + 1
                && final(self).tools@.subrange(0, old(self).tools@.len() as int)
                == old(self).tools@ && final(self).tools@.last().name@ == tool_stem(file_name@)
                && final(self).tools@.last().script_content == script
                && final(self).tools@.last().package_path == package_path,
            !added ==> final(self).tools@ == old(self).tools@,
    {
        match lua_tool_name(file_name) {
            Some(name) => {
                self.tools.push(LoadedTool { name, script_content: script, package_path });
                assert(self.tools@.subrange(0, old(self).tools@.len() as int) =~= old(self).tools@);
                true
            },
            None => false,
        }
    }
}

} // verus!
