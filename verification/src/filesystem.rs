//! The installation layout.
//!
//! Paths are modeled as strings with `/` separating components; the platform
//! is an explicit value, so every rule here — which directory holds what,
//! and how platform naming conventions shape file names — is stated and
//! checked for all three platforms at once. All paths derived from an
//! absolute root are absolute.

use vstd::prelude::*;
use vstd::string::StrSliceExecFns;
use vstd::string::StringExecFns;

verus! {

/// The platforms the layout distinguishes.
#[derive(Clone, Copy, PartialEq, Eq, Structural)]
pub enum Platform {
    Windows,
    Linux,
    Macos,
}

/// `base` with one more component appended; an empty base is the relative
/// root, so the component stands alone.
pub open spec fn spec_path_join(base: Seq<char>, component: Seq<char>) -> Seq<char> {
    if base.len() == 0 {
        component
    } else {
        base + seq!['/'] + component
    }
}

/// Append one component to a path.
pub fn path_join(base: &str, component: &str) -> (r: String)
    ensures
        r@ == spec_path_join(base@, component@),
{
    if base.unicode_len() == 0 {
        String::from_str(component)
    } else {
        let mut r = String::from_str(base);
        proof {
            reveal_strlit("/");
        }
        r.append("/");
        r.append(component);
        proof {
            assert(r@ =~= spec_path_join(base@, component@));
        }
        r
    }
}

/// Position of the last separator in a path, or `-1` when it has none.
pub open spec fn spec_last_slash(p: Seq<char>) -> int
    decreases p.len(),
{
    if p.len() == 0 {
        -1
    } else if p[p.len() - 1] == '/' {
        p.len() - 1
    } else {
        spec_last_slash(p.drop_last())
    }
}

/// The directory part of a path: everything before the last separator, `/`
/// when that separator is the leading root, and the empty relative root when
/// the path has no separator at all.
pub open spec fn spec_path_parent(p: Seq<char>) -> Seq<char> {
    let idx = spec_last_slash(p);
    if idx == -1 {
        Seq::<char>::empty()
    } else if idx == 0 {
        seq!['/']
    } else {
        p.subrange(0, idx)
    }
}

/// A separator-free suffix does not move the last separator.
proof fn lemma_last_slash_skip(p: Seq<char>, i: int)
    requires
        0 <= i <= p.len(),
        forall|k: int| i <= k < p.len() ==> p[k] != '/',
    ensures
        spec_last_slash(p) == spec_last_slash(p.subrange(0, i)),
    decreases p.len() - i,
{
    if i < p.len() {
        let shorter = p.drop_last();
        assert(shorter =~= p.subrange(0, p.len() - 1));
        lemma_last_slash_skip(shorter, i);
        assert(shorter.subrange(0, i) =~= p.subrange(0, i));
    } else {
        assert(p.subrange(0, i) =~= p);
    }
}

/// The directory part of a path.
pub fn path_parent(p: &str) -> (r: String)
    ensures
        r@ == spec_path_parent(p@),
{
    let len: usize = p.unicode_len();
    let mut idx: usize = 0;
    let mut found = false;
    let mut j: usize = 0;
    while j < len
        invariant
            j <= len,
            len == p@.len(),
            found ==> (idx < j && p@[idx as int] == '/' && (forall|k: int|
                idx < k < j ==> p@[k] != '/')),
            !found ==> (forall|k: int| 0 <= k < j ==> p@[k] != '/'),
        decreases len - j,
    {
        if p.get_char(j) == '/' {
            idx = j;
            found = true;
        }
        j = j + 1;
    }
    if !found {
        proof {
            lemma_last_slash_skip(p@, 0);
            assert(p@.subrange(0, 0) =~= Seq::<char>::empty());
        }
        String::new()
    } else {
        proof {
            lemma_last_slash_skip(p@, idx as int + 1);
            assert(p@.subrange(0, idx as int + 1).drop_last() =~= p@.subrange(0, idx as int));
            if idx as int == 0 {
                lemma_last_slash_skip(p@.subrange(0, 0), 0);
            }
        }
        if idx == 0 {
            proof {
                reveal_strlit("/");
            }
            let r = String::from_str("/");
            proof {
                assert(r@ =~= seq!['/']);
            }
            r
        } else {
            let r = String::from_str(p.substring_char(0, idx));
            r
        }
    }
}

/// The platform's executable file name: Windows appends `.exe`.
pub open spec fn spec_exec_fname(platform: Platform, name: Seq<char>) -> Seq<char> {
    if platform is Windows {
        name + ".exe"@
    } else {
        name
    }
}

/// The file name of an executable on the given platform.
pub fn exec_fname(platform: Platform, name: &str) -> (r: String)
    ensures
        r@ == spec_exec_fname(platform, name@),
{
    match platform {
        Platform::Windows => {
            let mut r = String::from_str(name);
            r.append(".exe");
            r
        },
        _ => String::from_str(name),
    }
}

/// The platform's dynamic library file name: `name.dll` on Windows,
/// `libname.so` on Linux, `libname.dylib` on macOS.
pub open spec fn spec_dynlib_fname(platform: Platform, name: Seq<char>) -> Seq<char> {
    match platform {
        Platform::Windows => name + ".dll"@,
        Platform::Linux => "lib"@ + name + ".so"@,
        Platform::Macos => "lib"@ + name + ".dylib"@,
    }
}

/// The file name of a dynamic library on the given platform.
pub fn dynlib_fname(platform: Platform, name: &str) -> (r: String)
    ensures
        r@ == spec_dynlib_fname(platform, name@),
{
    match platform {
        Platform::Windows => {
            let mut r = String::from_str(name);
            r.append(".dll");
            r
        },
        Platform::Linux => {
            let mut r = String::from_str("lib");
            r.append(name);
            r.append(".so");
            r
        },
        Platform::Macos => {
            let mut r = String::from_str("lib");
            r.append(name);
            r.append(".dylib");
            r
        },
    }
}

/// The platform's name as it appears in build artifact directories.
pub open spec fn spec_os_name(platform: Platform) -> Seq<char> {
    match platform {
        Platform::Windows => "windows"@,
        Platform::Linux => "linux"@,
        Platform::Macos => "macos"@,
    }
}

/// The platform name used in build artifact directories.
fn os_name(platform: Platform) -> (r: &'static str)
    ensures
        r@ == spec_os_name(platform),
{
    match platform {
        Platform::Windows => "windows",
        Platform::Linux => "linux",
        Platform::Macos => "macos",
    }
}

/// The directory for vendored dependency sources under the workspace.
pub fn deps_dir(workspace_dir: &str) -> (r: String)
    ensures
        r@ == spec_path_join(workspace_dir@, "deps"@),
{
    path_join(workspace_dir, "deps")
}

/// The directory for build outputs under the workspace.
pub fn build_dir(workspace_dir: &str) -> (r: String)
    ensures
        r@ == spec_path_join(workspace_dir@, "build"@),
{
    path_join(workspace_dir, "build")
}

/// The directory holding the packaged server for the given platform.
pub fn server_build_dir(platform: Platform, workspace_dir: &str) -> (r: String)
    ensures
        r@ == spec_path_join(
            spec_path_join(workspace_dir@, "build"@),
            "vors_server_"@ + spec_os_name(platform),
        ),
{
    let parent = build_dir(workspace_dir);
    let mut name = String::from_str("vors_server_");
    name.append(os_name(platform));
    path_join(parent.as_str(), name.as_str())
}

/// The directory holding the packaged client for the given platform.
pub fn client_build_dir(platform: Platform, workspace_dir: &str) -> (r: String)
    ensures
        r@ == spec_path_join(
            spec_path_join(workspace_dir@, "build"@),
            "vors_client_"@ + spec_os_name(platform),
        ),
{
    let parent = build_dir(workspace_dir);
    let mut name = String::from_str("vors_client_");
    name.append(os_name(platform));
    path_join(parent.as_str(), name.as_str())
}

/// Layout of an installation. All paths are absolute when the roots they
/// were derived from are.
pub struct Layout {
    pub platform: Platform,
    /// Directory containing the launcher executable.
    pub executables_dir: String,
    /// Directory for the Vulkan layer library (Linux only).
    pub libraries_dir: String,
    /// Parent directory of static resources such as the dashboard and the
    /// presets.
    pub static_resources_dir: String,
    /// Directory for configuration files such as the session.
    pub config_dir: String,
    /// Directory for logs.
    pub log_dir: String,
    /// Directory for driver resources.
    pub resources_root_dir: String,
}

/// What each directory of a freshly derived layout is: on Linux the
/// filesystem-hierarchy layout under the root, with configuration under the
/// user's configuration directory and logs in the home directory; elsewhere
/// everything beside the executable.
pub open spec fn spec_layout(
    l: Layout,
    platform: Platform,
    root: Seq<char>,
    config_base: Seq<char>,
    home: Seq<char>,
) -> bool {
    &&& l.platform == platform
    &&& (if platform is Linux {
        &&& l.executables_dir@ == spec_path_join(root, "bin"@)
        &&& l.libraries_dir@ == spec_path_join(root, "lib64"@)
        &&& l.static_resources_dir@ == spec_path_join(root, "share/vors"@)
        &&& l.config_dir@ == spec_path_join(config_base, "vors"@)
        &&& l.log_dir@ == home
        &&& l.resources_root_dir@ == spec_path_join(root, "lib64/vors"@)
    } else {
        &&& l.executables_dir@ == root
        &&& l.libraries_dir@ == root
        &&& l.static_resources_dir@ == root
        &&& l.config_dir@ == root
        &&& l.log_dir@ == root
        &&& l.resources_root_dir@ == root
    })
}

impl Layout {
    /// Derive the layout from the installation root. On Linux,
    /// `config_base` names the user's configuration directory and `home`
    /// the home directory; other platforms keep everything under the root.
    pub fn new(platform: Platform, root: &str, config_base: &str, home: &str) -> (r: Layout)
        ensures
            spec_layout(r, platform, root@, config_base@, home@),
    {
        match platform {
            Platform::Linux => Layout {
                platform,
                executables_dir: path_join(root, "bin"),
                libraries_dir: path_join(root, "lib64"),
                static_resources_dir: path_join(root, "share/vors"),
                config_dir: path_join(config_base, "vors"),
                log_dir: String::from_str(home),
                resources_root_dir: path_join(root, "lib64/vors"),
            },
            _ => Layout {
                platform,
                executables_dir: String::from_str(root),
                libraries_dir: String::from_str(root),
                static_resources_dir: String::from_str(root),
                config_dir: String::from_str(root),
                log_dir: String::from_str(root),
                resources_root_dir: String::from_str(root),
            },
        }
    }

    /// Path of the launcher executable.
    pub fn launcher_exe(&self) -> (r: String)
        ensures
            self.platform is Windows ==> r@ == spec_path_join(
                self.executables_dir@,
                "VORS Launcher.exe"@,
            ),
            !(self.platform is Windows) ==> r@ == spec_path_join(
                self.executables_dir@,
                "vors_launcher"@,
            ),
    {
        match self.platform {
            Platform::Windows => path_join(self.executables_dir.as_str(), "VORS Launcher.exe"),
            _ => path_join(self.executables_dir.as_str(), "vors_launcher"),
        }
    }

    /// Path of the dashboard executable.
    pub fn dashboard_exe(&self) -> (r: String)
        ensures
            self.platform is Windows ==> r@ == spec_path_join(
                self.executables_dir@,
                "VORS Dashboard.exe"@,
            ),
            !(self.platform is Windows) ==> r@ == spec_path_join(
                self.executables_dir@,
                "vors_dashboard"@,
            ),
    {
        match self.platform {
            Platform::Windows => path_join(self.executables_dir.as_str(), "VORS Dashboard.exe"),
            _ => path_join(self.executables_dir.as_str(), "vors_dashboard"),
        }
    }

    /// Directory of the dashboard's static files.
    pub fn dashboard_dir(&self) -> (r: String)
        ensures
            r@ == spec_path_join(self.static_resources_dir@, "dashboard"@),
    {
        path_join(self.static_resources_dir.as_str(), "dashboard")
    }

    /// Directory of the settings presets.
    pub fn presets_dir(&self) -> (r: String)
        ensures
            r@ == spec_path_join(self.static_resources_dir@, "presets"@),
    {
        path_join(self.static_resources_dir.as_str(), "presets")
    }

    /// Path of the session file.
    pub fn session(&self) -> (r: String)
        ensures
            r@ == spec_path_join(self.config_dir@, "session.json"@),
    {
        path_join(self.config_dir.as_str(), "session.json")
    }

    /// Path of the session log.
    pub fn session_log(&self) -> (r: String)
        ensures
            self.platform is Linux ==> r@ == spec_path_join(
                self.log_dir@,
                "vors_session_log.txt"@,
            ),
            !(self.platform is Linux) ==> r@ == spec_path_join(self.log_dir@, "session_log.txt"@),
    {
        match self.platform {
            Platform::Linux => path_join(self.log_dir.as_str(), "vors_session_log.txt"),
            _ => path_join(self.log_dir.as_str(), "session_log.txt"),
        }
    }

    /// Path of the crash log.
    pub fn crash_log(&self) -> (r: String)
        ensures
            r@ == spec_path_join(self.log_dir@, "crash_log.txt"@),
    {
        path_join(self.log_dir.as_str(), "crash_log.txt")
    }

    /// The platform subdirectory that holds the driver binaries.
    pub open spec fn spec_platform_bin_name(&self) -> Seq<char> {
        match self.platform {
            Platform::Windows => "win64"@,
            Platform::Linux => "linux64"@,
            Platform::Macos => "macos"@,
        }
    }

    /// Directory of the driver binaries for this platform.
    pub fn resources_lib_dir(&self) -> (r: String)
        ensures
            r@ == spec_path_join(
                spec_path_join(self.resources_root_dir@, "bin"@),
                self.spec_platform_bin_name(),
            ),
    {
        let parent = path_join(self.resources_root_dir.as_str(), "bin");
        match self.platform {
            Platform::Windows => path_join(parent.as_str(), "win64"),
            Platform::Linux => path_join(parent.as_str(), "linux64"),
            Platform::Macos => path_join(parent.as_str(), "macos"),
        }
    }

    /// Path of the driver library loaded by the runtime.
    pub fn resources_lib(&self) -> (r: String)
        ensures
            r@ == spec_path_join(
                spec_path_join(
                    spec_path_join(self.resources_root_dir@, "bin"@),
                    self.spec_platform_bin_name(),
                ),
                "driver_vors_server."@ + spec_dynlib_ext(self.platform),
            ),
    {
        let parent = self.resources_lib_dir();
        let mut name = String::from_str("driver_vors_server.");
        name.append(dynlib_ext(self.platform));
        path_join(parent.as_str(), name.as_str())
    }
}

/// The platform's dynamic library extension.
pub open spec fn spec_dynlib_ext(platform: Platform) -> Seq<char> {
    match platform {
        Platform::Windows => "dll"@,
        Platform::Linux => "so"@,
        Platform::Macos => "dylib"@,
    }
}

/// The dynamic library extension on the given platform.
fn dynlib_ext(platform: Platform) -> (r: &'static str)
    ensures
        r@ == spec_dynlib_ext(platform),
{
    match platform {
        Platform::Windows => "dll",
        Platform::Linux => "so",
        Platform::Macos => "dylib",
    }
}

/// Derive the layout from the path of the launcher executable, file name
/// included: on Linux a filesystem-hierarchy installation is expected, so
/// the root is two levels up; elsewhere it is the executable's directory.
pub fn filesystem_layout_from_launcher_exe(
    platform: Platform,
    path: &str,
    config_base: &str,
    home: &str,
) -> (r: Layout)
    ensures
        platform is Linux ==> spec_layout(
            r,
            platform,
            spec_path_parent(spec_path_parent(path@)),
            config_base@,
            home@,
        ),
        !(platform is Linux) ==> spec_layout(
            r,
            platform,
            spec_path_parent(path@),
            config_base@,
            home@,
        ),
{
    let root = match platform {
        Platform::Linux => {
            let bin_dir = path_parent(path);
            path_parent(bin_dir.as_str())
        },
        _ => path_parent(path),
    };
    Layout::new(platform, root.as_str(), config_base, home)
}

/// Derive the layout from the driver's root directory: on Linux a
/// filesystem-hierarchy installation is expected, so the root is two levels
/// up; elsewhere the directory itself is the root.
pub fn filesystem_layout_from_openvr_driver_root_dir(
    platform: Platform,
    dir: &str,
    config_base: &str,
    home: &str,
) -> (r: Layout)
    ensures
        platform is Linux ==> spec_layout(
            r,
            platform,
            spec_path_parent(spec_path_parent(dir@)),
            config_base@,
            home@,
        ),
        !(platform is Linux) ==> spec_layout(r, platform, dir@, config_base@, home@),
{
    match platform {
        Platform::Linux => {
            let up = path_parent(dir);
            let root = path_parent(up.as_str());
            Layout::new(platform, root.as_str(), config_base, home)
        },
        _ => Layout::new(platform, dir, config_base, home),
    }
}

/// The layout to fall back on when the current path cannot be determined:
/// derived from an empty root, so only the directories that disregard the
/// root — such as the configuration directory on Linux — are meaningful.
pub fn filesystem_layout_invalid(platform: Platform, config_base: &str, home: &str) -> (r:
    Layout)
    ensures
        spec_layout(r, platform, Seq::<char>::empty(), config_base@, home@),
{
    let root = String::new();
    Layout::new(platform, root.as_str(), config_base, home)
}

} // verus!
