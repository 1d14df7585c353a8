use vors_core::filesystem::build_dir;
use vors_core::filesystem::client_build_dir;
use vors_core::filesystem::deps_dir;
use vors_core::filesystem::dynlib_fname;
use vors_core::filesystem::exec_fname;
use vors_core::filesystem::filesystem_layout_from_launcher_exe;
use vors_core::filesystem::filesystem_layout_from_openvr_driver_root_dir;
use vors_core::filesystem::filesystem_layout_invalid;
use vors_core::filesystem::path_join;
use vors_core::filesystem::path_parent;
use vors_core::filesystem::server_build_dir;
use vors_core::filesystem::Layout;
use vors_core::filesystem::Platform;

#[test]
fn executable_and_library_names_follow_the_platform() {
    assert_eq!(exec_fname(Platform::Windows, "vors_installer"), "vors_installer.exe");
    assert_eq!(exec_fname(Platform::Linux, "vors_installer"), "vors_installer");
    assert_eq!(exec_fname(Platform::Macos, "vors_installer"), "vors_installer");
    assert_eq!(dynlib_fname(Platform::Windows, "vors"), "vors.dll");
    assert_eq!(dynlib_fname(Platform::Linux, "vors"), "libvors.so");
    assert_eq!(dynlib_fname(Platform::Macos, "vors"), "libvors.dylib");
}

#[test]
fn workspace_directories() {
    assert_eq!(deps_dir("/w"), "/w/deps");
    assert_eq!(build_dir("/w"), "/w/build");
    assert_eq!(server_build_dir(Platform::Linux, "/w"), "/w/build/vors_server_linux");
    assert_eq!(server_build_dir(Platform::Windows, "/w"), "/w/build/vors_server_windows");
    assert_eq!(client_build_dir(Platform::Macos, "/w"), "/w/build/vors_client_macos");
}

#[test]
fn path_join_and_parent() {
    assert_eq!(path_join("", "bin"), "bin");
    assert_eq!(path_join("/usr", "bin"), "/usr/bin");
    assert_eq!(path_parent("/usr/bin/vors_launcher"), "/usr/bin");
    assert_eq!(path_parent("/usr"), "/");
    assert_eq!(path_parent("vors"), "");
    assert_eq!(path_parent(""), "");
}

#[test]
fn linux_layout_follows_the_filesystem_hierarchy() {
    let l = Layout::new(Platform::Linux, "/usr", "/home/u/.config", "/home/u");
    assert_eq!(l.executables_dir, "/usr/bin");
    assert_eq!(l.libraries_dir, "/usr/lib64");
    assert_eq!(l.static_resources_dir, "/usr/share/vors");
    assert_eq!(l.config_dir, "/home/u/.config/vors");
    assert_eq!(l.log_dir, "/home/u");
    assert_eq!(l.resources_root_dir, "/usr/lib64/vors");
    assert_eq!(l.launcher_exe(), "/usr/bin/vors_launcher");
    assert_eq!(l.dashboard_exe(), "/usr/bin/vors_dashboard");
    assert_eq!(l.dashboard_dir(), "/usr/share/vors/dashboard");
    assert_eq!(l.presets_dir(), "/usr/share/vors/presets");
    assert_eq!(l.session(), "/home/u/.config/vors/session.json");
    assert_eq!(l.session_log(), "/home/u/vors_session_log.txt");
    assert_eq!(l.crash_log(), "/home/u/crash_log.txt");
    assert_eq!(l.resources_lib_dir(), "/usr/lib64/vors/bin/linux64");
    assert_eq!(l.resources_lib(), "/usr/lib64/vors/bin/linux64/driver_vors_server.so");
}

#[test]
fn portable_layout_keeps_everything_beside_the_executable() {
    let l = Layout::new(Platform::Windows, "C:/VORS", "", "");
    assert_eq!(l.executables_dir, "C:/VORS");
    assert_eq!(l.config_dir, "C:/VORS");
    assert_eq!(l.launcher_exe(), "C:/VORS/VORS Launcher.exe");
    assert_eq!(l.dashboard_exe(), "C:/VORS/VORS Dashboard.exe");
    assert_eq!(l.session_log(), "C:/VORS/session_log.txt");
    assert_eq!(l.resources_lib_dir(), "C:/VORS/bin/win64");
    assert_eq!(l.resources_lib(), "C:/VORS/bin/win64/driver_vors_server.dll");
}

#[test]
fn layout_from_launcher_exe_path() {
    let l = filesystem_layout_from_launcher_exe(
        Platform::Linux,
        "/usr/bin/vors_launcher",
        "/home/u/.config",
        "/home/u",
    );
    assert_eq!(l.executables_dir, "/usr/bin");
    let l = filesystem_layout_from_launcher_exe(
        Platform::Windows,
        "C:/VORS/VORS Launcher.exe",
        "",
        "",
    );
    assert_eq!(l.executables_dir, "C:/VORS");
}

#[test]
fn layout_from_driver_root_dir() {
    let l = filesystem_layout_from_openvr_driver_root_dir(
        Platform::Linux,
        "/usr/lib64/vors",
        "/home/u/.config",
        "/home/u",
    );
    assert_eq!(l.resources_root_dir, "/usr/lib64/vors");
    let l = filesystem_layout_from_openvr_driver_root_dir(Platform::Macos, "/opt/vors", "", "");
    assert_eq!(l.executables_dir, "/opt/vors");
}

#[test]
fn invalid_layout_keeps_only_root_independent_paths() {
    let l = filesystem_layout_invalid(Platform::Linux, "/home/u/.config", "/home/u");
    assert_eq!(l.config_dir, "/home/u/.config/vors");
    assert_eq!(l.executables_dir, "bin");
    let l = filesystem_layout_invalid(Platform::Windows, "", "");
    assert_eq!(l.executables_dir, "");
}
