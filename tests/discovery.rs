use pscan::discovery::{filter_processes, filter_windows, get_all_windows, is_listed_window, process_name_lower};
use pscan::error::AppError;
use pscan::features::WindowsGetFeature;
use pscan::output::get_process_name;
use pscan::platform::{find_windows, get_all_windows_with_size, PlatformData, UnixWindowData, WindowHandle, WindowsWindowData};
use pscan::sorting::{PositionSort, SortOrder};
use pscan::types::{ProcessInfo, WindowInfo, WindowOutput, WindowRect};

fn s(v: &str) -> Option<String> {
    Some(v.to_string())
}

fn window(pid: u32, title: &str, x: i32) -> WindowInfo {
    WindowInfo { pid, title: title.to_string(), rect: WindowRect::new(x, 0, 10, 10) }
}

fn names() -> Vec<(u32, String)> {
    vec![(10, "Firefox".to_string()), (20, "Terminal".to_string()), (10, "other".to_string())]
}

fn sample() -> Vec<WindowInfo> {
    vec![window(10, "Mozilla Firefox", 5), window(20, "bash - Terminal", 1), window(30, "Notes", 3)]
}

#[test]
fn filters_combine_with_and() {
    let all = filter_windows(sample(), &s("10"), &s("fire"), &s("MOZILLA"), &names());
    assert_eq!(all.len(), 1);
    assert_eq!(all[0].pid, 10);
    assert!(filter_windows(sample(), &s("11"), &s("fire"), &s("MOZILLA"), &names()).is_empty());
    assert!(filter_windows(sample(), &s("10"), &s("term"), &s("MOZILLA"), &names()).is_empty());
    assert!(filter_windows(sample(), &s("10"), &s("fire"), &s("bash"), &names()).is_empty());
}

#[test]
fn no_filter_keeps_everything_in_order() {
    let all = filter_windows(sample(), &None, &None, &None, &names());
    let pids: Vec<u32> = all.iter().map(|w| w.pid).collect();
    assert_eq!(pids, vec![10, 20, 30]);
}

#[test]
fn name_filter_ignores_case_and_unknown_processes() {
    let r = filter_windows(sample(), &None, &s("TERM"), &None, &names());
    assert_eq!(r.len(), 1);
    assert_eq!(r[0].pid, 20);
    let r = filter_windows(sample(), &None, &s(""), &None, &names());
    assert_eq!(r.len(), 3);
    assert_eq!(process_name_lower(&names(), 10), vec!['f', 'i', 'r', 'e', 'f', 'o', 'x']);
    assert!(process_name_lower(&names(), 99).is_empty());
}

#[test]
fn pid_filter_compares_text() {
    assert!(filter_windows(sample(), &s("010"), &None, &None, &names()).is_empty());
    assert_eq!(filter_windows(sample(), &s("30"), &None, &None, &names()).len(), 1);
}

#[test]
fn windows_get_filters_then_sorts() {
    let feature = WindowsGetFeature::new();
    let by_x = PositionSort { x_order: SortOrder::Ascending, y_order: SortOrder::Unordered };
    let r = feature.handle_windows_get(sample(), &names(), &None, &None, &None, SortOrder::Unordered, by_x).unwrap();
    let pids: Vec<u32> = r.iter().map(|w| w.pid).collect();
    assert_eq!(pids, vec![20, 30, 10]);
    let r = feature.handle_windows_get(sample(), &names(), &s("99"), &None, &None, SortOrder::Unordered, by_x);
    assert!(matches!(r, Err(AppError::NoMatchingWindows)));
}

#[test]
fn handles_filter_like_windows() {
    let handles = vec![
        WindowHandle::new(10, "Mozilla Firefox".to_string(), PlatformData::Unix(UnixWindowData::new())),
        WindowHandle::new(20, "bash".to_string(), PlatformData::Unix(UnixWindowData::new())),
    ];
    let r = filter_windows(handles, &None, &None, &s("firefox"), &names());
    assert_eq!(r.len(), 1);
    assert_eq!(r[0].pid, 10);
}

#[test]
fn this_platform_enumerates_nothing() {
    assert!(get_all_windows_with_size().is_empty());
    assert!(get_all_windows().is_empty());
    assert!(find_windows(&None, &None, &None, &names()).is_empty());
}

#[test]
fn process_filters() {
    let processes = vec![
        ProcessInfo { pid: "1".to_string(), name: "Init".to_string(), title: "boot".to_string(), memory_usage: 5, has_window: false },
        ProcessInfo { pid: "42".to_string(), name: "Editor".to_string(), title: "Notes".to_string(), memory_usage: 9, has_window: true },
    ];
    let r = filter_processes(&processes, &None, &s("EDIT"), &None, false, false);
    assert_eq!(r.len(), 1);
    assert_eq!(r[0].pid, "42");
    assert_eq!(filter_processes(&processes, &None, &None, &None, true, false).len(), 1);
    assert_eq!(filter_processes(&processes, &None, &None, &None, false, true)[0].pid, "1");
    assert!(filter_processes(&processes, &s("4"), &None, &None, false, false).is_empty());
    assert_eq!(filter_processes(&processes, &None, &None, &s("note"), false, false).len(), 1);
}

#[test]
fn display_names_and_rows() {
    assert_eq!(get_process_name(&names(), 10), "Firefox");
    assert_eq!(get_process_name(&names(), 77), "Unknown");
    let rect = WindowRect::new(-5, 20, 800, 600);
    assert_eq!(rect.to_string(), "800x600+-5+20");
    let row = WindowOutput::from_window(&window(123, "T", 7), "proc".to_string());
    assert_eq!(row.pid, "123");
    assert_eq!(row.dimensions, "10x10+7+0");
    assert_eq!(row.name, "proc");
}

#[test]
fn native_helpers() {
    assert_eq!(WindowsWindowData::new(77).hwnd, 77);
    assert_eq!(WindowsWindowData::alpha_for_opacity(100), 255);
    assert_eq!(WindowsWindowData::alpha_for_opacity(50), 127);
    assert_eq!(WindowsWindowData::alpha_for_opacity(0), 0);
    assert_eq!(WindowsWindowData::resize_origin(3, 4, 800, 600, false, true, 1920, 1080), (560, 240));
    assert_eq!(WindowsWindowData::resize_origin(3, 4, 800, 600, true, true, 1920, 1080), (3, 4));
    assert_eq!(WindowsWindowData::resize_origin(3, 4, 801, 600, false, true, 100, 1080), (-350, 240));
    assert_eq!(WindowsWindowData::resize_origin(3, 4, 800, 600, false, false, 1920, 1080), (3, 4));
}

#[test]
fn error_messages() {
    assert_eq!(AppError::NoMatchingWindows.message(), "No matching windows found");
    assert_eq!(
        AppError::MultipleWindows(12).message(),
        "Multiple windows found (12). Use --all to modify all matching windows"
    );
    assert_eq!(AppError::NoWindowsModified.message(), "No windows were modified");
    assert_eq!(AppError::invalid_parameter("w").message(), "Invalid parameter: w");
    assert_eq!(AppError::parse("p").message(), "Parse error: p");
    assert_eq!(AppError::platform("q").message(), "Platform error: q");
    assert_eq!(AppError::window_operation("r").message(), "Window operation failed: r");
    assert_eq!(AppError::feature_not_supported("s").message(), "Feature not supported: s");
    let io = AppError::Io(std::io::Error::new(std::io::ErrorKind::Other, "disk"));
    assert_eq!(io.message(), "IO error: disk");
}

#[test]
fn blank_titles_and_shell_windows_are_not_listed() {
    assert!(is_listed_window("Editor", "Notepad"));
    assert!(!is_listed_window("   ", "Notepad"));
    assert!(!is_listed_window("", "Notepad"));
    assert!(!is_listed_window("Program Manager", "Progman"));
    assert!(!is_listed_window("Desktop", "WorkerW"));
    assert!(!is_listed_window("Taskbar", "Shell_TrayWnd"));
    assert!(is_listed_window("Taskbar", "shell_traywnd"));
}
