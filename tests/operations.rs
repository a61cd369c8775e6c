use pscan::batch::{select_targets, tally, Attempt};
use pscan::error::AppError;
use pscan::features::{
    get_enabled_features, AlwaysOnTopFeature, PositionSetFeature, ResizeFeature, TransparencyFeature,
    WindowOperation, WindowOperationsFeature,
};
use pscan::output::truncate_string;
use pscan::platform::{PlatformData, UnixWindowData, WindowHandle};
use pscan::sorting::{PositionSort, SortOrder};

fn handle(pid: u32, title: &str) -> WindowHandle {
    WindowHandle::new(pid, title.to_string(), PlatformData::Unix(UnixWindowData::new()))
}

fn s(v: &str) -> Option<String> {
    Some(v.to_string())
}

fn attempt(index: usize, ok: bool) -> Attempt<()> {
    Attempt {
        index,
        pid: index as u32,
        title: String::new(),
        result: if ok { Ok(()) } else { Err(AppError::window_operation("gone")) },
    }
}

fn no_sort() -> PositionSort {
    PositionSort { x_order: SortOrder::Unordered, y_order: SortOrder::Unordered }
}

#[test]
fn test_truncate_string() {
    assert_eq!(truncate_string("hello", 5), "hello");
    assert_eq!(truncate_string("hello world", 8), "hello...");
    assert_eq!(truncate_string("hi", 10), "hi");
}

#[test]
fn truncate_counts_wide_characters() {
    assert_eq!(truncate_string("日本語のタイトル", 6), "日...");
    assert_eq!(truncate_string("abcdef", 2), "...");
}

#[test]
fn test_window_operation_enum() {
    let minimize = WindowOperation::Minimize;
    let maximize = WindowOperation::Maximize;
    let restore = WindowOperation::Restore;

    assert_eq!(minimize.as_str(), "minimize");
    assert_eq!(maximize.as_str(), "maximize");
    assert_eq!(restore.as_str(), "restore");

    assert_eq!(minimize.past_tense(), "minimized");
    assert_eq!(maximize.past_tense(), "maximized");
    assert_eq!(restore.past_tense(), "restored");

    assert_eq!(minimize.capitalized(), "Minimized");
    assert_eq!(maximize.capitalized(), "Maximized");
    assert_eq!(restore.capitalized(), "Restored");
}

#[test]
fn test_window_operation_clone() {
    let op1 = WindowOperation::Minimize;
    let op2 = op1;
    let op3 = op1.clone();
    assert_eq!(op1.as_str(), op2.as_str());
    assert_eq!(op1.as_str(), op3.as_str());
}

#[test]
fn test_window_operation_debug() {
    let minimize = WindowOperation::Minimize;
    let maximize = WindowOperation::Maximize;
    let restore = WindowOperation::Restore;
    let _ = format!("{:?}", minimize);
    let _ = format!("{:?}", maximize);
    let _ = format!("{:?}", restore);
}

#[test]
fn test_window_operation_copy() {
    let op1 = WindowOperation::Minimize;
    let op2 = op1;
    assert_eq!(op1.as_str(), op2.as_str());
}

#[test]
fn batch_with_two_successes_reports_two() {
    let attempts = vec![attempt(0, true), attempt(1, false), attempt(2, true)];
    assert_eq!(tally(&attempts).unwrap(), 2);
}

#[test]
fn batch_without_success_is_no_windows_modified() {
    let attempts = vec![attempt(0, false), attempt(1, false)];
    assert!(matches!(tally(&attempts), Err(AppError::NoWindowsModified)));
    let none: Vec<Attempt<()>> = Vec::new();
    assert!(matches!(tally(&none), Err(AppError::NoWindowsModified)));
}

#[test]
fn target_selection() {
    assert_eq!(select_targets(4, &vec![], false), vec![0]);
    assert_eq!(select_targets(4, &vec![], true), vec![0, 1, 2, 3]);
    assert_eq!(select_targets(4, &vec![3, 1], false), vec![0, 2]);
    assert_eq!(select_targets(0, &vec![], true), Vec::<usize>::new());
}

#[test]
fn operations_on_unix_handles_are_unsupported() {
    let feature = WindowOperationsFeature::new();
    let windows = vec![handle(10, "b"), handle(20, "a")];
    let attempts = feature
        .handle_window_operation(windows, true, None, WindowOperation::Minimize, no_sort())
        .unwrap();
    assert_eq!(attempts.len(), 2);
    assert_eq!(attempts[0].pid, 10);
    assert_eq!(attempts[1].title, "a");
    for a in attempts.iter() {
        assert!(matches!(&a.result, Err(AppError::FeatureNotSupported(m)) if m == "Window operations"));
    }
    assert!(matches!(tally(&attempts), Err(AppError::NoWindowsModified)));
}

#[test]
fn operation_targets_follow_sorted_indices() {
    let feature = WindowOperationsFeature::new();
    let windows = vec![handle(1, "c"), handle(2, "a"), handle(3, "b")];
    let by_title = PositionSort { x_order: SortOrder::Ascending, y_order: SortOrder::Unordered };
    let attempts = feature
        .handle_window_operation(windows, false, s("2,3"), WindowOperation::Restore, by_title)
        .unwrap();
    let pids: Vec<u32> = attempts.iter().map(|a| a.pid).collect();
    assert_eq!(pids, vec![3, 1]);
    let first_only = feature
        .handle_window_operation(vec![handle(1, "c"), handle(2, "a")], false, None, WindowOperation::Maximize, no_sort())
        .unwrap();
    assert_eq!(first_only.len(), 1);
    assert_eq!(first_only[0].pid, 1);
}

#[test]
fn empty_discovery_is_no_matching_windows() {
    let r = WindowOperationsFeature::new().handle_window_operation(Vec::new(), true, None, WindowOperation::Minimize, no_sort());
    assert!(matches!(r, Err(AppError::NoMatchingWindows)));
    let r = TransparencyFeature::new().handle_transparency(Vec::new(), true, None, 50, false, no_sort());
    assert!(matches!(r, Err(AppError::NoMatchingWindows)));
}

#[test]
fn always_on_top_refuses_several_windows_without_all() {
    let feature = AlwaysOnTopFeature::new();
    let r = feature.handle_always_on_top(vec![handle(1, "a"), handle(2, "b")], false, false, false);
    assert!(matches!(r, Err(AppError::MultipleWindows(2))));
    let r = feature.handle_always_on_top(Vec::new(), true, false, false);
    assert!(matches!(r, Err(AppError::NoMatchingWindows)));
    let attempts = feature.handle_always_on_top(vec![handle(1, "a"), handle(2, "b")], true, true, false).unwrap();
    assert_eq!(attempts.len(), 2);
    assert!(matches!(&attempts[0].result, Err(AppError::FeatureNotSupported(m)) if m == "Window always on top detection"));
    assert_eq!(AlwaysOnTopFeature::target_state(false, true), Some(false));
    assert_eq!(AlwaysOnTopFeature::target_state(true, false), None);
    assert_eq!(AlwaysOnTopFeature::target_state(false, false), Some(true));
}

#[test]
fn transparency_is_unsupported_here() {
    let attempts = TransparencyFeature::new()
        .handle_transparency(vec![handle(1, "a")], false, None, 40, true, no_sort())
        .unwrap();
    assert!(matches!(&attempts[0].result, Err(AppError::FeatureNotSupported(m)) if m == "Window transparency operations"));
}

#[test]
fn resize_size_parsing() {
    assert_eq!(ResizeFeature::parse_size("800x600").unwrap(), (800, 600));
    assert_eq!(ResizeFeature::parse_size(" 800 x 600 ").unwrap(), (800, 600));
    assert!(matches!(ResizeFeature::parse_size("800"), Err(AppError::InvalidParameter(_))));
    assert!(matches!(ResizeFeature::parse_size("axb"), Err(AppError::InvalidParameter(_))));
    assert!(matches!(ResizeFeature::parse_size("800x600x1"), Err(AppError::InvalidParameter(_))));
    assert!(matches!(ResizeFeature::parse_size("0x600"), Err(AppError::InvalidParameter(_))));
    assert!(matches!(ResizeFeature::target_size(&None, &s("5"), &None), Err(AppError::InvalidParameter(_))));
    assert!(matches!(ResizeFeature::target_size(&s("w"), &s("5"), &None), Err(AppError::InvalidParameter(_))));
    assert!(matches!(ResizeFeature::target_size(&s("5"), &None, &None), Err(AppError::InvalidParameter(_))));
    assert!(matches!(ResizeFeature::target_size(&s("5"), &s("-5"), &None), Err(AppError::InvalidParameter(_))));
    assert_eq!(ResizeFeature::target_size(&s("5"), &s("6"), &s("7x8")).unwrap(), (7, 8));
    assert_eq!(ResizeFeature::target_size(&s("5"), &s("6"), &None).unwrap(), (5, 6));
}

#[test]
fn resize_checks_size_before_windows() {
    let r = ResizeFeature::new().handle_resize(Vec::new(), true, None, None, None, s("bad"), false, false, no_sort());
    assert!(matches!(r, Err(AppError::InvalidParameter(_))));
    let r = ResizeFeature::new().handle_resize(Vec::new(), true, None, None, None, s("3x4"), false, false, no_sort());
    assert!(matches!(r, Err(AppError::NoMatchingWindows)));
    let attempts = ResizeFeature::new()
        .handle_resize(vec![handle(1, "a")], true, None, None, None, s("3x4"), true, false, no_sort())
        .unwrap();
    assert!(matches!(&attempts[0].result, Err(AppError::FeatureNotSupported(m)) if m == "Window resizing"));
}

#[test]
fn position_plan_pairs_windows_with_positions() {
    let plan = PositionSetFeature::plan_positions(3, true, &None, &None, &None, &s("0"), &s("0"), &s("100"), &s("50")).unwrap();
    assert_eq!(plan, vec![(0, (0, 0)), (1, (100, 50)), (2, (200, 100))]);
    let plan = PositionSetFeature::plan_positions(3, false, &None, &s("3,1"), &s("1,1,2,2,3,3"), &None, &None, &None, &None).unwrap();
    assert_eq!(plan, vec![(0, (1, 1)), (2, (3, 3))]);
    let r = PositionSetFeature::plan_positions(2, true, &s("1,1"), &None, &s("1,1,2,2"), &None, &None, &None, &None);
    assert!(matches!(r, Err(AppError::InvalidParameter(_))));
    let plan = PositionSetFeature::plan_positions(2, false, &None, &None, &None, &None, &None, &s("7"), &None).unwrap();
    assert_eq!(plan, vec![(0, (0, 0))]);
    let r = PositionSetFeature::plan_positions(2, true, &None, &None, &None, &None, &None, &None, &None);
    assert!(matches!(r, Err(AppError::InvalidParameter(_))));
    let r = PositionSetFeature::plan_positions(3, true, &None, &None, &s("1,1,2,2"), &None, &None, &None, &None);
    assert!(matches!(r, Err(AppError::InvalidParameter(_))));
}

#[test]
fn position_set_dispatch() {
    let feature = PositionSetFeature::new();
    let r = feature.handle_position_set(Vec::new(), true, s("1,1"), None, None, None, None, None, None, no_sort());
    assert!(matches!(r, Err(AppError::NoMatchingWindows)));
    let attempts = feature
        .handle_position_set(vec![handle(1, "a"), handle(2, "b")], true, s("1,1"), None, None, None, None, None, None, no_sort())
        .unwrap();
    assert_eq!(attempts.len(), 2);
    assert!(matches!(&attempts[1].result, Err(AppError::FeatureNotSupported(m)) if m == "Window position setting"));
}

#[test]
fn enabled_features_are_listed() {
    assert_eq!(
        get_enabled_features(),
        vec!["windows_get", "window_operations", "always_on_top", "transparency", "position_set", "resize"]
    );
    assert!(!WindowOperationsFeature::new().is_supported());
    assert_eq!(ResizeFeature::new().name(), "resize");
}
