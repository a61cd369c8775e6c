use pscan::platform::{PlatformData, UnixWindowData, WindowHandle};
use pscan::sorting::{
    apply_sorting_with_config, apply_window_handle_sorting, apply_window_sorting, create_sort_config,
    PositionSort, SortConfig, SortOrder, Sortable,
};
use pscan::types::{WindowInfo, WindowRect};

fn window(pid: u32, title: &str, x: i32, y: i32) -> WindowInfo {
    WindowInfo { pid, title: title.to_string(), rect: WindowRect::new(x, y, 800, 600) }
}

fn handle(pid: u32, title: &str) -> WindowHandle {
    WindowHandle::new(pid, title.to_string(), PlatformData::Unix(UnixWindowData::new()))
}

#[test]
fn test_sort_order_parsing() {
    assert_eq!("1".parse::<SortOrder>().unwrap(), SortOrder::Ascending);
    assert_eq!("-1".parse::<SortOrder>().unwrap(), SortOrder::Descending);
    assert_eq!("0".parse::<SortOrder>().unwrap(), SortOrder::Unordered);
    assert!("2".parse::<SortOrder>().is_err());
}

#[test]
fn test_position_sort_parsing() {
    let pos = "1|-1".parse::<PositionSort>().unwrap();
    assert_eq!(pos.x_order, SortOrder::Ascending);
    assert_eq!(pos.y_order, SortOrder::Descending);

    assert!("1".parse::<PositionSort>().is_err());
    assert!("1|2|-1".parse::<PositionSort>().is_err());
}

#[test]
fn test_position_sort_validation() {
    let valid_sort = PositionSort { x_order: SortOrder::Ascending, y_order: SortOrder::Unordered };
    assert!(valid_sort.validate().is_ok());
    assert!(valid_sort.is_active());

    let invalid_sort = PositionSort { x_order: SortOrder::Unordered, y_order: SortOrder::Unordered };
    assert!(invalid_sort.validate().is_err());
    assert!(!invalid_sort.is_active());
}

#[test]
fn test_apply_window_sorting() {
    let mut windows = vec![
        window(100, "Window C", 300, 200),
        window(200, "Window A", 100, 100),
        window(150, "Window B", 200, 150),
    ];

    // The default position order (X then Y, ascending) comes before the PID order.
    apply_window_sorting(&mut windows, &SortOrder::Ascending, &PositionSort::default());
    assert_eq!(windows[0].pid, 200);
    assert_eq!(windows[1].pid, 150);
    assert_eq!(windows[2].pid, 100);

    apply_window_sorting(&mut windows, &SortOrder::Descending, &PositionSort::default());
    assert_eq!(windows[0].pid, 200);
    assert_eq!(windows[1].pid, 150);
    assert_eq!(windows[2].pid, 100);

    let position_sort = PositionSort { x_order: SortOrder::Ascending, y_order: SortOrder::Ascending };
    apply_window_sorting(&mut windows, &SortOrder::Unordered, &position_sort);
    assert_eq!(windows[0].rect.x, 100);
    assert_eq!(windows[1].rect.x, 200);
    assert_eq!(windows[2].rect.x, 300);
}

#[test]
fn test_skip_sorting() {
    let mut windows = vec![window(100, "Window A", 100, 100), window(200, "Window B", 200, 200)];
    let original_order: Vec<u32> = windows.iter().map(|w| w.pid).collect();
    apply_window_sorting(&mut windows, &SortOrder::Unordered, &PositionSort::default());
    let after_sort_order: Vec<u32> = windows.iter().map(|w| w.pid).collect();
    assert_eq!(original_order, after_sort_order);
}

#[test]
fn test_sort_config() {
    let config = SortConfig {
        pid: SortOrder::Ascending,
        position: PositionSort { x_order: SortOrder::Descending, y_order: SortOrder::Ascending },
        fallback_to_title: true,
    };
    let mut windows = vec![window(200, "Window B", 100, 100), window(100, "Window A", 200, 200)];
    apply_sorting_with_config(&mut windows, &config);
    assert_eq!(windows[0].rect.x, 200);
    assert_eq!(windows[1].rect.x, 100);
}

#[test]
fn test_create_sort_config() {
    let config = create_sort_config("1", "1|-1").unwrap();
    assert_eq!(config.pid, SortOrder::Ascending);
    assert_eq!(config.position.x_order, SortOrder::Ascending);
    assert_eq!(config.position.y_order, SortOrder::Descending);
    assert!(config.fallback_to_title);

    assert!(create_sort_config("invalid", "1|-1").is_err());
    assert!(create_sort_config("1", "invalid").is_err());
}

#[test]
fn test_sortable_trait_implementation() {
    let window_info = window(123, "Test Window", 100, 200);
    assert_eq!(window_info.get_pid(), 123);
    assert_eq!(window_info.get_position(), Some((100, 200)));
    assert_eq!(window_info.get_title(), "Test Window");

    let window_handle = handle(456, "Handle Window");
    assert_eq!(window_handle.get_pid(), 456);
    assert_eq!(window_handle.get_position(), None);
    assert_eq!(window_handle.get_title(), "Handle Window");
}

#[test]
fn sorting_twice_equals_sorting_once() {
    let requests = [
        (SortOrder::Ascending, PositionSort { x_order: SortOrder::Descending, y_order: SortOrder::Ascending }),
        (SortOrder::Descending, PositionSort { x_order: SortOrder::Unordered, y_order: SortOrder::Descending }),
        (SortOrder::Unordered, PositionSort { x_order: SortOrder::Ascending, y_order: SortOrder::Unordered }),
    ];
    for (pid, pos) in requests.iter() {
        let mut once = vec![
            window(7, "b", 10, 5),
            window(3, "a", 10, 5),
            window(9, "c", -4, 8),
            window(1, "a", 10, 2),
        ];
        apply_window_sorting(&mut once, pid, pos);
        let mut twice = once.clone();
        apply_window_sorting(&mut twice, pid, pos);
        let a: Vec<u32> = once.iter().map(|w| w.pid).collect();
        let b: Vec<u32> = twice.iter().map(|w| w.pid).collect();
        assert_eq!(a, b);
    }
}

#[test]
fn handles_fall_back_to_title_order() {
    let mut handles = vec![handle(5, "zeta"), handle(2, "Alpha"), handle(9, "beta")];
    let by_x = PositionSort { x_order: SortOrder::Ascending, y_order: SortOrder::Unordered };
    apply_window_handle_sorting(&mut handles, &SortOrder::Unordered, &by_x);
    let titles: Vec<&str> = handles.iter().map(|h| h.title.as_str()).collect();
    assert_eq!(titles, vec!["Alpha", "beta", "zeta"]);

    let by_x_desc = PositionSort { x_order: SortOrder::Descending, y_order: SortOrder::Unordered };
    apply_window_handle_sorting(&mut handles, &SortOrder::Unordered, &by_x_desc);
    let titles: Vec<&str> = handles.iter().map(|h| h.title.as_str()).collect();
    assert_eq!(titles, vec!["zeta", "beta", "Alpha"]);
}

#[test]
fn no_ordering_keeps_handle_order() {
    let mut handles = vec![handle(5, "zeta"), handle(2, "Alpha"), handle(9, "beta")];
    let none = PositionSort { x_order: SortOrder::Unordered, y_order: SortOrder::Unordered };
    apply_window_handle_sorting(&mut handles, &SortOrder::Unordered, &none);
    let pids: Vec<u32> = handles.iter().map(|h| h.pid).collect();
    assert_eq!(pids, vec![5, 2, 9]);
}

#[test]
fn equal_keys_keep_their_order() {
    let mut windows = vec![window(4, "same", 0, 0), window(8, "same", 0, 0), window(2, "same", 0, 0)];
    let pos = PositionSort::default();
    apply_window_sorting(&mut windows, &SortOrder::Unordered, &pos);
    let pids: Vec<u32> = windows.iter().map(|w| w.pid).collect();
    assert_eq!(pids, vec![4, 8, 2]);
}

#[test]
fn pid_order_breaks_ties() {
    let mut windows = vec![window(4, "same", 0, 0), window(8, "same", 0, 0), window(2, "same", 0, 0)];
    apply_window_sorting(&mut windows, &SortOrder::Descending, &PositionSort::default());
    let pids: Vec<u32> = windows.iter().map(|w| w.pid).collect();
    assert_eq!(pids, vec![8, 4, 2]);
}

#[test]
fn sort_order_errors_name_the_token() {
    let e = "x".parse::<SortOrder>().unwrap_err();
    assert_eq!(e, "Invalid sort order: x. Use 1 (ascending), -1 (descending), or 0 (none)");
    assert_eq!(SortOrder::default(), SortOrder::Unordered);
    let c = SortConfig::default();
    assert_eq!(c.pid, SortOrder::Unordered);
    assert_eq!(c.position.x_order, SortOrder::Ascending);
}

#[test]
fn equal_positions_fall_to_pid_not_title() {
    let mut windows = vec![window(1, "a", 10, 10), window(2, "b", 10, 10)];
    apply_window_sorting(&mut windows, &SortOrder::Descending, &PositionSort::default());
    let pids: Vec<u32> = windows.iter().map(|w| w.pid).collect();
    assert_eq!(pids, vec![2, 1]);
    let mut windows = vec![window(1, "b", 10, 10), window(2, "a", 10, 10)];
    apply_window_sorting(&mut windows, &SortOrder::Unordered, &PositionSort::default());
    let pids: Vec<u32> = windows.iter().map(|w| w.pid).collect();
    assert_eq!(pids, vec![1, 2]);
}
