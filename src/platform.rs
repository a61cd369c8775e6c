use vstd::prelude::*;
use crate::error::{AppError, AppResult};
use crate::sorting::Sortable;
use crate::types::WindowInfo;

verus! {

/// The operation failed because the backend has no native window support.
pub open spec fn unsupported<T>(r: AppResult<T>) -> bool {
    r matches Err(AppError::FeatureNotSupported(_))
}

/// The failure a backend without native window support reports for `feature`.
pub open spec fn unsupported_with<T>(r: AppResult<T>, feature: Seq<char>) -> bool {
    r matches Err(AppError::FeatureNotSupported(m)) && m@ == feature
}

/// One capability interface over every window backend.
pub trait PlatformWindow {
    /// Whether the backend can act on native windows at all.
    spec fn native(&self) -> bool;

    /// `r` is what the backend reports for minimizing this window.
    spec fn minimized(&self, r: AppResult<()>) -> bool;

    /// `r` is what the backend reports for maximizing this window.
    spec fn maximized(&self, r: AppResult<()>) -> bool;

    /// `r` is what the backend reports for restoring this window.
    spec fn restored(&self, r: AppResult<()>) -> bool;

    /// `r` is what the backend reports for moving this window's top-left corner to `(x, y)`.
    spec fn moved(&self, x: i32, y: i32, r: AppResult<()>) -> bool;

    /// `r` is what the backend reports for setting this window's topmost flag to `on_top`.
    spec fn topmost_set(&self, on_top: bool, r: AppResult<()>) -> bool;

    /// `r` is what the backend reports when asked whether this window is topmost.
    spec fn topmost_read(&self, r: AppResult<bool>) -> bool;

    /// `r` is what the backend reports for setting this window's opacity to `opacity` percent.
    spec fn opacity_set(&self, opacity: u8, r: AppResult<()>) -> bool;

    /// `r` is what the backend reports for resizing this window to `width` by `height` under the two position policies.
    spec fn resized(&self, width: i32, height: i32, keep_position: bool, center: bool, r: AppResult<()>) -> bool;

    fn minimize(&self) -> (r: AppResult<()>)
        ensures
            self.minimized(r),
            !self.native() ==> unsupported(r),
    ;

    fn maximize(&self) -> (r: AppResult<()>)
        ensures
            self.maximized(r),
            !self.native() ==> unsupported(r),
    ;

    fn restore(&self) -> (r: AppResult<()>)
        ensures
            self.restored(r),
            !self.native() ==> unsupported(r),
    ;

    fn set_position(&self, x: i32, y: i32) -> (r: AppResult<()>)
        ensures
            self.moved(x, y, r),
            !self.native() ==> unsupported(r),
    ;

    fn set_always_on_top(&self, on_top: bool) -> (r: AppResult<()>)
        ensures
            self.topmost_set(on_top, r),
            !self.native() ==> unsupported(r),
    ;

    fn is_always_on_top(&self) -> (r: AppResult<bool>)
        ensures
            self.topmost_read(r),
            !self.native() ==> unsupported(r),
    ;

    fn set_transparency(&self, opacity: u8) -> (r: AppResult<()>)
        ensures
            self.opacity_set(opacity, r),
            !self.native() ==> unsupported(r),
    ;

    fn resize(&self, width: i32, height: i32, keep_position: bool, center: bool) -> (r: AppResult<()>)
        ensures
            self.resized(width, height, keep_position, center, r),
            !self.native() ==> unsupported(r),
    ;
}

/// Enumeration entry points of a backend.
pub trait PlatformInterface {
    fn get_all_windows_with_size() -> Vec<WindowInfo>;

    fn find_windows(
        pid_filter: &Option<String>,
        name_filter: &Option<String>,
        title_filter: &Option<String>,
        process_names: &Vec<(u32, String)>,
    ) -> Vec<WindowHandle>;
}

/// The backend for systems without a native window API: every operation
/// reports that it is not supported.
#[derive(Debug, Clone, Copy)]
pub struct UnixWindowData;

impl UnixWindowData {
    pub fn new() -> (r: Self) {
        UnixWindowData
    }

    pub fn minimize_impl(&self) -> (r: AppResult<()>)
        ensures
            unsupported_with(r, "Window operations"@),
    {
        Err(AppError::feature_not_supported("Window operations"))
    }

    pub fn maximize_impl(&self) -> (r: AppResult<()>)
        ensures
            unsupported_with(r, "Window operations"@),
    {
        Err(AppError::feature_not_supported("Window operations"))
    }

    pub fn restore_impl(&self) -> (r: AppResult<()>)
        ensures
            unsupported_with(r, "Window operations"@),
    {
        Err(AppError::feature_not_supported("Window operations"))
    }

    pub fn set_position_impl(&self, _x: i32, _y: i32) -> (r: AppResult<()>)
        ensures
            unsupported_with(r, "Window position setting"@),
    {
        Err(AppError::feature_not_supported("Window position setting"))
    }

    pub fn set_always_on_top_impl(&self, _on_top: bool) -> (r: AppResult<()>)
        ensures
            unsupported_with(r, "Window always on top operations"@),
    {
        Err(AppError::feature_not_supported("Window always on top operations"))
    }

    pub fn is_always_on_top_impl(&self) -> (r: AppResult<bool>)
        ensures
            unsupported_with(r, "Window always on top detection"@),
    {
        Err(AppError::feature_not_supported("Window always on top detection"))
    }

    pub fn set_transparency_impl(&self, _opacity: u8) -> (r: AppResult<()>)
        ensures
            unsupported_with(r, "Window transparency operations"@),
    {
        Err(AppError::feature_not_supported("Window transparency operations"))
    }

    pub fn resize_impl(&self, _width: i32, _height: i32, _keep_position: bool, _center: bool) -> (r:
        AppResult<()>)
        ensures
            unsupported_with(r, "Window resizing"@),
    {
        Err(AppError::feature_not_supported("Window resizing"))
    }
}

impl PlatformWindow for UnixWindowData {
    open spec fn native(&self) -> bool {
        false
    }

    closed spec fn minimized(&self, r: AppResult<()>) -> bool {
        unsupported_with(r, "Window operations"@)
    }

    closed spec fn maximized(&self, r: AppResult<()>) -> bool {
        unsupported_with(r, "Window operations"@)
    }

    closed spec fn restored(&self, r: AppResult<()>) -> bool {
        unsupported_with(r, "Window operations"@)
    }

    closed spec fn moved(&self, x: i32, y: i32, r: AppResult<()>) -> bool {
        unsupported_with(r, "Window position setting"@)
    }

    closed spec fn topmost_set(&self, on_top: bool, r: AppResult<()>) -> bool {
        unsupported_with(r, "Window always on top operations"@)
    }

    closed spec fn topmost_read(&self, r: AppResult<bool>) -> bool {
        unsupported_with(r, "Window always on top detection"@)
    }

    closed spec fn opacity_set(&self, opacity: u8, r: AppResult<()>) -> bool {
        unsupported_with(r, "Window transparency operations"@)
    }

    closed spec fn resized(&self, width: i32, height: i32, keep_position: bool, center: bool, r: AppResult<()>) -> bool {
        unsupported_with(r, "Window resizing"@)
    }

    fn minimize(&self) -> (r: AppResult<()>) {
        self.minimize_impl()
    }

    fn maximize(&self) -> (r: AppResult<()>) {
        self.maximize_impl()
    }

    fn restore(&self) -> (r: AppResult<()>) {
        self.restore_impl()
    }

    fn set_position(&self, x: i32, y: i32) -> (r: AppResult<()>) {
        self.set_position_impl(x, y)
    }

    fn set_always_on_top(&self, on_top: bool) -> (r: AppResult<()>) {
        self.set_always_on_top_impl(on_top)
    }

    fn is_always_on_top(&self) -> (r: AppResult<bool>) {
        self.is_always_on_top_impl()
    }

    fn set_transparency(&self, opacity: u8) -> (r: AppResult<()>) {
        self.set_transparency_impl(opacity)
    }

    fn resize(&self, width: i32, height: i32, keep_position: bool, center: bool) -> (r: AppResult<()>) {
        self.resize_impl(width, height, keep_position, center)
    }
}

impl PlatformInterface for UnixWindowData {
    fn get_all_windows_with_size() -> Vec<WindowInfo> {
        get_all_windows_with_size()
    }

    fn find_windows(
        pid_filter: &Option<String>,
        name_filter: &Option<String>,
        title_filter: &Option<String>,
        process_names: &Vec<(u32, String)>,
    ) -> Vec<WindowHandle> {
        find_windows(pid_filter, name_filter, title_filter, process_names)
    }
}

/// The native handle of a Win32 window, kept as an integer so that no
/// platform type leaks out.
#[derive(Debug, Clone, Copy)]
pub struct WindowsWindowData {
    pub hwnd: isize,
}

/// The Win32 alpha value (0..=255) for an opacity percentage.
pub open spec fn alpha_of(opacity: int) -> int {
    opacity * 255 / 100
}

/// `n / 2` rounded toward zero, as integer division in Rust rounds.
pub open spec fn half_toward_zero(n: int) -> int {
    if n >= 0 {
        n / 2
    } else {
        -((-n) / 2)
    }
}

/// Where a resized window's top-left corner goes: kept, centred on a
/// screen of the given size, or kept by default.
pub open spec fn resize_origin_of(
    left: int,
    top: int,
    width: int,
    height: int,
    keep_position: bool,
    center: bool,
    screen_width: int,
    screen_height: int,
) -> (int, int) {
    if !keep_position && center {
        (half_toward_zero(screen_width - width), half_toward_zero(screen_height - height))
    } else {
        (left, top)
    }
}

impl WindowsWindowData {
    pub fn new(hwnd: isize) -> (r: Self)
        ensures
            r.hwnd == hwnd,
    {
        Self { hwnd }
    }

    /// Maps an opacity percentage (100 is fully opaque) linearly onto the
    /// native alpha range.
    pub fn alpha_for_opacity(opacity: u8) -> (r: u8)
        requires
            opacity <= 100,
        ensures
            r as int == alpha_of(opacity as int),
    {
        ((opacity as u32 * 255) / 100) as u8
    }

    /// The top-left corner for a resize: the current one, or the one that
    /// centres the new size on the primary screen.
    pub fn resize_origin(
        left: i32,
        top: i32,
        width: i32,
        height: i32,
        keep_position: bool,
        center: bool,
        screen_width: i32,
        screen_height: i32,
    ) -> (r: (i32, i32))
        ensures
            r.0 as int == resize_origin_of(left as int, top as int, width as int, height as int, keep_position, center, screen_width as int, screen_height as int).0,
            r.1 as int == resize_origin_of(left as int, top as int, width as int, height as int, keep_position, center, screen_width as int, screen_height as int).1,
    {
        if keep_position {
            (left, top)
        } else if center {
            let sx = screen_width as i64 - width as i64;
            let sy = screen_height as i64 - height as i64;
            let dx = if sx >= 0 { sx / 2 } else { 0 - (0 - sx) / 2 };
            let dy = if sy >= 0 { sy / 2 } else { 0 - (0 - sy) / 2 };
            (dx as i32, dy as i32)
        } else {
            (left, top)
        }
    }
}

/// The backend that produced a handle. This build targets systems
/// without a native window API, so the Unix backend is the only one.
#[derive(Debug, Clone, Copy)]
pub enum PlatformData {
    Unix(UnixWindowData),
}

impl PlatformWindow for PlatformData {
    closed spec fn native(&self) -> bool {
        match self {
            PlatformData::Unix(d) => d.native(),
        }
    }

    closed spec fn minimized(&self, r: AppResult<()>) -> bool {
        match self {
            PlatformData::Unix(d) => d.minimized(r),
        }
    }

    closed spec fn maximized(&self, r: AppResult<()>) -> bool {
        match self {
            PlatformData::Unix(d) => d.maximized(r),
        }
    }

    closed spec fn restored(&self, r: AppResult<()>) -> bool {
        match self {
            PlatformData::Unix(d) => d.restored(r),
        }
    }

    closed spec fn moved(&self, x: i32, y: i32, r: AppResult<()>) -> bool {
        match self {
            PlatformData::Unix(d) => d.moved(x, y, r),
        }
    }

    closed spec fn topmost_set(&self, on_top: bool, r: AppResult<()>) -> bool {
        match self {
            PlatformData::Unix(d) => d.topmost_set(on_top, r),
        }
    }

    closed spec fn topmost_read(&self, r: AppResult<bool>) -> bool {
        match self {
            PlatformData::Unix(d) => d.topmost_read(r),
        }
    }

    closed spec fn opacity_set(&self, opacity: u8, r: AppResult<()>) -> bool {
        match self {
            PlatformData::Unix(d) => d.opacity_set(opacity, r),
        }
    }

    closed spec fn resized(&self, width: i32, height: i32, keep_position: bool, center: bool, r: AppResult<()>) -> bool {
        match self {
            PlatformData::Unix(d) => d.resized(width, height, keep_position, center, r),
        }
    }

    fn minimize(&self) -> (r: AppResult<()>) {
        match self {
            PlatformData::Unix(data) => data.minimize(),
        }
    }

    fn maximize(&self) -> (r: AppResult<()>) {
        match self {
            PlatformData::Unix(data) => data.maximize(),
        }
    }

    fn restore(&self) -> (r: AppResult<()>) {
        match self {
            PlatformData::Unix(data) => data.restore(),
        }
    }

    fn set_position(&self, x: i32, y: i32) -> (r: AppResult<()>) {
        match self {
            PlatformData::Unix(data) => data.set_position(x, y),
        }
    }

    fn set_always_on_top(&self, on_top: bool) -> (r: AppResult<()>) {
        match self {
            PlatformData::Unix(data) => data.set_always_on_top(on_top),
        }
    }

    fn is_always_on_top(&self) -> (r: AppResult<bool>) {
        match self {
            PlatformData::Unix(data) => data.is_always_on_top(),
        }
    }

    fn set_transparency(&self, opacity: u8) -> (r: AppResult<()>) {
        match self {
            PlatformData::Unix(data) => data.set_transparency(opacity),
        }
    }

    fn resize(&self, width: i32, height: i32, keep_position: bool, center: bool) -> (r: AppResult<()>) {
        match self {
            PlatformData::Unix(data) => data.resize(width, height, keep_position, center),
        }
    }
}

/// What the Unix backend reports: no native window support, and for each
/// operation the `FeatureNotSupported` error naming it.
pub proof fn lemma_unix_backend(d: PlatformData)
    requires
        d is Unix,
    ensures
        !d.native(),
        forall|r: AppResult<()>| #[trigger] d.minimized(r) <==> unsupported_with(r, "Window operations"@),
        forall|r: AppResult<()>| #[trigger] d.maximized(r) <==> unsupported_with(r, "Window operations"@),
        forall|r: AppResult<()>| #[trigger] d.restored(r) <==> unsupported_with(r, "Window operations"@),
        forall|x: i32, y: i32, r: AppResult<()>| #[trigger] d.moved(x, y, r) <==> unsupported_with(r, "Window position setting"@),
        forall|on_top: bool, r: AppResult<()>| #[trigger] d.topmost_set(on_top, r) <==> unsupported_with(r, "Window always on top operations"@),
        forall|r: AppResult<bool>| #[trigger] d.topmost_read(r) <==> unsupported_with(r, "Window always on top detection"@),
        forall|opacity: u8, r: AppResult<()>| #[trigger] d.opacity_set(opacity, r) <==> unsupported_with(r, "Window transparency operations"@),
        forall|width: i32, height: i32, keep_position: bool, center: bool, r: AppResult<()>| #[trigger] d.resized(width, height, keep_position, center, r) <==> unsupported_with(r, "Window resizing"@),
{
}

/// A snapshot handle to one live window: its owning process, its title,
/// and the backend data that reaches it.
#[derive(Debug)]
pub struct WindowHandle {
    pub pid: u32,
    pub title: String,
    pub platform_data: PlatformData,
}

impl Clone for WindowHandle {
    fn clone(&self) -> (r: Self)
        ensures
            r == *self,
    {
        WindowHandle { pid: self.pid, title: self.title.clone(), platform_data: self.platform_data }
    }
}

impl WindowHandle {
    pub open spec fn native(&self) -> bool {
        self.platform_data.native()
    }

    pub fn new(pid: u32, title: String, platform_data: PlatformData) -> (r: Self)
        ensures
            r.pid == pid,
            r.title == title,
            r.platform_data == platform_data,
    {
        Self { pid, title, platform_data }
    }

    pub fn minimize(&self) -> (r: AppResult<()>)
        ensures
            self.platform_data.minimized(r),
            !self.native() ==> unsupported(r),
    {
        self.platform_data.minimize()
    }

    pub fn maximize(&self) -> (r: AppResult<()>)
        ensures
            self.platform_data.maximized(r),
            !self.native() ==> unsupported(r),
    {
        self.platform_data.maximize()
    }

    pub fn restore(&self) -> (r: AppResult<()>)
        ensures
            self.platform_data.restored(r),
            !self.native() ==> unsupported(r),
    {
        self.platform_data.restore()
    }

    pub fn set_position(&self, x: i32, y: i32) -> (r: AppResult<()>)
        ensures
            self.platform_data.moved(x, y, r),
            !self.native() ==> unsupported(r),
    {
        self.platform_data.set_position(x, y)
    }

    pub fn set_always_on_top(&self, on_top: bool) -> (r: AppResult<()>)
        ensures
            self.platform_data.topmost_set(on_top, r),
            !self.native() ==> unsupported(r),
    {
        self.platform_data.set_always_on_top(on_top)
    }

    pub fn is_always_on_top(&self) -> (r: AppResult<bool>)
        ensures
            self.platform_data.topmost_read(r),
            !self.native() ==> unsupported(r),
    {
        self.platform_data.is_always_on_top()
    }

    pub fn set_transparency(&self, opacity: u8) -> (r: AppResult<()>)
        ensures
            self.platform_data.opacity_set(opacity, r),
            !self.native() ==> unsupported(r),
    {
        self.platform_data.set_transparency(opacity)
    }

    pub fn resize(&self, width: i32, height: i32, keep_position: bool, center: bool) -> (r: AppResult<()>)
        ensures
            self.platform_data.resized(width, height, keep_position, center, r),
            !self.native() ==> unsupported(r),
    {
        self.platform_data.resize(width, height, keep_position, center)
    }
}

impl Sortable for WindowHandle {
    open spec fn spec_pid(&self) -> u32 {
        self.pid
    }

    open spec fn spec_position(&self) -> Option<(i32, i32)> {
        None
    }

    open spec fn spec_title(&self) -> Seq<char> {
        self.title@
    }

    fn get_pid(&self) -> (r: u32) {
        self.pid
    }

    fn get_position(&self) -> (r: Option<(i32, i32)>) {
        None
    }

    fn get_title(&self) -> (r: &str) {
        self.title.as_str()
    }
}

/// Every visible top-level window with its geometry. Without a native
/// window API there are none to enumerate.
pub fn get_all_windows_with_size() -> (r: Vec<WindowInfo>)
    ensures
        r@.len() == 0,
{
    Vec::new()
}

/// The windows that match all the given filters. Without a native window
/// API there are none to enumerate.
pub fn find_windows(
    pid_filter: &Option<String>,
    name_filter: &Option<String>,
    title_filter: &Option<String>,
    process_names: &Vec<(u32, String)>,
) -> (r: Vec<WindowHandle>)
    ensures
        r@ == crate::discovery::kept(Seq::<WindowHandle>::empty(), *pid_filter, *name_filter, *title_filter, process_names@),
{
    let native: Vec<WindowHandle> = Vec::new();
    crate::discovery::filter_windows(native, pid_filter, name_filter, title_filter, process_names)
}

} // verus!
