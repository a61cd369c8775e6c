use vstd::prelude::*;
use crate::batch::{select_targets, targeted, targets, Attempt};
use crate::discovery::{filter_windows, kept};
use crate::error::{AppError, AppResult};
use crate::layout::{
    calculate_positions, indices_named, layout_text, modes_given, parse_indices, positions_for,
    validate_position_parameters,
};
use crate::platform::{unsupported, PlatformWindow, WindowHandle};
use crate::sorting::{apply_window_handle_sorting, apply_window_sorting, sort_result, PositionSort, SortOrder};
use crate::text::{chars_of, parse_i32, parsed_i32, split, split_chars, trim, trim_chars};
use crate::types::WindowInfo;

verus! {

/// The index text as the handlers read it: absent is empty.
pub open spec fn index_text(index: Option<String>) -> Seq<char> {
    match index {
        Some(s) => s@,
        None => Seq::empty(),
    }
}

/// The attempts line up with the targeted windows of `ws`, in order.
pub open spec fn attempts_cover<T>(atts: Seq<Attempt<T>>, ws: Seq<WindowHandle>, ts: Seq<usize>) -> bool {
    &&& atts.len() == ts.len()
    &&& forall|k: int|
        0 <= k < atts.len() ==> {
            &&& (#[trigger] atts[k]).index == ts[k]
            &&& ts[k] < ws.len()
            &&& atts[k].pid == ws[ts[k] as int].pid
            &&& atts[k].title == ws[ts[k] as int].title
            &&& !ws[ts[k] as int].native() ==> unsupported(atts[k].result)
        }
}

/// Sorts the handles by the position order and picks the targets that
/// `index` and `all` select.
fn sorted_targets(
    windows: &mut Vec<WindowHandle>,
    all: bool,
    index: &Option<String>,
    sort_position: &PositionSort,
) -> (r: Vec<usize>)
    ensures
        final(windows)@ == sort_result(old(windows)@, SortOrder::Unordered, *sort_position),
        final(windows)@.len() == old(windows)@.len(),
        r@ == targets(
            old(windows)@.len(),
            indices_named(index_text(*index), old(windows)@.len() as usize),
            all,
        ),
        forall|k: int| 0 <= k < r@.len() ==> r@[k] < old(windows)@.len(),
{
    apply_window_handle_sorting(windows, &SortOrder::Unordered, sort_position);
    proof {
        lemma_sorted_len(old(windows)@, *sort_position);
    }
    let indices = match index {
        Some(s) => parse_indices(s.as_str(), windows.len()),
        None => parse_indices("", windows.len()),
    };
    proof {
        reveal_strlit("");
    }
    let ts = select_targets(windows.len(), &indices, all);
    proof {
        lemma_targets_below(windows@.len(), indices@, all);
    }
    ts
}

proof fn lemma_sorted_len(s: Seq<WindowHandle>, sp: PositionSort)
    ensures
        sort_result(s, SortOrder::Unordered, sp).len() == s.len(),
{
    if !crate::sorting::no_ordering(SortOrder::Unordered, sp) {
        lemma_stable_sorted_len(s, sp);
    }
}

proof fn lemma_stable_sorted_len(s: Seq<WindowHandle>, sp: PositionSort)
    ensures
        crate::sorting::stable_sorted(s, SortOrder::Unordered, sp).len() == s.len(),
    decreases s.len(),
{
    if s.len() > 0 {
        lemma_stable_sorted_len(s.drop_last(), sp);
        lemma_insert_len(crate::sorting::stable_sorted(s.drop_last(), SortOrder::Unordered, sp), s.last(), sp);
    }
}

proof fn lemma_insert_len(s: Seq<WindowHandle>, x: WindowHandle, sp: PositionSort)
    ensures
        crate::sorting::insert_ordered(s, x, SortOrder::Unordered, sp).len() == s.len() + 1,
    decreases s.len(),
{
    if s.len() > 0 {
        lemma_insert_len(s.drop_last(), x, sp);
    }
}

proof fn lemma_targets_below(count: nat, indices: Seq<usize>, all: bool)
    ensures
        forall|k: int| 0 <= k < targets(count, indices, all).len() ==> #[trigger] targets(count, indices, all)[k] < count,
    decreases count,
{
    if count > 0 {
        lemma_targets_below((count - 1) as nat, indices, all);
        let rest = targets((count - 1) as nat, indices, all);
        if targeted(count - 1, indices, all) {
            assert forall|k: int| 0 <= k < rest.len() + 1 implies #[trigger] rest.push((count - 1) as usize)[k] < count by {
                if k < rest.len() {
                    assert(rest.push((count - 1) as usize)[k] == rest[k]);
                }
            }
        }
    }
}

/// `r` is what the backend reported for applying `op` to `w`.
pub open spec fn operation_reported(op: WindowOperation, w: WindowHandle, r: AppResult<()>) -> bool {
    match op {
        WindowOperation::Minimize => w.platform_data.minimized(r),
        WindowOperation::Maximize => w.platform_data.maximized(r),
        WindowOperation::Restore => w.platform_data.restored(r),
    }
}

/// Each attempt holds what the backend reported for applying `op` to its window.
pub open spec fn operation_attempts(atts: Seq<Attempt<()>>, ws: Seq<WindowHandle>, op: WindowOperation) -> bool {
    forall|k: int| 0 <= k < atts.len() ==> operation_reported(op, ws[(#[trigger] atts[k]).index as int], atts[k].result)
}

/// Each attempt holds what the backend reported for setting its window's
/// opacity to `opacity` percent.
pub open spec fn opacity_attempts(atts: Seq<Attempt<()>>, ws: Seq<WindowHandle>, opacity: u8) -> bool {
    forall|k: int| 0 <= k < atts.len() ==> ws[(#[trigger] atts[k]).index as int].platform_data.opacity_set(opacity, atts[k].result)
}

/// The three state-changing operations that need no parameter.
#[derive(Debug, Clone, Copy, PartialEq, Eq, Structural)]
pub enum WindowOperation {
    Minimize,
    Maximize,
    Restore,
}

impl WindowOperation {
    /// The verb.
    pub fn as_str(&self) -> (r: &'static str)
        ensures
            r@ == match *self {
                WindowOperation::Minimize => "minimize"@,
                WindowOperation::Maximize => "maximize"@,
                WindowOperation::Restore => "restore"@,
            },
    {
        match self {
            WindowOperation::Minimize => "minimize",
            WindowOperation::Maximize => "maximize",
            WindowOperation::Restore => "restore",
        }
    }

    /// The past tense, for the summary line.
    pub fn past_tense(&self) -> (r: &'static str)
        ensures
            r@ == match *self {
                WindowOperation::Minimize => "minimized"@,
                WindowOperation::Maximize => "maximized"@,
                WindowOperation::Restore => "restored"@,
            },
    {
        match self {
            WindowOperation::Minimize => "minimized",
            WindowOperation::Maximize => "maximized",
            WindowOperation::Restore => "restored",
        }
    }

    /// The capitalised past tense, for the per-window line.
    pub fn capitalized(&self) -> (r: &'static str)
        ensures
            r@ == match *self {
                WindowOperation::Minimize => "Minimized"@,
                WindowOperation::Maximize => "Maximized"@,
                WindowOperation::Restore => "Restored"@,
            },
    {
        match self {
            WindowOperation::Minimize => "Minimized",
            WindowOperation::Maximize => "Maximized",
            WindowOperation::Restore => "Restored",
        }
    }

    /// Performs the operation on one window.
    pub fn apply(&self, window: &WindowHandle) -> (r: AppResult<()>)
        ensures
            operation_reported(*self, *window, r),
            !window.native() ==> unsupported(r),
    {
        match self {
            WindowOperation::Minimize => window.minimize(),
            WindowOperation::Maximize => window.maximize(),
            WindowOperation::Restore => window.restore(),
        }
    }
}

/// The names of every feature this build carries.
pub fn get_enabled_features() -> (r: Vec<&'static str>)
    ensures
        r@.len() == 6,
        r@[0]@ == "windows_get"@,
        r@[1]@ == "window_operations"@,
        r@[2]@ == "always_on_top"@,
        r@[3]@ == "transparency"@,
        r@[4]@ == "position_set"@,
        r@[5]@ == "resize"@,
{
    let mut features: Vec<&'static str> = Vec::new();
    features.push("windows_get");
    features.push("window_operations");
    features.push("always_on_top");
    features.push("transparency");
    features.push("position_set");
    features.push("resize");
    features
}

/// Window listing with filters and sorting.
#[derive(Debug, Clone, Copy)]
pub struct WindowsGetFeature;

impl WindowsGetFeature {
    pub fn new() -> (r: Self) {
        Self
    }

    pub fn name(&self) -> (r: &'static str)
        ensures
            r@ == "windows_get"@,
    {
        "windows_get"
    }

    pub fn description(&self) -> (r: &'static str)
        ensures
            r@ == "Window information retrieval with filtering and sorting"@,
    {
        "Window information retrieval with filtering and sorting"
    }

    /// Listing works everywhere, even where windows cannot be changed.
    pub fn is_supported(&self) -> (r: bool)
        ensures
            r,
    {
        true
    }

    /// Keeps the windows that pass the filters and sorts them; finding
    /// none is `NoMatchingWindows`.
    pub fn handle_windows_get(
        &self,
        windows: Vec<WindowInfo>,
        process_names: &Vec<(u32, String)>,
        pid_filter: &Option<String>,
        name_filter: &Option<String>,
        title_filter: &Option<String>,
        sort_pid: SortOrder,
        sort_position: PositionSort,
    ) -> (r: AppResult<Vec<WindowInfo>>)
        ensures
            kept(windows@, *pid_filter, *name_filter, *title_filter, process_names@).len() == 0
                ==> r matches Err(AppError::NoMatchingWindows),
            kept(windows@, *pid_filter, *name_filter, *title_filter, process_names@).len() > 0 ==> (
            r matches Ok(v) && v@ == sort_result(
                kept(windows@, *pid_filter, *name_filter, *title_filter, process_names@),
                sort_pid,
                sort_position,
            )),
    {
        let mut filtered = filter_windows(windows, pid_filter, name_filter, title_filter, process_names);
        if filtered.len() == 0 {
            return Err(AppError::NoMatchingWindows);
        }
        apply_window_sorting(&mut filtered, &sort_pid, &sort_position);
        Ok(filtered)
    }
}

/// Minimize, maximize and restore.
#[derive(Debug, Clone, Copy)]
pub struct WindowOperationsFeature;

impl WindowOperationsFeature {
    pub fn new() -> (r: Self) {
        Self
    }

    pub fn name(&self) -> (r: &'static str)
        ensures
            r@ == "window_operations"@,
    {
        "window_operations"
    }

    pub fn description(&self) -> (r: &'static str)
        ensures
            r@ == "Window operations (minimize, maximize, restore)"@,
    {
        "Window operations (minimize, maximize, restore)"
    }

    /// Needs a native window API, which this build has none of.
    pub fn is_supported(&self) -> (r: bool)
        ensures
            !r,
    {
        false
    }

    /// Sorts the discovered windows, picks the targets and applies the
    /// operation to each; finding none is `NoMatchingWindows`.
    pub fn handle_window_operation(
        &self,
        windows: Vec<WindowHandle>,
        all: bool,
        index: Option<String>,
        operation: WindowOperation,
        sort_position: PositionSort,
    ) -> (r: AppResult<Vec<Attempt<()>>>)
        ensures
            windows@.len() == 0 ==> r matches Err(AppError::NoMatchingWindows),
            windows@.len() > 0 ==> (r matches Ok(atts) && attempts_cover(
                atts@,
                sort_result(windows@, SortOrder::Unordered, sort_position),
                targets(windows@.len(), indices_named(index_text(index), windows@.len() as usize), all),
            ) && operation_attempts(atts@, sort_result(windows@, SortOrder::Unordered, sort_position), operation)),
    {
        if windows.len() == 0 {
            return Err(AppError::NoMatchingWindows);
        }
        let mut windows = windows;
        let ts = sorted_targets(&mut windows, all, &index, &sort_position);
        let mut attempts: Vec<Attempt<()>> = Vec::new();
        let mut k: usize = 0;
        while k < ts.len()
            invariant
                k <= ts.len(),
                forall|j: int| 0 <= j < ts@.len() ==> ts@[j] < windows@.len(),
                attempts@.len() == k,
                attempts_cover(attempts@, windows@, ts@.take(k as int)),
                operation_attempts(attempts@, windows@, operation),
            decreases ts.len() - k,
        {
            let w = &windows[ts[k]];
            let result = operation.apply(w);
            attempts.push(Attempt { index: ts[k], pid: w.pid, title: w.title.clone(), result });
            k = k + 1;
        }
        assert(ts@.take(ts@.len() as int) =~= ts@);
        Ok(attempts)
    }
}

/// The opacity a transparency request asks for: fully opaque on reset.
pub open spec fn target_opacity(level: u8, reset: bool) -> u8 {
    if reset { 100 } else { level }
}

/// Window transparency.
#[derive(Debug, Clone, Copy)]
pub struct TransparencyFeature;

impl TransparencyFeature {
    pub fn new() -> (r: Self) {
        Self
    }

    pub fn name(&self) -> (r: &'static str)
        ensures
            r@ == "transparency"@,
    {
        "transparency"
    }

    pub fn description(&self) -> (r: &'static str)
        ensures
            r@ == "Window transparency management"@,
    {
        "Window transparency management"
    }

    /// Needs a native window API, which this build has none of.
    pub fn is_supported(&self) -> (r: bool)
        ensures
            !r,
    {
        false
    }

    /// Sets the opacity (100 on reset) of each targeted window.
    pub fn handle_transparency(
        &self,
        windows: Vec<WindowHandle>,
        all: bool,
        index: Option<String>,
        level: u8,
        reset: bool,
        sort_position: PositionSort,
    ) -> (r: AppResult<Vec<Attempt<()>>>)
        ensures
            windows@.len() == 0 ==> r matches Err(AppError::NoMatchingWindows),
            windows@.len() > 0 ==> (r matches Ok(atts) && attempts_cover(
                atts@,
                sort_result(windows@, SortOrder::Unordered, sort_position),
                targets(windows@.len(), indices_named(index_text(index), windows@.len() as usize), all),
            ) && opacity_attempts(
                atts@,
                sort_result(windows@, SortOrder::Unordered, sort_position),
                target_opacity(level, reset),
            )),
    {
        let target_level: u8 = if reset { 100 } else { level };
        if windows.len() == 0 {
            return Err(AppError::NoMatchingWindows);
        }
        let mut windows = windows;
        let ts = sorted_targets(&mut windows, all, &index, &sort_position);
        let mut attempts: Vec<Attempt<()>> = Vec::new();
        let mut k: usize = 0;
        while k < ts.len()
            invariant
                k <= ts.len(),
                forall|j: int| 0 <= j < ts@.len() ==> ts@[j] < windows@.len(),
                attempts@.len() == k,
                attempts_cover(attempts@, windows@, ts@.take(k as int)),
                target_level == target_opacity(level, reset),
                opacity_attempts(attempts@, windows@, target_level),
            decreases ts.len() - k,
        {
            let w = &windows[ts[k]];
            let result = w.set_transparency(target_level);
            attempts.push(Attempt { index: ts[k], pid: w.pid, title: w.title.clone(), result });
            k = k + 1;
        }
        assert(ts@.take(ts@.len() as int) =~= ts@);
        Ok(attempts)
    }
}


/// The state an always-on-top request asks for: off, on, or (for a
/// toggle, `None`) the opposite of the current one.
pub open spec fn topmost_target(toggle: bool, off: bool) -> Option<bool> {
    if off {
        Some(false)
    } else if toggle {
        None
    } else {
        Some(true)
    }
}

/// A success reports the state that was asked for, when one was.
pub open spec fn reports_target(r: AppResult<bool>, target: Option<bool>) -> bool {
    match r {
        Ok(s) => match target {
            Some(t) => s == t,
            None => true,
        },
        Err(_) => true,
    }
}

/// What an attempt reports after a write that the backend answered with `r`:
/// the written state on success, the backend's error otherwise.
pub open spec fn stamped(r: AppResult<()>, state: bool) -> AppResult<bool> {
    match r {
        Ok(_) => Ok(state),
        Err(e) => Err(e),
    }
}

/// `result` comes from writing `state` to `w`'s topmost flag.
pub open spec fn topmost_written(w: WindowHandle, state: bool, result: AppResult<bool>) -> bool {
    exists|r: AppResult<()>| #[trigger] w.platform_data.topmost_set(state, r) && result == stamped(r, state)
}

/// `result` is what an always-on-top request did to `w`: a write of the
/// asked state, or, for a toggle, a read followed by a write of the
/// opposite of what was read (no write when the read failed).
pub open spec fn topmost_attempted(w: WindowHandle, target: Option<bool>, result: AppResult<bool>) -> bool {
    match target {
        Some(t) => topmost_written(w, t, result),
        None => exists|r: AppResult<bool>|
            #[trigger] w.platform_data.topmost_read(r) && match r {
                Ok(b) => topmost_written(w, !b, result),
                Err(e) => result == Err::<bool, AppError>(e),
            },
    }
}

/// Every position `0..n`, in order.
pub open spec fn every_position(n: nat) -> Seq<usize> {
    Seq::new(n, |i: int| i as usize)
}

/// Keeping windows above their siblings.
#[derive(Debug, Clone, Copy)]
pub struct AlwaysOnTopFeature;

impl AlwaysOnTopFeature {
    pub fn new() -> (r: Self) {
        Self
    }

    pub fn name(&self) -> (r: &'static str)
        ensures
            r@ == "always_on_top"@,
    {
        "always_on_top"
    }

    pub fn description(&self) -> (r: &'static str)
        ensures
            r@ == "Window always on top management"@,
    {
        "Window always on top management"
    }

    /// Needs a native window API, which this build has none of.
    pub fn is_supported(&self) -> (r: bool)
        ensures
            !r,
    {
        false
    }

    pub fn target_state(toggle: bool, off: bool) -> (r: Option<bool>)
        ensures
            r == topmost_target(toggle, off),
    {
        if off {
            Some(false)
        } else if toggle {
            None
        } else {
            Some(true)
        }
    }

    /// Sets, clears or toggles the topmost flag of the matching windows.
    /// More than one match without `all` is `MultipleWindows`. A toggle
    /// reads the current state and writes its opposite; the window may
    /// change in between. Each success reports the state written.
    pub fn handle_always_on_top(
        &self,
        windows: Vec<WindowHandle>,
        all: bool,
        toggle: bool,
        off: bool,
    ) -> (r: AppResult<Vec<Attempt<bool>>>)
        ensures
            windows@.len() == 0 ==> r matches Err(AppError::NoMatchingWindows),
            windows@.len() > 1 && !all ==> (r matches Err(AppError::MultipleWindows(n)) && n
                == windows@.len()),
            windows@.len() > 0 && (all || windows@.len() == 1) ==> (r matches Ok(atts)
                && attempts_cover(atts@, windows@, every_position(windows@.len()))
                && forall|k: int|
                0 <= k < atts@.len() ==> reports_target((#[trigger] atts@[k]).result, topmost_target(toggle, off))
                    && topmost_attempted(windows@[k], topmost_target(toggle, off), atts@[k].result)),
    {
        let target = Self::target_state(toggle, off);
        if windows.len() == 0 {
            return Err(AppError::NoMatchingWindows);
        }
        if !all && windows.len() > 1 {
            return Err(AppError::MultipleWindows(windows.len()));
        }
        let mut attempts: Vec<Attempt<bool>> = Vec::new();
        let mut k: usize = 0;
        while k < windows.len()
            invariant
                k <= windows.len(),
                target == topmost_target(toggle, off),
                attempts@.len() == k,
                attempts_cover(attempts@, windows@, every_position(windows@.len() as nat).take(k as int)),
                forall|j: int|
                    0 <= j < attempts@.len() ==> reports_target((#[trigger] attempts@[j]).result, target)
                        && topmost_attempted(windows@[j], target, attempts@[j].result),
            decreases windows.len() - k,
        {
            let w = &windows[k];
            let result: AppResult<bool> = match target {
                Some(state) => {
                    let written = w.set_always_on_top(state);
                    let ghost g = written;
                    let result = match written {
                        Ok(()) => Ok(state),
                        Err(e) => Err(e),
                    };
                    assert(w.platform_data.topmost_set(state, g) && result == stamped(g, state));
                    result
                },
                None => {
                    let read = w.is_always_on_top();
                    let ghost gr = read;
                    let result = match read {
                        Ok(current) => {
                            let written = w.set_always_on_top(!current);
                            let ghost g = written;
                            let result = match written {
                                Ok(()) => Ok(!current),
                                Err(e) => Err(e),
                            };
                            assert(w.platform_data.topmost_set(!current, g) && result == stamped(g, !current));
                            result
                        },
                        Err(e) => Err(e),
                    };
                    assert(w.platform_data.topmost_read(gr));
                    result
                },
            };
            assert(topmost_attempted(*w, target, result));
            attempts.push(Attempt { index: k, pid: w.pid, title: w.title.clone(), result });
            k = k + 1;
        }
        assert(every_position(windows@.len() as nat).take(windows@.len() as int) =~= every_position(windows@.len() as nat));
        Ok(attempts)
    }
}

/// A size written `WIDTHxHEIGHT`, each side trimmed.
pub open spec fn size_named(s: Seq<char>) -> Option<(i32, i32)> {
    let p = split(s, 'x');
    if p.len() == 2 && parsed_i32(trim(p[0])) is Some && parsed_i32(trim(p[1])) is Some {
        Some((parsed_i32(trim(p[0]))->0, parsed_i32(trim(p[1]))->0))
    } else {
        None
    }
}

/// The positive size a `WIDTHxHEIGHT` text names, if it names one.
pub open spec fn size_in_text(s: Seq<char>) -> Option<(i32, i32)> {
    match size_named(s) {
        Some((w, h)) => if w > 0 && h > 0 {
            Some((w, h))
        } else {
            None
        },
        None => None,
    }
}

/// The size a resize request asks for: from `size` when given, else from
/// `width` and `height`; none when a side is missing, unreadable or not
/// positive.
pub open spec fn requested_size(width: Option<String>, height: Option<String>, size: Option<String>) -> Option<
    (i32, i32),
> {
    match size {
        Some(s) => size_in_text(s@),
        None => if width is Some && height is Some && parsed_i32(width->0@) is Some && parsed_i32(
            height->0@,
        ) is Some && parsed_i32(width->0@)->0 > 0 && parsed_i32(height->0@)->0 > 0 {
            Some((parsed_i32(width->0@)->0, parsed_i32(height->0@)->0))
        } else {
            None
        },
    }
}

/// Each attempt holds what the backend reported for resizing its window
/// to `size` under the two position policies.
pub open spec fn resize_attempts(
    atts: Seq<Attempt<()>>,
    ws: Seq<WindowHandle>,
    size: (i32, i32),
    keep_position: bool,
    center: bool,
) -> bool {
    forall|k: int|
        0 <= k < atts.len() ==> ws[(#[trigger] atts[k]).index as int].platform_data.resized(
            size.0,
            size.1,
            keep_position,
            center,
            atts[k].result,
        )
}

/// Window resizing.
#[derive(Debug, Clone, Copy)]
pub struct ResizeFeature;

impl ResizeFeature {
    pub fn new() -> (r: Self) {
        Self
    }

    pub fn name(&self) -> (r: &'static str)
        ensures
            r@ == "resize"@,
    {
        "resize"
    }

    pub fn description(&self) -> (r: &'static str)
        ensures
            r@ == "Window resizing functionality"@,
    {
        "Window resizing functionality"
    }

    /// Needs a native window API, which this build has none of.
    pub fn is_supported(&self) -> (r: bool)
        ensures
            !r,
    {
        false
    }

    /// Reads `"WIDTHxHEIGHT"`; both sides must be positive. Anything else
    /// is `InvalidParameter`.
    pub fn parse_size(size_str: &str) -> (r: AppResult<(i32, i32)>)
        ensures
            match size_in_text(size_str@) {
                Some(v) => r == Ok::<(i32, i32), AppError>(v),
                None => r matches Err(AppError::InvalidParameter(_)),
            },
    {
        let parts = split_chars(&chars_of(size_str), 'x');
        if parts.len() != 2 {
            return Err(AppError::invalid_parameter("Invalid size format. Expected 'WIDTHxHEIGHT'"));
        }
        let width = match parse_i32(&trim_chars(&parts[0])) {
            Some(v) => v,
            None => {
                return Err(AppError::invalid_parameter("Invalid width"));
            },
        };
        let height = match parse_i32(&trim_chars(&parts[1])) {
            Some(v) => v,
            None => {
                return Err(AppError::invalid_parameter("Invalid height"));
            },
        };
        if width <= 0 || height <= 0 {
            return Err(AppError::invalid_parameter("Width and height must be positive values"));
        }
        Ok((width, height))
    }

    /// The requested size, from `size` when given, else from `width` and
    /// `height`; a missing, unreadable or non-positive side is `InvalidParameter`.
    pub fn target_size(width: &Option<String>, height: &Option<String>, size: &Option<String>) -> (r:
        AppResult<(i32, i32)>)
        ensures
            match requested_size(*width, *height, *size) {
                Some(v) => r == Ok::<(i32, i32), AppError>(v),
                None => r matches Err(AppError::InvalidParameter(_)),
            },
    {
        if let Some(size_str) = size {
            return Self::parse_size(size_str.as_str());
        }
        let w = match width {
            None => {
                return Err(AppError::invalid_parameter("Width is required"));
            },
            Some(s) => match parse_i32(&chars_of(s.as_str())) {
                Some(v) => v,
                None => {
                    return Err(AppError::invalid_parameter("Invalid width value"));
                },
            },
        };
        let h = match height {
            None => {
                return Err(AppError::invalid_parameter("Height is required"));
            },
            Some(s) => match parse_i32(&chars_of(s.as_str())) {
                Some(v) => v,
                None => {
                    return Err(AppError::invalid_parameter("Invalid height value"));
                },
            },
        };
        if w <= 0 || h <= 0 {
            return Err(AppError::invalid_parameter("Width and height must be positive values"));
        }
        Ok((w, h))
    }

    /// Resizes each targeted window; the size is read first, then an empty
    /// window list is `NoMatchingWindows`.
    pub fn handle_resize(
        &self,
        windows: Vec<WindowHandle>,
        all: bool,
        index: Option<String>,
        width: Option<String>,
        height: Option<String>,
        size: Option<String>,
        keep_position: bool,
        center: bool,
        sort_position: PositionSort,
    ) -> (r: AppResult<Vec<Attempt<()>>>)
        ensures
            requested_size(width, height, size) is None ==> r matches Err(AppError::InvalidParameter(_)),
            requested_size(width, height, size) is Some && windows@.len() == 0 ==> r matches Err(
                AppError::NoMatchingWindows,
            ),
            requested_size(width, height, size) is Some && windows@.len() > 0 ==> (r matches Ok(atts)
                && attempts_cover(
                atts@,
                sort_result(windows@, SortOrder::Unordered, sort_position),
                targets(windows@.len(), indices_named(index_text(index), windows@.len() as usize), all),
            ) && resize_attempts(
                atts@,
                sort_result(windows@, SortOrder::Unordered, sort_position),
                requested_size(width, height, size)->0,
                keep_position,
                center,
            )),
    {
        let (target_width, target_height) = match Self::target_size(&width, &height, &size) {
            Ok(v) => v,
            Err(e) => {
                return Err(e);
            },
        };
        if windows.len() == 0 {
            return Err(AppError::NoMatchingWindows);
        }
        let mut windows = windows;
        let ts = sorted_targets(&mut windows, all, &index, &sort_position);
        let mut attempts: Vec<Attempt<()>> = Vec::new();
        let mut k: usize = 0;
        while k < ts.len()
            invariant
                k <= ts.len(),
                forall|j: int| 0 <= j < ts@.len() ==> ts@[j] < windows@.len(),
                attempts@.len() == k,
                attempts_cover(attempts@, windows@, ts@.take(k as int)),
                resize_attempts(attempts@, windows@, (target_width, target_height), keep_position, center),
            decreases ts.len() - k,
        {
            let w = &windows[ts[k]];
            let result = w.resize(target_width, target_height, keep_position, center);
            attempts.push(Attempt { index: ts[k], pid: w.pid, title: w.title.clone(), result });
            k = k + 1;
        }
        assert(ts@.take(ts@.len() as int) =~= ts@);
        Ok(attempts)
    }
}

proof fn lemma_positions_len(
    n: usize,
    position: Option<String>,
    layout: Seq<char>,
    x_start: Option<String>,
    y_start: Option<String>,
    x_step: Option<String>,
    y_step: Option<String>,
)
    ensures
        positions_for(n, position, layout, x_start, y_start, x_step, y_step) matches Some(ps) ==> ps.len() == n,
{
}

/// Each attempt holds what the backend reported for moving its window to
/// the position `ps` gives for that window.
pub open spec fn move_attempts(atts: Seq<Attempt<()>>, ws: Seq<WindowHandle>, ps: Seq<(i32, i32)>) -> bool {
    forall|k: int|
        0 <= k < atts.len() ==> ws[(#[trigger] atts[k]).index as int].platform_data.moved(
            ps[atts[k].index as int].0,
            ps[atts[k].index as int].1,
            atts[k].result,
        )
}

/// Window positioning with layouts.
#[derive(Debug, Clone, Copy)]
pub struct PositionSetFeature;

impl PositionSetFeature {
    pub fn new() -> (r: Self) {
        Self
    }

    pub fn name(&self) -> (r: &'static str)
        ensures
            r@ == "position_set"@,
    {
        "position_set"
    }

    pub fn description(&self) -> (r: &'static str)
        ensures
            r@ == "Window position setting with layout support"@,
    {
        "Window position setting with layout support"
    }

    /// Needs a native window API, which this build has none of.
    pub fn is_supported(&self) -> (r: bool)
        ensures
            !r,
    {
        false
    }

    /// Which of `count` sorted windows goes where: validates that exactly
    /// one layout mode is given, computes one position per window, and
    /// pairs each targeted window with its own position.
    pub fn plan_positions(
        count: usize,
        all: bool,
        position: &Option<String>,
        index: &Option<String>,
        layout: &Option<String>,
        x_start: &Option<String>,
        y_start: &Option<String>,
        x_step: &Option<String>,
        y_step: &Option<String>,
    ) -> (r: AppResult<Vec<(usize, (i32, i32))>>)
        ensures
            modes_given(*position, *layout, *x_start, *y_start, *x_step, *y_step) != 1
                ==> r matches Err(AppError::InvalidParameter(_)),
            modes_given(*position, *layout, *x_start, *y_start, *x_step, *y_step) == 1
                && positions_for(count, *position, layout_text(*layout), *x_start, *y_start, *x_step, *y_step) is None
                ==> r matches Err(AppError::InvalidParameter(_)),
            modes_given(*position, *layout, *x_start, *y_start, *x_step, *y_step) == 1 ==> (
            positions_for(count, *position, layout_text(*layout), *x_start, *y_start, *x_step, *y_step) matches Some(ps)
                ==> (r matches Ok(plan) && {
                let ts = targets(count as nat, indices_named(index_text(*index), count), all);
                &&& plan@.len() == ts.len()
                &&& forall|k: int| 0 <= k < plan@.len() ==> (#[trigger] plan@[k]).0 == ts[k] && ts[k] < count && plan@[k].1 == ps[ts[k] as int]
            })),
    {
        let indices = match index {
            Some(s) => parse_indices(s.as_str(), count),
            None => parse_indices("", count),
        };
        proof {
            reveal_strlit("");
        }
        match validate_position_parameters(position, layout, x_start, y_start, x_step, y_step) {
            Ok(()) => {},
            Err(m) => {
                return Err(AppError::InvalidParameter(m));
            },
        }
        let layout_str = match layout {
            Some(s) => s.as_str(),
            None => "",
        };
        let positions = match calculate_positions(count, position, layout_str, x_start, y_start, x_step, y_step) {
            Ok(v) => v,
            Err(m) => {
                return Err(AppError::InvalidParameter(m));
            },
        };
        proof {
            lemma_positions_len(count, *position, layout_text(*layout), *x_start, *y_start, *x_step, *y_step);
        }
        let ts = select_targets(count, &indices, all);
        proof {
            lemma_targets_below(count as nat, indices@, all);
        }
        let mut plan: Vec<(usize, (i32, i32))> = Vec::new();
        let mut k: usize = 0;
        while k < ts.len()
            invariant
                k <= ts.len(),
                positions@.len() == count,
                forall|j: int| 0 <= j < ts@.len() ==> #[trigger] ts@[j] < count,
                plan@.len() == k,
                forall|j: int| 0 <= j < k ==> (#[trigger] plan@[j]).0 == ts@[j] && plan@[j].1 == positions@[ts@[j] as int],
            decreases ts.len() - k,
        {
            let t = ts[k];
            plan.push((t, positions[t]));
            k = k + 1;
        }
        Ok(plan)
    }

    /// Moves each targeted window to its planned position; an empty window
    /// list is `NoMatchingWindows`.
    pub fn handle_position_set(
        &self,
        windows: Vec<WindowHandle>,
        all: bool,
        position: Option<String>,
        index: Option<String>,
        layout: Option<String>,
        x_start: Option<String>,
        y_start: Option<String>,
        x_step: Option<String>,
        y_step: Option<String>,
        sort_position: PositionSort,
    ) -> (r: AppResult<Vec<Attempt<()>>>)
        ensures
            windows@.len() == 0 ==> r matches Err(AppError::NoMatchingWindows),
            windows@.len() > 0 && modes_given(position, layout, x_start, y_start, x_step, y_step) != 1
                ==> r matches Err(AppError::InvalidParameter(_)),
            windows@.len() > 0 && modes_given(position, layout, x_start, y_start, x_step, y_step) == 1
                && positions_for(windows@.len() as usize, position, layout_text(layout), x_start, y_start, x_step, y_step) is None
                ==> r matches Err(AppError::InvalidParameter(_)),
            windows@.len() > 0 && modes_given(position, layout, x_start, y_start, x_step, y_step) == 1
                && positions_for(windows@.len() as usize, position, layout_text(layout), x_start, y_start, x_step, y_step) is Some
                ==> (r matches Ok(atts) && attempts_cover(
                atts@,
                sort_result(windows@, SortOrder::Unordered, sort_position),
                targets(windows@.len(), indices_named(index_text(index), windows@.len() as usize), all),
            ) && move_attempts(
                atts@,
                sort_result(windows@, SortOrder::Unordered, sort_position),
                positions_for(windows@.len() as usize, position, layout_text(layout), x_start, y_start, x_step, y_step)->0,
            )),
    {
        if windows.len() == 0 {
            return Err(AppError::NoMatchingWindows);
        }
        let ghost orig = windows@;
        let mut windows = windows;
        apply_window_handle_sorting(&mut windows, &SortOrder::Unordered, &sort_position);
        proof {
            lemma_sorted_len(orig, sort_position);
        }
        let plan = match Self::plan_positions(
            windows.len(),
            all,
            &position,
            &index,
            &layout,
            &x_start,
            &y_start,
            &x_step,
            &y_step,
        ) {
            Ok(p) => p,
            Err(e) => {
                return Err(e);
            },
        };
        let mut attempts: Vec<Attempt<()>> = Vec::new();
        let mut k: usize = 0;
        while k < plan.len()
            invariant
                k <= plan.len(),
                forall|j: int| 0 <= j < plan@.len() ==> #[trigger] plan@[j].0 < windows@.len(),
                attempts@.len() == k,
                attempts_cover(attempts@, windows@, plan@.map_values(|p: (usize, (i32, i32))| p.0).take(k as int)),
                forall|j: int| 0 <= j < k ==> windows@[(#[trigger] attempts@[j]).index as int].platform_data.moved(
                    (plan@[j].1).0,
                    (plan@[j].1).1,
                    attempts@[j].result,
                ),
            decreases plan.len() - k,
        {
            let (t, (x, y)) = plan[k];
            let w = &windows[t];
            let result = w.set_position(x, y);
            attempts.push(Attempt { index: t, pid: w.pid, title: w.title.clone(), result });
            k = k + 1;
        }
        assert(plan@.map_values(|p: (usize, (i32, i32))| p.0).take(plan@.len() as int) =~= plan@.map_values(|p: (usize, (i32, i32))| p.0));
        Ok(attempts)
    }
}

} // verus!
