use vstd::prelude::*;
use crate::sorting::Sortable;
use crate::text::{push_signed_decimal, signed_decimal, string_from_chars};

verus! {

/// A process as the process table reports it.
#[derive(Debug)]
pub struct ProcessInfo {
    pub pid: String,
    pub name: String,
    pub title: String,
    pub memory_usage: u64,
    pub has_window: bool,
}

/// Screen geometry of a window; `x` and `y` may be negative on
/// multi-monitor setups.
#[derive(Debug, Clone, Copy, PartialEq, Eq, Structural)]
pub struct WindowRect {
    pub x: i32,
    pub y: i32,
    pub width: i32,
    pub height: i32,
}

/// `WIDTHxHEIGHT+X+Y`.
pub open spec fn rect_text(r: WindowRect) -> Seq<char> {
    signed_decimal(r.width as int) + seq!['x'] + signed_decimal(r.height as int) + seq!['+']
        + signed_decimal(r.x as int) + seq!['+'] + signed_decimal(r.y as int)
}

impl WindowRect {
    pub fn new(x: i32, y: i32, width: i32, height: i32) -> (r: Self)
        ensures
            r == (WindowRect { x, y, width, height }),
    {
        Self { x, y, width, height }
    }

    /// The geometry written as `WIDTHxHEIGHT+X+Y`.
    pub fn to_string(&self) -> (r: String)
        ensures
            r@ == rect_text(*self),
    {
        let mut c: Vec<char> = Vec::new();
        push_signed_decimal(&mut c, self.width);
        c.push('x');
        push_signed_decimal(&mut c, self.height);
        c.push('+');
        push_signed_decimal(&mut c, self.x);
        c.push('+');
        push_signed_decimal(&mut c, self.y);
        assert(c@ =~= rect_text(*self));
        string_from_chars(&c)
    }
}

/// A visible top-level window with its owning process and geometry.
#[derive(Debug)]
pub struct WindowInfo {
    pub pid: u32,
    pub title: String,
    pub rect: WindowRect,
}

impl Clone for WindowInfo {
    fn clone(&self) -> (r: Self)
        ensures
            r == *self,
    {
        WindowInfo { pid: self.pid, title: self.title.clone(), rect: self.rect }
    }
}

impl Sortable for WindowInfo {
    open spec fn spec_pid(&self) -> u32 {
        self.pid
    }

    open spec fn spec_position(&self) -> Option<(i32, i32)> {
        Some((self.rect.x, self.rect.y))
    }

    open spec fn spec_title(&self) -> Seq<char> {
        self.title@
    }

    fn get_pid(&self) -> (r: u32) {
        self.pid
    }

    fn get_position(&self) -> (r: Option<(i32, i32)>) {
        Some((self.rect.x, self.rect.y))
    }

    fn get_title(&self) -> (r: &str) {
        self.title.as_str()
    }
}

/// One window as the output formats show it.
#[derive(Debug)]
pub struct WindowOutput {
    pub pid: String,
    pub name: String,
    pub title: String,
    pub x: i32,
    pub y: i32,
    pub width: i32,
    pub height: i32,
    pub dimensions: String,
}

impl WindowOutput {
    /// The row for `window`, owned by the process called `name`.
    pub fn from_window(window: &WindowInfo, name: String) -> (r: Self)
        ensures
            r.pid@ == signed_decimal(window.pid as int),
            r.name@ == name@,
            r.title@ == window.title@,
            r.x == window.rect.x,
            r.y == window.rect.y,
            r.width == window.rect.width,
            r.height == window.rect.height,
            r.dimensions@ == rect_text(window.rect),
    {
        let mut pid: Vec<char> = Vec::new();
        crate::text::push_decimal(&mut pid, window.pid as u64);
        assert(pid@ =~= signed_decimal(window.pid as int));
        WindowOutput {
            pid: string_from_chars(&pid),
            name,
            title: window.title.clone(),
            x: window.rect.x,
            y: window.rect.y,
            width: window.rect.width,
            height: window.rect.height,
            dimensions: window.rect.to_string(),
        }
    }
}

} // verus!
