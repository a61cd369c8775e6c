use vstd::prelude::*;
use crate::sorting::Sortable;
use crate::text::{
    chars_of, decimal, decimal_chars, lower_of, lowercase, occurs, occurs_in, same_chars, trim, trim_chars,
};
use crate::types::{ProcessInfo, WindowInfo};

verus! {

/// The lower-cased name of the first process in `names` with this pid, or
/// nothing when none has it.
pub open spec fn process_name_in(names: Seq<(u32, String)>, pid: u32) -> Seq<char>
    decreases names.len(),
{
    if names.len() == 0 {
        Seq::empty()
    } else if names[0].0 == pid {
        lower_of(names[0].1@)
    } else {
        process_name_in(names.drop_first(), pid)
    }
}

pub open spec fn pid_matches(pid: u32, f: Option<String>) -> bool {
    match f {
        Some(p) => decimal(pid as nat) == p@,
        None => true,
    }
}

pub open spec fn name_matches(pid: u32, f: Option<String>, names: Seq<(u32, String)>) -> bool {
    match f {
        Some(n) => occurs_in(lower_of(n@), process_name_in(names, pid)),
        None => true,
    }
}

pub open spec fn title_matches(title: Seq<char>, f: Option<String>) -> bool {
    match f {
        Some(t) => occurs_in(lower_of(t@), lower_of(title)),
        None => true,
    }
}

/// A window passes every filter that is given.
pub open spec fn selected<T: Sortable>(
    w: T,
    pf: Option<String>,
    nf: Option<String>,
    tf: Option<String>,
    names: Seq<(u32, String)>,
) -> bool {
    &&& pid_matches(w.spec_pid(), pf)
    &&& name_matches(w.spec_pid(), nf, names)
    &&& title_matches(w.spec_title(), tf)
}

/// The windows of `s` that pass every filter, in their order.
pub open spec fn kept<T: Sortable>(
    s: Seq<T>,
    pf: Option<String>,
    nf: Option<String>,
    tf: Option<String>,
    names: Seq<(u32, String)>,
) -> Seq<T>
    decreases s.len(),
{
    if s.len() == 0 {
        s
    } else if selected(s[0], pf, nf, tf, names) {
        seq![s[0]] + kept(s.drop_first(), pf, nf, tf, names)
    } else {
        kept(s.drop_first(), pf, nf, tf, names)
    }
}

fn lowered(f: &Option<String>) -> (r: Option<Vec<char>>)
    ensures
        match *f {
            Some(s) => r matches Some(v) && v@ == lower_of(s@),
            None => r is None,
        },
{
    match f {
        Some(s) => Some(chars_of(lowercase(s.as_str()).as_str())),
        None => None,
    }
}

/// The lower-cased name of the process that owns `pid`, or nothing.
pub fn process_name_lower(process_names: &Vec<(u32, String)>, pid: u32) -> (r: Vec<char>)
    ensures
        r@ == process_name_in(process_names@, pid),
{
    let mut i: usize = 0;
    assert(process_names@.subrange(0, process_names@.len() as int) =~= process_names@);
    while i < process_names.len()
        invariant
            i <= process_names.len(),
            process_name_in(process_names@, pid) == process_name_in(process_names@.subrange(i as int, process_names@.len() as int), pid),
        decreases process_names.len() - i,
    {
        let ghost rest = process_names@.subrange(i as int, process_names@.len() as int);
        assert(rest.drop_first() =~= process_names@.subrange(i + 1, process_names@.len() as int));
        if process_names[i].0 == pid {
            return chars_of(lowercase(process_names[i].1.as_str()).as_str());
        }
        i = i + 1;
    }
    Vec::new()
}

/// The windows of `items` that pass every given filter, in their order:
/// the pid written in decimal equals the pid filter, the owning process's
/// name contains the name filter and the title contains the title filter,
/// both ignoring case.
pub fn filter_windows<T: Sortable>(
    items: Vec<T>,
    pid_filter: &Option<String>,
    name_filter: &Option<String>,
    title_filter: &Option<String>,
    process_names: &Vec<(u32, String)>,
) -> (r: Vec<T>)
    ensures
        r@ == kept(items@, *pid_filter, *name_filter, *title_filter, process_names@),
{
    let ghost (pf, nf, tf, names) = (*pid_filter, *name_filter, *title_filter, process_names@);
    let pid_chars: Option<Vec<char>> = match pid_filter {
        Some(p) => Some(chars_of(p.as_str())),
        None => None,
    };
    let name_lower = lowered(name_filter);
    let title_lower = lowered(title_filter);
    let ghost orig = items@;
    let mut rest = items;
    let mut out: Vec<T> = Vec::new();
    while rest.len() > 0
        invariant
            out@ + kept(rest@, pf, nf, tf, names) == kept(orig, pf, nf, tf, names),
            pf == *pid_filter && nf == *name_filter && tf == *title_filter && names == process_names@,
            match pf { Some(s) => pid_chars matches Some(v) && v@ == s@, None => pid_chars is None },
            match nf { Some(s) => name_lower matches Some(v) && v@ == lower_of(s@), None => name_lower is None },
            match tf { Some(s) => title_lower matches Some(v) && v@ == lower_of(s@), None => title_lower is None },
        decreases rest.len(),
    {
        let ghost before = rest@;
        let w = rest.remove(0);
        assert(rest@ =~= before.drop_first());
        let pid = w.get_pid();
        let pid_ok = match &pid_chars {
            Some(p) => same_chars(&decimal_chars(pid as u64), p),
            None => true,
        };
        let name_ok = match &name_lower {
            Some(n) => occurs(n, &process_name_lower(process_names, pid)),
            None => true,
        };
        let title_ok = match &title_lower {
            Some(t) => occurs(t, &chars_of(lowercase(w.get_title()).as_str())),
            None => true,
        };
        if pid_ok && name_ok && title_ok {
            proof {
                assert(out@.push(w) + kept(rest@, pf, nf, tf, names) =~= out@ + (seq![w] + kept(rest@, pf, nf, tf, names)));
            }
            out.push(w);
        }
    }
    assert(out@ + kept(rest@, pf, nf, tf, names) =~= out@);
    out
}

/// Window classes of the desktop shell itself, which are never listed.
pub open spec fn shell_class(class_name: Seq<char>) -> bool {
    class_name == "Progman"@ || class_name == "WorkerW"@ || class_name == "Shell_TrayWnd"@
}

/// Whether an enumerated window is addressable: its title is not blank and
/// it does not belong to the desktop shell.
pub fn is_listed_window(title: &str, class_name: &str) -> (r: bool)
    ensures
        r == (trim(title@).len() > 0 && !shell_class(class_name@)),
{
    if trim_chars(&chars_of(title)).len() == 0 {
        return false;
    }
    let c = chars_of(class_name);
    let progman = chars_of("Progman");
    let worker = chars_of("WorkerW");
    let tray = chars_of("Shell_TrayWnd");
    !(same_chars(&c, &progman) || same_chars(&c, &worker) || same_chars(&c, &tray))
}

/// Each window's process id and title, in order.
pub fn window_pairs(windows: Vec<WindowInfo>) -> (r: Vec<(u32, String)>)
    ensures
        r@.len() == windows@.len(),
        forall|i: int| 0 <= i < r@.len() ==> (#[trigger] r@[i]).0 == windows@[i].pid && r@[i].1 == windows@[i].title,
{
    let mut out: Vec<(u32, String)> = Vec::new();
    let mut i: usize = 0;
    while i < windows.len()
        invariant
            i <= windows.len(),
            out@.len() == i,
            forall|k: int| 0 <= k < i ==> (#[trigger] out@[k]).0 == windows@[k].pid && out@[k].1 == windows@[k].title,
        decreases windows.len() - i,
    {
        out.push((windows[i].pid, windows[i].title.clone()));
        i = i + 1;
    }
    out
}

/// The process id and title of every visible window.
pub fn get_all_windows() -> (r: Vec<(u32, String)>)
    ensures
        r@.len() == 0,
{
    window_pairs(crate::platform::get_all_windows_with_size())
}


/// The filters combine with AND: every window that discovery keeps
/// passes the pid filter, the name filter and the title filter.
pub proof fn lemma_kept_pass_every_filter<T: Sortable>(
    s: Seq<T>,
    pf: Option<String>,
    nf: Option<String>,
    tf: Option<String>,
    names: Seq<(u32, String)>,
)
    ensures
        forall|k: int|
            0 <= k < kept(s, pf, nf, tf, names).len() ==> {
                let w = #[trigger] kept(s, pf, nf, tf, names)[k];
                &&& pid_matches(w.spec_pid(), pf)
                &&& name_matches(w.spec_pid(), nf, names)
                &&& title_matches(w.spec_title(), tf)
            },
    decreases s.len(),
{
    if s.len() > 0 {
        lemma_kept_pass_every_filter(s.drop_first(), pf, nf, tf, names);
        let rest = kept(s.drop_first(), pf, nf, tf, names);
        if selected(s[0], pf, nf, tf, names) {
            assert forall|k: int| 1 <= k < rest.len() + 1 implies (seq![s[0]] + rest)[k] == rest[k - 1] by {}
        }
    }
}

/// Discovery keeps exactly the windows that pass all three filters, in
/// their order: a window is kept if and only if its pid written in decimal
/// equals the pid filter, its process name contains the name filter and its
/// title contains the title filter, ignoring case, for each filter given.
pub proof fn lemma_kept_is_filter<T: Sortable>(
    s: Seq<T>,
    pf: Option<String>,
    nf: Option<String>,
    tf: Option<String>,
    names: Seq<(u32, String)>,
)
    ensures
        kept(s, pf, nf, tf, names) == s.filter(|w: T| selected(w, pf, nf, tf, names)),
    decreases s.len(),
{
    let pred = |w: T| selected(w, pf, nf, tf, names);
    if s.len() == 0 {
        assert(s.filter(pred) =~= s);
    } else {
        lemma_kept_is_filter(s.drop_first(), pf, nf, tf, names);
        assert(s =~= seq![s[0]] + s.drop_first());
        Seq::filter_distributes_over_add(seq![s[0]], s.drop_first(), pred);
        reveal_with_fuel(Seq::filter, 2);
        assert(seq![s[0]].drop_last() =~= Seq::<T>::empty());
        if pred(s[0]) {
            assert(seq![s[0]].filter(pred) =~= seq![s[0]]);
        } else {
            assert(seq![s[0]].filter(pred) =~= Seq::<T>::empty());
        }
    }
}

/// One filter that no window passes empties the result, whatever the
/// other two filters are.
pub proof fn lemma_unmatched_filter_empties<T: Sortable>(
    s: Seq<T>,
    pf: Option<String>,
    nf: Option<String>,
    tf: Option<String>,
    names: Seq<(u32, String)>,
)
    requires
        (forall|i: int| 0 <= i < s.len() ==> !pid_matches(#[trigger] s[i].spec_pid(), pf))
            || (forall|i: int| 0 <= i < s.len() ==> !name_matches(#[trigger] s[i].spec_pid(), nf, names))
            || (forall|i: int| 0 <= i < s.len() ==> !title_matches(#[trigger] s[i].spec_title(), tf)),
    ensures
        kept(s, pf, nf, tf, names).len() == 0,
    decreases s.len(),
{
    if s.len() > 0 {
        let t = s.drop_first();
        assert(forall|i: int| 0 <= i < t.len() ==> t[i] == s[i + 1]);
        lemma_unmatched_filter_empties(t, pf, nf, tf, names);
    }
}

/// A process passes the process-list filters: exact pid text, name and
/// title containing the filters ignoring case, and the window-presence flags.
pub open spec fn process_selected(
    p: ProcessInfo,
    pf: Option<String>,
    nf: Option<String>,
    tf: Option<String>,
    has_window_filter: bool,
    no_window_filter: bool,
) -> bool {
    &&& (pf matches Some(f) ==> p.pid@ == f@)
    &&& (nf matches Some(f) ==> occurs_in(lower_of(f@), lower_of(p.name@)))
    &&& (tf matches Some(f) ==> occurs_in(lower_of(f@), lower_of(p.title@)))
    &&& (has_window_filter ==> p.has_window)
    &&& (no_window_filter ==> !p.has_window)
}

pub open spec fn processes_kept(
    s: Seq<ProcessInfo>,
    pf: Option<String>,
    nf: Option<String>,
    tf: Option<String>,
    has_window_filter: bool,
    no_window_filter: bool,
) -> Seq<ProcessInfo>
    decreases s.len(),
{
    if s.len() == 0 {
        s
    } else {
        let rest = processes_kept(s.drop_last(), pf, nf, tf, has_window_filter, no_window_filter);
        if process_selected(s.last(), pf, nf, tf, has_window_filter, no_window_filter) {
            rest.push(s.last())
        } else {
            rest
        }
    }
}

/// The processes that pass every given filter, in their order.
pub fn filter_processes<'a>(
    processes: &'a Vec<ProcessInfo>,
    pid_filter: &Option<String>,
    name_filter: &Option<String>,
    title_filter: &Option<String>,
    has_window_filter: bool,
    no_window_filter: bool,
) -> (r: Vec<&'a ProcessInfo>)
    ensures
        r@.len() == processes_kept(processes@, *pid_filter, *name_filter, *title_filter, has_window_filter, no_window_filter).len(),
        forall|k: int| 0 <= k < r@.len() ==> *(#[trigger] r@[k]) == processes_kept(processes@, *pid_filter, *name_filter, *title_filter, has_window_filter, no_window_filter)[k],
{
    let ghost (pf, nf, tf) = (*pid_filter, *name_filter, *title_filter);
    let pid_chars: Option<Vec<char>> = match pid_filter {
        Some(p) => Some(chars_of(p.as_str())),
        None => None,
    };
    let name_lower = lowered(name_filter);
    let title_lower = lowered(title_filter);
    let mut out: Vec<&'a ProcessInfo> = Vec::new();
    let mut i: usize = 0;
    while i < processes.len()
        invariant
            i <= processes.len(),
            pf == *pid_filter && nf == *name_filter && tf == *title_filter,
            match pf { Some(s) => pid_chars matches Some(v) && v@ == s@, None => pid_chars is None },
            match nf { Some(s) => name_lower matches Some(v) && v@ == lower_of(s@), None => name_lower is None },
            match tf { Some(s) => title_lower matches Some(v) && v@ == lower_of(s@), None => title_lower is None },
            out@.len() == processes_kept(processes@.subrange(0, i as int), pf, nf, tf, has_window_filter, no_window_filter).len(),
            forall|k: int| 0 <= k < out@.len() ==> *(#[trigger] out@[k]) == processes_kept(processes@.subrange(0, i as int), pf, nf, tf, has_window_filter, no_window_filter)[k],
        decreases processes.len() - i,
    {
        assert(processes@.subrange(0, i + 1).drop_last() =~= processes@.subrange(0, i as int));
        let p = &processes[i];
        let pid_ok = match &pid_chars {
            Some(f) => same_chars(&chars_of(p.pid.as_str()), f),
            None => true,
        };
        let name_ok = match &name_lower {
            Some(f) => occurs(f, &chars_of(lowercase(p.name.as_str()).as_str())),
            None => true,
        };
        let title_ok = match &title_lower {
            Some(f) => occurs(f, &chars_of(lowercase(p.title.as_str()).as_str())),
            None => true,
        };
        let window_ok = !(has_window_filter && !p.has_window) && !(no_window_filter && p.has_window);
        if pid_ok && name_ok && title_ok && window_ok {
            out.push(p);
        }
        i = i + 1;
    }
    assert(processes@.subrange(0, processes@.len() as int) =~= processes@);
    out
}

} // verus!
