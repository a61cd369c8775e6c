use std::cmp::Ordering;
use vstd::prelude::*;
use vstd::string::StringExecFns;
use crate::text::{chars_of, split, split_chars, string_from_chars};

verus! {

/// Direction of one ordering criterion.
#[derive(Debug, Clone, Copy, PartialEq, Eq, Structural)]
pub enum SortOrder {
    Ascending,
    Descending,
    Unordered,
}

impl Default for SortOrder {
    fn default() -> (r: Self)
        ensures
            r == SortOrder::Unordered,
    {
        SortOrder::Unordered
    }
}

/// The order a command-line token names: `1`, `-1` or `0`.
pub open spec fn order_named(s: Seq<char>) -> Option<SortOrder> {
    if s == seq!['1'] {
        Some(SortOrder::Ascending)
    } else if s == seq!['-', '1'] {
        Some(SortOrder::Descending)
    } else if s == seq!['0'] {
        Some(SortOrder::Unordered)
    } else {
        None
    }
}

impl SortOrder {
    /// Reads `1` (ascending), `-1` (descending) or `0` (none).
    pub fn from_chars(c: &Vec<char>) -> (r: Result<SortOrder, String>)
        ensures
            match order_named(c@) {
                Some(o) => r == Ok::<SortOrder, String>(o),
                None => r is Err,
            },
    {
        if c.len() == 1 && c[0] == '1' {
            assert(c@ =~= seq!['1']);
            Ok(SortOrder::Ascending)
        } else if c.len() == 2 && c[0] == '-' && c[1] == '1' {
            assert(c@ =~= seq!['-', '1']);
            Ok(SortOrder::Descending)
        } else if c.len() == 1 && c[0] == '0' {
            assert(c@ =~= seq!['0']);
            Ok(SortOrder::Unordered)
        } else {
            proof {
                if c@ == seq!['1'] || c@ == seq!['-', '1'] || c@ == seq!['0'] {
                    assert(c@.len() == 1 || c@.len() == 2);
                }
            }
            let mut m = String::from_str("Invalid sort order: ");
            m.append(string_from_chars(c).as_str());
            m.append(". Use 1 (ascending), -1 (descending), or 0 (none)");
            Err(m)
        }
    }

    pub open spec fn is_none(self) -> bool {
        self == SortOrder::Unordered
    }
}

impl std::str::FromStr for SortOrder {
    type Err = String;

    fn from_str(s: &str) -> Result<Self, Self::Err> {
        SortOrder::from_chars(&chars_of(s))
    }
}

/// Ordering by window position: X first, then Y on ties.
#[derive(Debug, Clone, Copy)]
pub struct PositionSort {
    pub x_order: SortOrder,
    pub y_order: SortOrder,
}

impl Default for PositionSort {
    fn default() -> (r: Self)
        ensures
            r.x_order == SortOrder::Ascending,
            r.y_order == SortOrder::Ascending,
    {
        PositionSort { x_order: SortOrder::Ascending, y_order: SortOrder::Ascending }
    }
}

/// The position ordering that `X_ORDER|Y_ORDER` names.
pub open spec fn position_sort_named(s: Seq<char>) -> Option<(SortOrder, SortOrder)> {
    let parts = split(s, '|');
    if parts.len() == 2 && order_named(parts[0]) is Some && order_named(parts[1]) is Some {
        Some((order_named(parts[0])->0, order_named(parts[1])->0))
    } else {
        None
    }
}

impl PositionSort {
    pub open spec fn active(self) -> bool {
        !self.x_order.is_none() || !self.y_order.is_none()
    }

    /// Fails when neither axis is ordered.
    pub fn validate(&self) -> (r: Result<(), String>)
        ensures
            r is Ok <==> self.active(),
    {
        if matches!(self.x_order, SortOrder::Unordered) && matches!(self.y_order, SortOrder::Unordered) {
            return Err(String::from_str("PositionSort must have at least one non-None ordering"));
        }
        Ok(())
    }

    pub fn is_active(&self) -> (r: bool)
        ensures
            r == self.active(),
    {
        !matches!(self.x_order, SortOrder::Unordered) || !matches!(self.y_order, SortOrder::Unordered)
    }

    /// Reads `X_ORDER|Y_ORDER`, e.g. `1|-1`.
    pub fn from_chars(c: &Vec<char>) -> (r: Result<PositionSort, String>)
        ensures
            match position_sort_named(c@) {
                Some((x, y)) => r matches Ok(p) && p.x_order == x && p.y_order == y,
                None => r is Err,
            },
    {
        let parts = split_chars(c, '|');
        if parts.len() != 2 {
            return Err(
                String::from_str("Position sort format should be X_ORDER|Y_ORDER, e.g., 1|-1"),
            );
        }
        let x_order = match SortOrder::from_chars(&parts[0]) {
            Ok(o) => o,
            Err(e) => {
                return Err(e);
            },
        };
        let y_order = match SortOrder::from_chars(&parts[1]) {
            Ok(o) => o,
            Err(e) => {
                return Err(e);
            },
        };
        Ok(PositionSort { x_order, y_order })
    }
}

impl std::str::FromStr for PositionSort {
    type Err = String;

    fn from_str(s: &str) -> Result<Self, Self::Err> {
        PositionSort::from_chars(&chars_of(s))
    }
}

/// A full sort request.
#[derive(Debug)]
pub struct SortConfig {
    pub pid: SortOrder,
    pub position: PositionSort,
    pub fallback_to_title: bool,
}

impl Clone for SortConfig {
    fn clone(&self) -> (r: Self)
        ensures
            r == *self,
    {
        SortConfig { pid: self.pid, position: self.position, fallback_to_title: self.fallback_to_title }
    }
}

impl Default for SortConfig {
    fn default() -> (r: Self)
        ensures
            r.pid == SortOrder::Unordered,
            r.position.x_order == SortOrder::Ascending,
            r.position.y_order == SortOrder::Ascending,
            r.fallback_to_title,
    {
        SortConfig { pid: SortOrder::Unordered, position: PositionSort::default(), fallback_to_title: true }
    }
}

/// Builds a sort request from a PID order token and a position order token.
pub fn create_sort_config(pid_order: &str, position_order: &str) -> (r: Result<SortConfig, String>)
    ensures
        match (order_named(pid_order@), position_sort_named(position_order@)) {
            (Some(p), Some((x, y))) => r matches Ok(c) && c.pid == p && c.position.x_order == x
                && c.position.y_order == y && c.fallback_to_title,
            _ => r is Err,
        },
{
    let pid = match SortOrder::from_chars(&chars_of(pid_order)) {
        Ok(o) => o,
        Err(e) => {
            return Err(e);
        },
    };
    let position = match PositionSort::from_chars(&chars_of(position_order)) {
        Ok(p) => p,
        Err(e) => {
            return Err(e);
        },
    };
    Ok(SortConfig { pid, position, fallback_to_title: true })
}


/// What the sorting engine reads of an item: its owning process id, its
/// top-left corner where one is known, and its title.
pub trait Sortable {
    spec fn spec_pid(&self) -> u32;

    spec fn spec_position(&self) -> Option<(i32, i32)>;

    spec fn spec_title(&self) -> Seq<char>;

    fn get_pid(&self) -> (r: u32)
        ensures
            r == self.spec_pid(),
    ;

    fn get_position(&self) -> (r: Option<(i32, i32)>)
        ensures
            r == self.spec_position(),
    ;

    fn get_title(&self) -> (r: &str)
        ensures
            r@ == self.spec_title(),
    ;
}

pub open spec fn reversed(o: Ordering) -> Ordering {
    match o {
        Ordering::Less => Ordering::Greater,
        Ordering::Equal => Ordering::Equal,
        Ordering::Greater => Ordering::Less,
    }
}

pub open spec fn int_order(a: int, b: int) -> Ordering {
    if a < b {
        Ordering::Less
    } else if a == b {
        Ordering::Equal
    } else {
        Ordering::Greater
    }
}

/// Lexicographic order of two strings, character by character.
pub open spec fn text_order(a: Seq<char>, b: Seq<char>) -> Ordering
    decreases a.len(),
{
    if a.len() == 0 {
        if b.len() == 0 {
            Ordering::Equal
        } else {
            Ordering::Less
        }
    } else if b.len() == 0 {
        Ordering::Greater
    } else if (a[0] as u32) != (b[0] as u32) {
        int_order(a[0] as u32 as int, b[0] as u32 as int)
    } else {
        text_order(a.drop_first(), b.drop_first())
    }
}

/// An ordering seen through a direction: kept, flipped, or ignored.
pub open spec fn directed(o: Ordering, order: SortOrder) -> Ordering {
    match order {
        SortOrder::Ascending => o,
        SortOrder::Descending => reversed(o),
        SortOrder::Unordered => Ordering::Equal,
    }
}

pub open spec fn position_order(a: (i32, i32), b: (i32, i32), sp: PositionSort) -> Ordering {
    let cx = if !sp.x_order.is_none() {
        directed(int_order(a.0 as int, b.0 as int), sp.x_order)
    } else {
        Ordering::Equal
    };
    if cx == Ordering::Equal && !sp.y_order.is_none() {
        directed(int_order(a.1 as int, b.1 as int), sp.y_order)
    } else {
        cx
    }
}

/// The order of two items: by position where both have one, else by
/// title (when an X order is asked for, in its direction); remaining ties
/// go to the PID order.
pub open spec fn item_order<T: Sortable>(a: T, b: T, pid: SortOrder, sp: PositionSort) -> Ordering {
    let first = if a.spec_position() is Some && b.spec_position() is Some {
        position_order(a.spec_position()->0, b.spec_position()->0, sp)
    } else if !sp.x_order.is_none() {
        directed(text_order(a.spec_title(), b.spec_title()), sp.x_order)
    } else {
        Ordering::Equal
    };
    if first != Ordering::Equal {
        first
    } else {
        directed(int_order(a.spec_pid() as int, b.spec_pid() as int), pid)
    }
}

/// Places `x` into `s` after every element that does not order after it.
pub open spec fn insert_ordered<T: Sortable>(s: Seq<T>, x: T, pid: SortOrder, sp: PositionSort) -> Seq<T>
    decreases s.len(),
{
    if s.len() == 0 {
        seq![x]
    } else if item_order(s.last(), x, pid, sp) == Ordering::Greater {
        insert_ordered(s.drop_last(), x, pid, sp).push(s.last())
    } else {
        s.push(x)
    }
}

/// Stable insertion sort of `s` under `item_order`.
pub open spec fn stable_sorted<T: Sortable>(s: Seq<T>, pid: SortOrder, sp: PositionSort) -> Seq<T>
    decreases s.len(),
{
    if s.len() == 0 {
        s
    } else {
        insert_ordered(stable_sorted(s.drop_last(), pid, sp), s.last(), pid, sp)
    }
}

pub open spec fn no_ordering(pid: SortOrder, sp: PositionSort) -> bool {
    pid.is_none() && sp.x_order.is_none() && sp.y_order.is_none()
}

/// What sorting does to a list: nothing when no order is asked for, else a
/// stable sort.
pub open spec fn sort_result<T: Sortable>(s: Seq<T>, pid: SortOrder, sp: PositionSort) -> Seq<T> {
    if no_ordering(pid, sp) {
        s
    } else {
        stable_sorted(s, pid, sp)
    }
}

pub fn should_skip_sorting(sort_pid: &SortOrder, sort_position: &PositionSort) -> (r: bool)
    ensures
        r == no_ordering(*sort_pid, *sort_position),
{
    matches!(sort_pid, SortOrder::Unordered) && matches!(sort_position.x_order, SortOrder::Unordered)
        && matches!(sort_position.y_order, SortOrder::Unordered)
}

fn compare_ints(a: i64, b: i64) -> (r: Ordering)
    ensures
        r == int_order(a as int, b as int),
{
    if a < b {
        Ordering::Less
    } else if a == b {
        Ordering::Equal
    } else {
        Ordering::Greater
    }
}

pub fn adjust_ordering(ordering: Ordering, sort_order: SortOrder) -> (r: Ordering)
    ensures
        r == directed(ordering, sort_order),
{
    match sort_order {
        SortOrder::Ascending => ordering,
        SortOrder::Descending => match ordering {
            Ordering::Less => Ordering::Greater,
            Ordering::Equal => Ordering::Equal,
            Ordering::Greater => Ordering::Less,
        },
        SortOrder::Unordered => Ordering::Equal,
    }
}

pub fn compare_pids(pid_a: u32, pid_b: u32, sort_order: &SortOrder) -> (r: Ordering)
    ensures
        r == directed(int_order(pid_a as int, pid_b as int), *sort_order),
{
    adjust_ordering(compare_ints(pid_a as i64, pid_b as i64), *sort_order)
}

pub fn compare_positions(a: (i32, i32), b: (i32, i32), sort_position: &PositionSort) -> (r: Ordering)
    ensures
        r == position_order(a, b, *sort_position),
{
    let mut cmp = Ordering::Equal;
    if !matches!(sort_position.x_order, SortOrder::Unordered) {
        cmp = adjust_ordering(compare_ints(a.0 as i64, b.0 as i64), sort_position.x_order);
    }
    if matches!(cmp, Ordering::Equal) && !matches!(sort_position.y_order, SortOrder::Unordered) {
        cmp = adjust_ordering(compare_ints(a.1 as i64, b.1 as i64), sort_position.y_order);
    }
    cmp
}

/// Lexicographic comparison of two titles.
pub fn compare_titles(a: &str, b: &str) -> (r: Ordering)
    ensures
        r == text_order(a@, b@),
{
    let ca = chars_of(a);
    let cb = chars_of(b);
    let mut i: usize = 0;
    assert(a@.subrange(0, a@.len() as int) =~= a@);
    assert(b@.subrange(0, b@.len() as int) =~= b@);
    while i < ca.len() && i < cb.len() && (ca[i] as u32) == (cb[i] as u32)
        invariant
            i <= ca.len(),
            i <= cb.len(),
            ca@ == a@,
            cb@ == b@,
            text_order(a@, b@) == text_order(a@.subrange(i as int, a@.len() as int), b@.subrange(i as int, b@.len() as int)),
        decreases ca.len() - i,
    {
        proof {
            let sa = a@.subrange(i as int, a@.len() as int);
            let sb = b@.subrange(i as int, b@.len() as int);
            assert(sa.drop_first() =~= a@.subrange(i + 1, a@.len() as int));
            assert(sb.drop_first() =~= b@.subrange(i + 1, b@.len() as int));
        }
        i = i + 1;
    }
    if i == ca.len() {
        if i == cb.len() {
            Ordering::Equal
        } else {
            Ordering::Less
        }
    } else if i == cb.len() {
        Ordering::Greater
    } else {
        compare_ints(ca[i] as u32 as i64, cb[i] as u32 as i64)
    }
}

pub fn compare_items<T: Sortable>(a: &T, b: &T, sort_pid: &SortOrder, sort_position: &PositionSort) -> (r: Ordering)
    ensures
        r == item_order(*a, *b, *sort_pid, *sort_position),
{
    if let (Some(pos_a), Some(pos_b)) = (a.get_position(), b.get_position()) {
        let position_cmp = compare_positions(pos_a, pos_b, sort_position);
        if !matches!(position_cmp, Ordering::Equal) {
            return position_cmp;
        }
    } else if !matches!(sort_position.x_order, SortOrder::Unordered) {
        let title_cmp = compare_titles(a.get_title(), b.get_title());
        let adjusted_cmp = adjust_ordering(title_cmp, sort_position.x_order);
        if !matches!(adjusted_cmp, Ordering::Equal) {
            return adjusted_cmp;
        }
    }
    compare_pids(a.get_pid(), b.get_pid(), sort_pid)
}

/// Sorts `items` in place, stably; leaves them untouched when no order is asked for.
pub fn apply_optimized_sorting<T: Sortable>(
    items: &mut Vec<T>,
    sort_pid: &SortOrder,
    sort_position: &PositionSort,
)
    ensures
        final(items)@ == sort_result(old(items)@, *sort_pid, *sort_position),
        no_ordering(*sort_pid, *sort_position) ==> final(items)@ == old(items)@,
{
    if should_skip_sorting(sort_pid, sort_position) {
        return;
    }
    let ghost orig = items@;
    let n = items.len();
    let mut i: usize = 0;
    while i < n
        invariant
            i <= n == items.len() == orig.len(),
            items@.subrange(0, i as int) == stable_sorted(orig.subrange(0, i as int), *sort_pid, *sort_position),
            items@.subrange(i as int, n as int) == orig.subrange(i as int, n as int),
        decreases n - i,
    {
        let ghost prefix = items@.subrange(0, i as int);
        assert(items@.subrange(i as int, n as int)[0] == items@[i as int]);
        let ghost before = items@;
        let x = items.remove(i);
        assert(items@.subrange(0, i as int) =~= prefix);
        assert(x == orig[i as int]);
        let ghost rest = items@;
        assert(prefix.subrange(0, i as int) =~= prefix);
        assert(insert_ordered(prefix, x, *sort_pid, *sort_position) + prefix.subrange(i as int, i as int)
            =~= insert_ordered(prefix, x, *sort_pid, *sort_position));
        let mut j: usize = i;
        while j > 0 && matches!(compare_items(&items[j - 1], &x, sort_pid, sort_position), Ordering::Greater)
            invariant
                j <= i < n,
                items@ == rest,
                rest.len() + 1 == n,
                rest.subrange(0, i as int) == prefix,
                insert_ordered(prefix, x, *sort_pid, *sort_position) == insert_ordered(prefix.subrange(0, j as int), x, *sort_pid, *sort_position) + prefix.subrange(j as int, i as int),
            decreases j,
        {
            proof {
                let p = prefix.subrange(0, j as int);
                assert(p.last() == items@[j - 1]);
                assert(p.drop_last() =~= prefix.subrange(0, j - 1));
                assert(prefix.subrange(j - 1, i as int) =~= seq![p.last()] + prefix.subrange(j as int, i as int));
                assert(insert_ordered(prefix.subrange(0, j - 1), x, *sort_pid, *sort_position).push(p.last()) + prefix.subrange(j as int, i as int)
                    =~= insert_ordered(prefix.subrange(0, j - 1), x, *sort_pid, *sort_position) + prefix.subrange(j - 1, i as int));
            }
            j = j - 1;
        }
        items.insert(j, x);
        proof {
            let p = prefix.subrange(0, j as int);
            if j > 0 {
                assert(p.last() == items@[j - 1]);
                assert(insert_ordered(p, x, *sort_pid, *sort_position) == p.push(x));
            } else {
                assert(p =~= Seq::<T>::empty());
            }
            assert(orig.subrange(0, i + 1).drop_last() =~= orig.subrange(0, i as int));
            assert(orig.subrange(0, i + 1).last() == x);
            assert(items@.subrange(0, i + 1) =~= insert_ordered(p, x, *sort_pid, *sort_position) + prefix.subrange(j as int, i as int));
            assert forall|k: int| i + 1 <= k < n implies items@[k] == orig[k] by {
                assert(items@[k] == rest[k - 1]);
                assert(rest[k - 1] == before[k]);
                assert(before.subrange(i as int, n as int)[k - i] == before[k]);
                assert(orig.subrange(i as int, n as int)[k - i] == orig[k]);
            }
            assert(items@.subrange(i + 1, n as int) =~= orig.subrange(i + 1, n as int));
        }
        i = i + 1;
    }
    assert(items@ =~= items@.subrange(0, n as int));
    assert(orig =~= orig.subrange(0, n as int));
}


/// Sorts `items` in place under the PID and position orders.
pub fn apply_sorting<T: Sortable>(items: &mut Vec<T>, sort_pid: &SortOrder, sort_position: &PositionSort)
    ensures
        final(items)@ == sort_result(old(items)@, *sort_pid, *sort_position),
        no_ordering(*sort_pid, *sort_position) ==> final(items)@ == old(items)@,
{
    apply_optimized_sorting(items, sort_pid, sort_position);
}

/// Sorts `items` in place under the orders of `config`.
pub fn apply_sorting_with_config<T: Sortable>(items: &mut Vec<T>, config: &SortConfig)
    ensures
        final(items)@ == sort_result(old(items)@, config.pid, config.position),
{
    apply_sorting(items, &config.pid, &config.position);
}

/// Sorts windows with geometry in place.
pub fn apply_window_sorting(
    windows: &mut Vec<crate::types::WindowInfo>,
    sort_pid: &SortOrder,
    sort_position: &PositionSort,
)
    ensures
        final(windows)@ == sort_result(old(windows)@, *sort_pid, *sort_position),
        no_ordering(*sort_pid, *sort_position) ==> final(windows)@ == old(windows)@,
{
    apply_optimized_sorting(windows, sort_pid, sort_position);
}

/// Sorts window handles in place; handles carry no geometry, so a position
/// order falls back to the titles.
pub fn apply_window_handle_sorting(
    windows: &mut Vec<crate::platform::WindowHandle>,
    sort_pid: &SortOrder,
    sort_position: &PositionSort,
)
    ensures
        final(windows)@ == sort_result(old(windows)@, *sort_pid, *sort_position),
        no_ordering(*sort_pid, *sort_position) ==> final(windows)@ == old(windows)@,
{
    apply_optimized_sorting(windows, sort_pid, sort_position);
}

/// No item orders after a later one.
pub open spec fn is_ordered<T: Sortable>(s: Seq<T>, pid: SortOrder, sp: PositionSort) -> bool {
    forall|i: int, j: int|
        0 <= i < j < s.len() ==> item_order(#[trigger] s[i], #[trigger] s[j], pid, sp) != Ordering::Greater
}

/// Either every item carries a position or none does (a list of windows
/// with geometry, or a list of bare handles).
pub open spec fn uniform_positions<T: Sortable>(s: Seq<T>) -> bool {
    forall|i: int, j: int|
        0 <= i < s.len() && 0 <= j < s.len() ==> (#[trigger] s[i].spec_position() is Some) == (
        #[trigger] s[j].spec_position() is Some)
}

proof fn lemma_text_equal(a: Seq<char>, b: Seq<char>)
    ensures
        text_order(a, b) == Ordering::Equal <==> a == b,
        text_order(b, a) == reversed(text_order(a, b)),
    decreases a.len(),
{
    if a.len() > 0 && b.len() > 0 {
        vstd::utf8::char_u32_cast(a[0], a[0] as u32);
        vstd::utf8::char_u32_cast(b[0], b[0] as u32);
    }
    if a.len() > 0 && b.len() > 0 && (a[0] as u32) == (b[0] as u32) {
        lemma_text_equal(a.drop_first(), b.drop_first());
        if a.drop_first() == b.drop_first() {
            assert(a =~= seq![a[0]] + a.drop_first());
            assert(b =~= seq![b[0]] + b.drop_first());
        }
    }
    if a == b && a.len() > 0 {
        assert(a.drop_first() == b.drop_first());
    }
    if a.len() == 0 && b.len() == 0 {
        assert(a =~= b);
    }
}

proof fn lemma_text_less_trans(a: Seq<char>, b: Seq<char>, c: Seq<char>)
    requires
        text_order(a, b) == Ordering::Less,
        text_order(b, c) == Ordering::Less,
    ensures
        text_order(a, c) == Ordering::Less,
    decreases a.len(),
{
    if a.len() > 0 && b.len() > 0 && c.len() > 0 && (a[0] as u32) == (b[0] as u32) && (b[0] as u32)
        == (c[0] as u32) {
        lemma_text_less_trans(a.drop_first(), b.drop_first(), c.drop_first());
    }
}

proof fn lemma_item_order_antisym<T: Sortable>(a: T, b: T, pid: SortOrder, sp: PositionSort)
    ensures
        item_order(b, a, pid, sp) == reversed(item_order(a, b, pid, sp)),
{
    lemma_text_equal(a.spec_title(), b.spec_title());
}

proof fn lemma_item_order_trans<T: Sortable>(a: T, b: T, c: T, pid: SortOrder, sp: PositionSort)
    requires
        (a.spec_position() is Some) == (b.spec_position() is Some),
        (b.spec_position() is Some) == (c.spec_position() is Some),
        item_order(a, b, pid, sp) != Ordering::Greater,
        item_order(b, c, pid, sp) != Ordering::Greater,
    ensures
        item_order(a, c, pid, sp) != Ordering::Greater,
{
    let (ta, tb, tc) = (a.spec_title(), b.spec_title(), c.spec_title());
    lemma_text_equal(ta, tb);
    lemma_text_equal(tb, tc);
    lemma_text_equal(ta, tc);
    if text_order(ta, tb) == Ordering::Less && text_order(tb, tc) == Ordering::Less {
        lemma_text_less_trans(ta, tb, tc);
    }
    if text_order(tb, ta) == Ordering::Less && text_order(tc, tb) == Ordering::Less {
        lemma_text_less_trans(tc, tb, ta);
    }
}

proof fn lemma_insert_keeps<T: Sortable>(s: Seq<T>, x: T, pid: SortOrder, sp: PositionSort, p: spec_fn(T) -> bool)
    requires
        p(x),
        forall|i: int| 0 <= i < s.len() ==> p(#[trigger] s[i]),
    ensures
        insert_ordered(s, x, pid, sp).len() == s.len() + 1,
        forall|k: int| 0 <= k < s.len() + 1 ==> p(#[trigger] insert_ordered(s, x, pid, sp)[k]),
    decreases s.len(),
{
    if s.len() > 0 && item_order(s.last(), x, pid, sp) == Ordering::Greater {
        lemma_insert_keeps(s.drop_last(), x, pid, sp, p);
    }
}

proof fn lemma_sorted_keeps<T: Sortable>(s: Seq<T>, pid: SortOrder, sp: PositionSort, p: spec_fn(T) -> bool)
    requires
        forall|i: int| 0 <= i < s.len() ==> p(#[trigger] s[i]),
    ensures
        stable_sorted(s, pid, sp).len() == s.len(),
        forall|k: int| 0 <= k < s.len() ==> p(#[trigger] stable_sorted(s, pid, sp)[k]),
    decreases s.len(),
{
    if s.len() > 0 {
        lemma_sorted_keeps(s.drop_last(), pid, sp, p);
        lemma_insert_keeps(stable_sorted(s.drop_last(), pid, sp), s.last(), pid, sp, p);
    }
}

proof fn lemma_insert_ordered<T: Sortable>(s: Seq<T>, x: T, pid: SortOrder, sp: PositionSort)
    requires
        is_ordered(s, pid, sp),
        forall|i: int| 0 <= i < s.len() ==> (#[trigger] s[i].spec_position() is Some) == (x.spec_position() is Some),
    ensures
        is_ordered(insert_ordered(s, x, pid, sp), pid, sp),
    decreases s.len(),
{
    if s.len() == 0 {
        return;
    }
    let last = s.last();
    let r = insert_ordered(s, x, pid, sp);
    if item_order(last, x, pid, sp) == Ordering::Greater {
        let s2 = s.drop_last();
        lemma_insert_ordered(s2, x, pid, sp);
        lemma_item_order_antisym(last, x, pid, sp);
        let p = |e: T| item_order(e, last, pid, sp) != Ordering::Greater;
        assert forall|i: int| 0 <= i < s2.len() implies p(#[trigger] s2[i]) by {
            assert(s2[i] == s[i]);
        }
        lemma_insert_keeps(s2, x, pid, sp, p);
        let r2 = insert_ordered(s2, x, pid, sp);
        assert(r == r2.push(last));
        assert forall|i: int, j: int| 0 <= i < j < r.len() implies item_order(
            #[trigger] r[i],
            #[trigger] r[j],
            pid,
            sp,
        ) != Ordering::Greater by {
            if j < r.len() - 1 {
                assert(r[i] == r2[i] && r[j] == r2[j]);
            } else {
                assert(p(r2[i]));
            }
        }
    } else {
        assert(r == s.push(x));
        assert forall|i: int, j: int| 0 <= i < j < r.len() implies item_order(
            #[trigger] r[i],
            #[trigger] r[j],
            pid,
            sp,
        ) != Ordering::Greater by {
            if j == r.len() - 1 && i < s.len() - 1 {
                assert(item_order(s[i], s[s.len() - 1], pid, sp) != Ordering::Greater);
                lemma_item_order_trans(s[i], last, x, pid, sp);
            }
        }
    }
}

proof fn lemma_stable_sorted_ordered<T: Sortable>(s: Seq<T>, pid: SortOrder, sp: PositionSort)
    requires
        uniform_positions(s),
    ensures
        is_ordered(stable_sorted(s, pid, sp), pid, sp),
    decreases s.len(),
{
    if s.len() > 0 {
        let s2 = s.drop_last();
        assert(uniform_positions(s2)) by {
            assert forall|i: int, j: int| 0 <= i < s2.len() && 0 <= j < s2.len() implies (
            #[trigger] s2[i].spec_position() is Some) == (#[trigger] s2[j].spec_position() is Some) by {
                assert(s2[i] == s[i] && s2[j] == s[j]);
            }
        }
        lemma_stable_sorted_ordered(s2, pid, sp);
        let b = s.last().spec_position() is Some;
        let p = |e: T| (e.spec_position() is Some) == b;
        assert forall|i: int| 0 <= i < s2.len() implies p(#[trigger] s2[i]) by {
            assert(s2[i] == s[i]);
            assert(s[i].spec_position() is Some == s[s.len() - 1].spec_position() is Some);
        }
        lemma_sorted_keeps(s2, pid, sp, p);
        let t = stable_sorted(s2, pid, sp);
        assert forall|i: int| 0 <= i < t.len() implies (#[trigger] t[i].spec_position() is Some) == (
        s.last().spec_position() is Some) by {
            assert(p(t[i]));
        }
        lemma_insert_ordered(t, s.last(), pid, sp);
    }
}

proof fn lemma_ordered_unchanged<T: Sortable>(s: Seq<T>, pid: SortOrder, sp: PositionSort)
    requires
        is_ordered(s, pid, sp),
    ensures
        stable_sorted(s, pid, sp) == s,
    decreases s.len(),
{
    if s.len() > 0 {
        let s2 = s.drop_last();
        assert(is_ordered(s2, pid, sp)) by {
            assert forall|i: int, j: int| 0 <= i < j < s2.len() implies item_order(
                #[trigger] s2[i],
                #[trigger] s2[j],
                pid,
                sp,
            ) != Ordering::Greater by {
                assert(s2[i] == s[i] && s2[j] == s[j]);
            }
        }
        lemma_ordered_unchanged(s2, pid, sp);
        if s2.len() > 0 {
            assert(item_order(s[s.len() - 2], s[s.len() - 1], pid, sp) != Ordering::Greater);
        }
        assert(s2.push(s.last()) =~= s);
    }
}

/// Sorting a sorted list changes nothing: for every list whose items all
/// carry a position, or all carry none, and every sort request,
/// `sort(sort(L)) == sort(L)`.
pub proof fn lemma_sort_idempotent<T: Sortable>(s: Seq<T>, pid: SortOrder, sp: PositionSort)
    requires
        uniform_positions(s),
    ensures
        sort_result(sort_result(s, pid, sp), pid, sp) == sort_result(s, pid, sp),
{
    if !no_ordering(pid, sp) {
        lemma_stable_sorted_ordered(s, pid, sp);
        lemma_ordered_unchanged(stable_sorted(s, pid, sp), pid, sp);
    }
}

/// Sorting windows with geometry twice gives what sorting them once gives.
pub proof fn lemma_window_sort_idempotent(
    s: Seq<crate::types::WindowInfo>,
    pid: SortOrder,
    sp: PositionSort,
)
    ensures
        sort_result(sort_result(s, pid, sp), pid, sp) == sort_result(s, pid, sp),
{
    lemma_sort_idempotent(s, pid, sp);
}

/// Sorting window handles twice gives what sorting them once gives.
pub proof fn lemma_handle_sort_idempotent(
    s: Seq<crate::platform::WindowHandle>,
    pid: SortOrder,
    sp: PositionSort,
)
    ensures
        sort_result(sort_result(s, pid, sp), pid, sp) == sort_result(s, pid, sp),
{
    lemma_sort_idempotent(s, pid, sp);
}

/// The sort result is in order: no item orders after a later one.
pub proof fn lemma_sort_ordered<T: Sortable>(s: Seq<T>, pid: SortOrder, sp: PositionSort)
    requires
        uniform_positions(s),
        !no_ordering(pid, sp),
    ensures
        is_ordered(sort_result(s, pid, sp), pid, sp),
{
    lemma_stable_sorted_ordered(s, pid, sp);
}

} // verus!
