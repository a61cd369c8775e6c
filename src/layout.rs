use vstd::prelude::*;
use vstd::string::StringExecFns;
use crate::text::{
    all_digits, chars_of, decimal, digit_char, digits_value, is_digit, is_space, parse_i32, parse_usize,
    parsed_i32, parsed_usize, push_decimal, signed_decimal, split, split_chars, string_from_chars, trim, trim_chars,
    trim_end, trim_start,
};

verus! {

/// The 1-based index a comma-separated piece names, if it is one within `1..=max`.
pub open spec fn index_in_piece(p: Seq<char>, max: usize) -> Option<usize> {
    let t = trim(p);
    if t.len() == 0 {
        None
    } else {
        match parsed_usize(t) {
            Some(v) => if 1 <= v && v <= max { Some(v) } else { None },
            None => None,
        }
    }
}

pub open spec fn indices_in(pieces: Seq<Seq<char>>, max: usize) -> Seq<usize>
    decreases pieces.len(),
{
    if pieces.len() == 0 {
        Seq::empty()
    } else {
        let rest = indices_in(pieces.drop_last(), max);
        match index_in_piece(pieces.last(), max) {
            Some(v) => rest.push(v),
            None => rest,
        }
    }
}

/// The indices that `"1,2,3"`-style text names, keeping those in `1..=max`
/// and skipping empty or unreadable pieces.
pub open spec fn indices_named(s: Seq<char>, max: usize) -> Seq<usize> {
    if trim(s).len() == 0 {
        Seq::empty()
    } else {
        indices_in(split(s, ','), max)
    }
}

/// Parses an index list such as `"1,2,3"` into 1-based indices no larger
/// than `max_index`; empty pieces and out-of-range entries are dropped.
pub fn parse_indices(index_str: &str, max_index: usize) -> (r: Vec<usize>)
    ensures
        r@ == indices_named(index_str@, max_index),
{
    let c = chars_of(index_str);
    if trim_chars(&c).len() == 0 {
        return Vec::new();
    }
    let pieces = split_chars(&c, ',');
    let ghost ps = split(c@, ',');
    let mut out: Vec<usize> = Vec::new();
    let mut i: usize = 0;
    while i < pieces.len()
        invariant
            i <= pieces.len() == ps.len(),
            ps == split(index_str@, ','),
            forall|k: int| 0 <= k < pieces@.len() ==> #[trigger] pieces@[k]@ == ps[k],
            out@ == indices_in(ps.subrange(0, i as int), max_index),
        decreases pieces.len() - i,
    {
        assert(ps.subrange(0, i + 1).drop_last() =~= ps.subrange(0, i as int));
        let t = trim_chars(&pieces[i]);
        if t.len() > 0 {
            match parse_usize(&t) {
                Some(v) => {
                    if 1 <= v && v <= max_index {
                        out.push(v);
                    }
                },
                None => {},
            }
        }
        i = i + 1;
    }
    assert(ps.subrange(0, ps.len() as int) =~= ps);
    out
}

/// A coordinate pair `X,Y`, each side trimmed.
pub open spec fn position_named(s: Seq<char>) -> Option<(i32, i32)> {
    let p = split(s, ',');
    if p.len() == 2 && parsed_i32(trim(p[0])) is Some && parsed_i32(trim(p[1])) is Some {
        Some((parsed_i32(trim(p[0]))->0, parsed_i32(trim(p[1]))->0))
    } else {
        None
    }
}

/// Parses `"X,Y"` into a coordinate pair.
pub fn parse_position(position_str: &str) -> (r: Result<(i32, i32), String>)
    ensures
        match position_named(position_str@) {
            Some(p) => r == Ok::<(i32, i32), String>(p),
            None => r is Err,
        },
{
    let c = chars_of(position_str);
    let parts = split_chars(&c, ',');
    if parts.len() != 2 {
        let mut m = String::from_str("Invalid position format: ");
        m.append(position_str);
        m.append(". Expected 'X,Y'");
        return Err(m);
    }
    let x = match parse_i32(&trim_chars(&parts[0])) {
        Some(v) => v,
        None => {
            let mut m = String::from_str("Invalid X coordinate: ");
            m.append(string_from_chars(&parts[0]).as_str());
            return Err(m);
        },
    };
    let y = match parse_i32(&trim_chars(&parts[1])) {
        Some(v) => v,
        None => {
            let mut m = String::from_str("Invalid Y coordinate: ");
            m.append(string_from_chars(&parts[1]).as_str());
            return Err(m);
        },
    };
    Ok((x, y))
}

/// The `k`-th coordinate pair of a flat coordinate list.
pub open spec fn layout_pair(p: Seq<Seq<char>>, k: int) -> (i32, i32) {
    (parsed_i32(trim(p[2 * k]))->0, parsed_i32(trim(p[2 * k + 1]))->0)
}

/// Every coordinate of the list reads as an integer.
pub open spec fn layout_readable(p: Seq<Seq<char>>) -> bool {
    forall|i: int| 0 <= i < p.len() ==> (#[trigger] parsed_i32(trim(p[i]))) is Some
}

/// The pairs a flat coordinate list `X1,Y1,X2,Y2,...` names: it must hold
/// an even number of integers.
pub open spec fn layout_named(s: Seq<char>) -> Option<Seq<(i32, i32)>> {
    let p = split(s, ',');
    if p.len() % 2 == 0 && layout_readable(p) {
        Some(Seq::new((p.len() / 2) as nat, |k: int| layout_pair(p, k)))
    } else {
        None
    }
}

/// The first `window_count` pairs of a flat coordinate list.
pub open spec fn layout_result(s: Seq<char>, window_count: usize) -> Option<Seq<(i32, i32)>> {
    match layout_named(s) {
        Some(ps) => if ps.len() >= window_count { Some(ps.take(window_count as int)) } else { None },
        None => None,
    }
}

/// Parses `"X1,Y1,X2,Y2,..."` into one pair per window: an odd count or
/// an unreadable coordinate is an error, too few pairs is an error, and
/// extra pairs are dropped.
pub fn parse_layout(layout_str: &str, window_count: usize) -> (r: Result<Vec<(i32, i32)>, String>)
    ensures
        match layout_result(layout_str@, window_count) {
            Some(ps) => r matches Ok(v) && v@ == ps,
            None => r is Err,
        },
{
    let c = chars_of(layout_str);
    let coords = split_chars(&c, ',');
    let ghost p = split(c@, ',');
    if coords.len() % 2 != 0 {
        let mut m: Vec<char> = Vec::new();
        push_decimal(&mut m, coords.len() as u64);
        let mut e = String::from_str("Layout must have even number of coordinates, got ");
        e.append(string_from_chars(&m).as_str());
        return Err(e);
    }
    let mut positions: Vec<(i32, i32)> = Vec::new();
    let mut k: usize = 0;
    while k < coords.len() / 2
        invariant
            coords@.len() == p.len(),
            p.len() % 2 == 0,
            p == split(layout_str@, ','),
            forall|i: int| 0 <= i < coords@.len() ==> #[trigger] coords@[i]@ == p[i],
            k <= p.len() / 2,
            positions@.len() == k,
            forall|i: int| 0 <= i < 2 * k ==> (#[trigger] parsed_i32(trim(p[i]))) is Some,
            forall|j: int| 0 <= j < k ==> #[trigger] positions@[j] == layout_pair(p, j),
        decreases coords.len() / 2 - k,
    {
        let x = match parse_i32(&trim_chars(&coords[2 * k])) {
            Some(v) => v,
            None => {
                let mut m = String::from_str("Invalid X coordinate in layout: ");
                m.append(string_from_chars(&coords[2 * k]).as_str());
                return Err(m);
            },
        };
        let y = match parse_i32(&trim_chars(&coords[2 * k + 1])) {
            Some(v) => v,
            None => {
                let mut m = String::from_str("Invalid Y coordinate in layout: ");
                m.append(string_from_chars(&coords[2 * k + 1]).as_str());
                return Err(m);
            },
        };
        positions.push((x, y));
        k = k + 1;
    }
    if positions.len() < window_count {
        let mut need: Vec<char> = Vec::new();
        push_decimal(&mut need, window_count as u64);
        let mut got: Vec<char> = Vec::new();
        push_decimal(&mut got, positions.len() as u64);
        let mut e = String::from_str("Not enough positions in layout (need ");
        e.append(string_from_chars(&need).as_str());
        e.append(", got ");
        e.append(string_from_chars(&got).as_str());
        e.append(")");
        return Err(e);
    }
    positions.truncate(window_count);
    proof {
        let ps = Seq::new((p.len() / 2) as nat, |j: int| layout_pair(p, j));
        assert(layout_readable(p));
        assert(positions@ =~= ps.take(window_count as int));
    }
    Ok(positions)
}


pub open spec fn layout_given(layout: Option<String>) -> bool {
    layout matches Some(s) && trim(s@).len() > 0
}

pub open spec fn grid_given(
    x_start: Option<String>,
    y_start: Option<String>,
    x_step: Option<String>,
    y_step: Option<String>,
) -> bool {
    x_start is Some || y_start is Some || x_step is Some || y_step is Some
}

/// How many of the three layout modes (single position, explicit list,
/// start-and-step grid) are given.
pub open spec fn modes_given(
    position: Option<String>,
    layout: Option<String>,
    x_start: Option<String>,
    y_start: Option<String>,
    x_step: Option<String>,
    y_step: Option<String>,
) -> int {
    (if position is Some { 1int } else { 0int }) + (if layout_given(layout) { 1int } else { 0int }) + (
    if grid_given(x_start, y_start, x_step, y_step) { 1int } else { 0int })
}

/// Checks that exactly one layout mode is given.
pub fn validate_position_parameters(
    position: &Option<String>,
    layout: &Option<String>,
    x_start: &Option<String>,
    y_start: &Option<String>,
    x_step: &Option<String>,
    y_step: &Option<String>,
) -> (r: Result<(), String>)
    ensures
        r is Ok <==> modes_given(*position, *layout, *x_start, *y_start, *x_step, *y_step) == 1,
{
    let has_single_position = position.is_some();
    let has_layout = match layout {
        Some(s) => trim_chars(&chars_of(s.as_str())).len() > 0,
        None => false,
    };
    let has_grid = x_start.is_some() || y_start.is_some() || x_step.is_some() || y_step.is_some();
    let method_count: u8 = (if has_single_position { 1u8 } else { 0u8 }) + (if has_layout { 1u8 } else { 0u8 })
        + (if has_grid { 1u8 } else { 0u8 });
    if method_count == 0 {
        return Err(
            String::from_str(
                "No position method specified. Use --position, --layout, or --x-start/--y-start with steps",
            ),
        );
    }
    if method_count > 1 {
        return Err(
            String::from_str(
                "Multiple position methods specified. Use only one of --position, --layout, or grid parameters",
            ),
        );
    }
    Ok(())
}

/// A grid start or step: the given text read as an integer, else the default.
pub open spec fn grid_value(s: Option<String>, default: i32) -> i32 {
    match s {
        Some(t) => match parsed_i32(t@) {
            Some(v) => v,
            None => default,
        },
        None => default,
    }
}

/// Every grid point `(x0 + i*dx, y0 + i*dy)` for `i < n` lies in the `i32` range.
pub open spec fn grid_fits(n: int, x0: int, y0: int, dx: int, dy: int) -> bool {
    forall|i: int|
        0 <= i < n ==> i32::MIN <= #[trigger] (x0 + i * dx) <= i32::MAX && i32::MIN <= y0 + i * dy
            <= i32::MAX
}

/// The linear grid `(x0 + i*dx, y0 + i*dy)` for `i < n`.
pub open spec fn grid_points(n: int, x0: int, y0: int, dx: int, dy: int) -> Seq<(i32, i32)> {
    Seq::new(n as nat, |i: int| ((x0 + i * dx) as i32, (y0 + i * dy) as i32))
}

/// The positions the calculator yields for `n` windows, if it yields any.
pub open spec fn positions_for(
    n: usize,
    position: Option<String>,
    layout: Seq<char>,
    x_start: Option<String>,
    y_start: Option<String>,
    x_step: Option<String>,
    y_step: Option<String>,
) -> Option<Seq<(i32, i32)>> {
    if position is Some {
        match position_named(position->0@) {
            Some(p) => Some(Seq::new(n as nat, |i: int| p)),
            None => None,
        }
    } else if trim(layout).len() > 0 {
        layout_result(layout, n)
    } else if grid_given(x_start, y_start, x_step, y_step) {
        let (x0, y0) = (grid_value(x_start, 0) as int, grid_value(y_start, 0) as int);
        let (dx, dy) = (grid_value(x_step, 100) as int, grid_value(y_step, 100) as int);
        if grid_fits(n as int, x0, y0, dx, dy) {
            Some(grid_points(n as int, x0, y0, dx, dy))
        } else {
            None
        }
    } else {
        None
    }
}

fn grid_setting(s: &Option<String>, default: i32) -> (r: i32)
    ensures
        r == grid_value(*s, default),
{
    match s {
        Some(t) => match parse_i32(&chars_of(t.as_str())) {
            Some(v) => v,
            None => default,
        },
        None => default,
    }
}

/// One target position per window: the single position repeated, the
/// first `window_count` pairs of the explicit list, or the linear grid
/// `(x_start + i*x_step, y_start + i*y_step)` with starts defaulting to 0
/// and steps to 100.
pub fn calculate_positions(
    window_count: usize,
    position: &Option<String>,
    layout: &str,
    x_start: &Option<String>,
    y_start: &Option<String>,
    x_step: &Option<String>,
    y_step: &Option<String>,
) -> (r: Result<Vec<(i32, i32)>, String>)
    ensures
        match positions_for(window_count, *position, layout@, *x_start, *y_start, *x_step, *y_step) {
            Some(ps) => r matches Ok(v) && v@ == ps,
            None => r is Err,
        },
{
    if let Some(pos_str) = position {
        let (x, y) = match parse_position(pos_str.as_str()) {
            Ok(p) => p,
            Err(e) => {
                return Err(e);
            },
        };
        let mut positions: Vec<(i32, i32)> = Vec::new();
        let mut i: usize = 0;
        while i < window_count
            invariant
                i <= window_count,
                positions@ =~= Seq::new(i as nat, |k: int| (x, y)),
            decreases window_count - i,
        {
            positions.push((x, y));
            i = i + 1;
        }
        Ok(positions)
    } else if trim_chars(&chars_of(layout)).len() > 0 {
        parse_layout(layout, window_count)
    } else if x_start.is_some() || y_start.is_some() || x_step.is_some() || y_step.is_some() {
        let x0 = grid_setting(x_start, 0);
        let y0 = grid_setting(y_start, 0);
        let dx = grid_setting(x_step, 100);
        let dy = grid_setting(y_step, 100);
        let ghost n = window_count as int;
        let mut positions: Vec<(i32, i32)> = Vec::new();
        let mut cx: i64 = x0 as i64;
        let mut cy: i64 = y0 as i64;
        let mut i: usize = 0;
        while i < window_count
            invariant
                i <= window_count,
                n == window_count,
                position is None,
                trim(layout@).len() == 0,
                grid_given(*x_start, *y_start, *x_step, *y_step),
                x0 == grid_value(*x_start, 0) && y0 == grid_value(*y_start, 0),
                dx == grid_value(*x_step, 100) && dy == grid_value(*y_step, 100),
                cx == x0 + i * dx,
                cy == y0 + i * dy,
                i32::MIN <= cx <= i32::MAX || i == window_count,
                i32::MIN <= cy <= i32::MAX || i == window_count,
                forall|k: int| 0 <= k < i ==> i32::MIN <= #[trigger] (x0 + k * dx) <= i32::MAX && i32::MIN <= y0 + k * dy <= i32::MAX,
                positions@ =~= grid_points(i as int, x0 as int, y0 as int, dx as int, dy as int),
            decreases window_count - i,
        {
            positions.push((cx as i32, cy as i32));
            proof {
                assert((i + 1) * dx == i * dx + dx) by (nonlinear_arith);
                assert((i + 1) * dy == i * dy + dy) by (nonlinear_arith);
            }
            i = i + 1;
            cx = cx + dx as i64;
            cy = cy + dy as i64;
            if i < window_count && (cx < -2147483648 || cx > 2147483647 || cy < -2147483648 || cy > 2147483647) {
                proof {
                    let ii = i as int;
                    assert(!(i32::MIN <= (x0 as int) + ii * (dx as int) <= i32::MAX && i32::MIN <= (y0 as int) + ii * (dy as int) <= i32::MAX));
                    assert(!grid_fits(n, x0 as int, y0 as int, dx as int, dy as int));

                }
                return Err(String::from_str("Grid position out of range"));
            }
        }
        Ok(positions)
    } else {
        Err(String::from_str("No valid position configuration found"))
    }
}


/// The layout text as the calculator receives it: absent is empty.
pub open spec fn layout_text(layout: Option<String>) -> Seq<char> {
    match layout {
        Some(s) => s@,
        None => Seq::empty(),
    }
}

/// The data of the one given mode is usable: the single position reads,
/// the explicit list reads and covers `n` windows, or the grid stays in range.
pub open spec fn mode_data_valid(
    n: usize,
    position: Option<String>,
    layout: Option<String>,
    x_start: Option<String>,
    y_start: Option<String>,
    x_step: Option<String>,
    y_step: Option<String>,
) -> bool {
    if position is Some {
        position_named(position->0@) is Some
    } else if layout_given(layout) {
        layout_named(layout->0@) matches Some(ps) && ps.len() >= n
    } else {
        grid_fits(
            n as int,
            grid_value(x_start, 0) as int,
            grid_value(y_start, 0) as int,
            grid_value(x_step, 100) as int,
            grid_value(y_step, 100) as int,
        )
    }
}

/// The layout modes exclude one another: a single position together with
/// an explicit list never validates, no mode at all never validates, and
/// exactly one mode with usable data always yields positions.
pub proof fn lemma_layout_modes(
    n: usize,
    position: Option<String>,
    layout: Option<String>,
    x_start: Option<String>,
    y_start: Option<String>,
    x_step: Option<String>,
    y_step: Option<String>,
)
    ensures
        position is Some && layout_given(layout) ==> modes_given(position, layout, x_start, y_start, x_step, y_step) != 1,
        position is None && !layout_given(layout) && !grid_given(x_start, y_start, x_step, y_step)
            ==> modes_given(position, layout, x_start, y_start, x_step, y_step) != 1,
        modes_given(position, layout, x_start, y_start, x_step, y_step) == 1 && mode_data_valid(n, position, layout, x_start, y_start, x_step, y_step)
            ==> positions_for(n, position, layout_text(layout), x_start, y_start, x_step, y_step) is Some,
{
    assert(trim_start(Seq::<char>::empty()) == Seq::<char>::empty());
    assert(trim_end(Seq::<char>::empty()) == Seq::<char>::empty());
}

/// `ws` written one after another with `sep` between them.
pub open spec fn joined(ws: Seq<Seq<char>>, sep: char) -> Seq<char>
    decreases ws.len(),
{
    if ws.len() <= 1 {
        if ws.len() == 0 { Seq::empty() } else { ws[0] }
    } else {
        joined(ws.drop_last(), sep) + seq![sep] + ws.last()
    }
}

/// `s` holds whitespace only.
pub open spec fn blank(s: Seq<char>) -> bool {
    forall|i: int| 0 <= i < s.len() ==> is_space(#[trigger] s[i])
}

/// Integers written in decimal and separated by commas, each with the
/// whitespace of `before` and `after` around it: `"X1, Y1 ,X2,Y2"`.
pub open spec fn coordinates_text(cs: Seq<i32>, before: Seq<Seq<char>>, after: Seq<Seq<char>>) -> Seq<char> {
    joined(Seq::new(cs.len(), |i: int| before[i] + signed_decimal(cs[i] as int) + after[i]), ',')
}

proof fn lemma_split_plain(w: Seq<char>, sep: char)
    requires
        forall|i: int| 0 <= i < w.len() ==> w[i] != sep,
    ensures
        split(w, sep) == seq![w],
    decreases w.len(),
{
    if w.len() > 0 {
        lemma_split_plain(w.drop_last(), sep);
        assert(w.drop_last().push(w.last()) =~= w);
        assert(w.last() != sep);
        assert(seq![w.drop_last()].update(0, w) =~= seq![w]);
    } else {
        assert(w =~= Seq::<char>::empty());
    }
}

proof fn lemma_split_append(s: Seq<char>, w: Seq<char>, sep: char)
    requires
        forall|i: int| 0 <= i < w.len() ==> w[i] != sep,
    ensures
        split(s + seq![sep] + w, sep) == split(s, sep).push(w),
    decreases w.len(),
{
    let t = s + seq![sep] + w;
    if w.len() == 0 {
        assert(t.drop_last() =~= s);
        assert(t.last() == sep);
        assert(w =~= Seq::<char>::empty());
    } else {
        lemma_split_append(s, w.drop_last(), sep);
        assert(t.drop_last() =~= s + seq![sep] + w.drop_last());
        assert(t.last() == w.last());
        assert(w.drop_last().push(w.last()) =~= w);
        assert(w.last() != sep);
        assert(split(s, sep).push(w.drop_last()).last() == w.drop_last());
        assert(split(s, sep).push(w.drop_last()).update(split(s, sep).len() as int, w) =~= split(s, sep).push(w));
    }
}

proof fn lemma_split_joined(ws: Seq<Seq<char>>, sep: char)
    requires
        ws.len() >= 1,
        forall|i: int, j: int| 0 <= i < ws.len() && 0 <= j < ws[i].len() ==> #[trigger] ws[i][j] != sep,
    ensures
        split(joined(ws, sep), sep) == ws,
    decreases ws.len(),
{
    if ws.len() == 1 {
        lemma_split_plain(ws[0], sep);
        assert(seq![ws[0]] =~= ws);
    } else {
        let init = ws.drop_last();
        assert forall|i: int, j: int| 0 <= i < init.len() && 0 <= j < init[i].len() implies #[trigger] init[i][j] != sep by {
            assert(init[i] == ws[i]);
        }
        lemma_split_joined(init, sep);
        assert forall|j: int| 0 <= j < ws.last().len() implies ws.last()[j] != sep by {
            assert(ws[ws.len() - 1][j] != sep);
        }
        lemma_split_append(joined(init, sep), ws.last(), sep);
        assert(init.push(ws.last()) =~= ws);
    }
}

proof fn lemma_decimal(n: nat)
    ensures
        decimal(n).len() >= 1,
        all_digits(decimal(n)),
        digits_value(decimal(n)) == n,
    decreases n,
{
    let d = digit_char(n as int % 10);
    assert(is_digit(d) && d as int - '0' as int == n as int % 10);
    if n >= 10 {
        lemma_decimal(n / 10);
        let s = decimal(n);
        assert(s.drop_last() =~= decimal(n / 10));
        assert(s.last() == d);
        assert((n / 10) * 10 + n % 10 == n) by (nonlinear_arith);
        assert(digits_value(s) == digits_value(s.drop_last()) * 10 + (s.last() as int - '0' as int));
        assert(digits_value(s) == (n / 10) as int * 10 + (d as int - '0' as int));
        assert forall|i: int| 0 <= i < s.len() implies is_digit(#[trigger] s[i]) by {
            if i < s.len() - 1 {
                assert(s[i] == decimal(n / 10)[i]);
            }
        }
    } else {
        assert(decimal(n).drop_last() =~= Seq::<char>::empty());
        assert(decimal(n).last() == d);
        assert(n % 10 == n);
        assert(digits_value(decimal(n)) == digits_value(decimal(n).drop_last()) * 10 + (d as int - '0' as int));
        assert(digits_value(Seq::<char>::empty()) == 0);
    }
}

proof fn lemma_signed_decimal(v: i32)
    ensures
        parsed_i32(signed_decimal(v as int)) == Some(v),
        signed_decimal(v as int).len() >= 1,
        !is_space(signed_decimal(v as int)[0]),
        !is_space(signed_decimal(v as int).last()),
        forall|j: int| 0 <= j < signed_decimal(v as int).len() ==> #[trigger] signed_decimal(v as int)[j] != ',',
{
    let s = signed_decimal(v as int);
    if v < 0 {
        lemma_decimal((-v) as nat);
        let d = decimal((-v) as nat);
        assert(s.drop_first() =~= d);
        assert(is_digit(d[d.len() - 1]));
        assert(s.last() == d.last());
        assert(forall|j: int| 1 <= j < s.len() ==> s[j] == d[j - 1]);
    } else {
        lemma_decimal(v as nat);
        assert(is_digit(s[0]));
        assert(is_digit(s[s.len() - 1]));
    }
}

proof fn lemma_trim_start_blank(p: Seq<char>, t: Seq<char>)
    requires
        blank(p),
    ensures
        trim_start(p + t) == trim_start(t),
    decreases p.len(),
{
    if p.len() > 0 {
        assert((p + t)[0] == p[0]);
        assert((p + t).drop_first() =~= p.drop_first() + t);
        lemma_trim_start_blank(p.drop_first(), t);
    } else {
        assert(p + t =~= t);
    }
}

proof fn lemma_trim_end_blank(t: Seq<char>, p: Seq<char>)
    requires
        blank(p),
    ensures
        trim_end(t + p) == trim_end(t),
    decreases p.len(),
{
    if p.len() > 0 {
        assert((t + p).last() == p.last());
        assert((t + p).drop_last() =~= t + p.drop_last());
        lemma_trim_end_blank(t, p.drop_last());
    } else {
        assert(t + p =~= t);
    }
}

/// One padded coordinate reads back as its value and holds no comma.
proof fn lemma_padded_value(b: Seq<char>, v: i32, a: Seq<char>)
    requires
        blank(b),
        blank(a),
    ensures
        parsed_i32(trim(b + signed_decimal(v as int) + a)) == Some(v),
        forall|j: int| 0 <= j < (b + signed_decimal(v as int) + a).len() ==> #[trigger] (b + signed_decimal(v as int) + a)[j] != ',',
{
    let d = signed_decimal(v as int);
    lemma_signed_decimal(v);
    assert(b + d + a =~= b + (d + a));
    lemma_trim_start_blank(b, d + a);
    assert((d + a)[0] == d[0]);
    assert(trim_start(d + a) == d + a);
    lemma_trim_end_blank(d, a);
    assert(trim_end(d) == d);
    assert forall|j: int| 0 <= j < (b + d + a).len() implies #[trigger] (b + d + a)[j] != ',' by {
        if j < b.len() {
            assert(is_space(b[j]));
        } else if j < b.len() + d.len() {
            assert((b + d + a)[j] == d[j - b.len()]);
        } else {
            assert(is_space(a[j - b.len() - d.len()]));
        }
    }
}

/// Reading back a coordinate list: `2N` integers (N at least one) written
/// as `"X1,Y1,...,XN,YN"`, with any whitespace around each value, give
/// exactly N pairs, in the order written.
pub proof fn lemma_layout_round_trip(cs: Seq<i32>, n: usize, before: Seq<Seq<char>>, after: Seq<Seq<char>>)
    requires
        n >= 1,
        cs.len() == 2 * n,
        before.len() == cs.len(),
        after.len() == cs.len(),
        forall|i: int| 0 <= i < cs.len() ==> blank(#[trigger] before[i]) && blank(after[i]),
    ensures
        layout_result(coordinates_text(cs, before, after), n) == Some(
            Seq::new(n as nat, |k: int| (cs[2 * k], cs[2 * k + 1])),
        ),
{
    let ws = Seq::new(cs.len(), |i: int| before[i] + signed_decimal(cs[i] as int) + after[i]);
    assert forall|i: int| 0 <= i < ws.len() implies (parsed_i32(trim(#[trigger] ws[i])) == Some(cs[i])
        && forall|j: int| 0 <= j < ws[i].len() ==> ws[i][j] != ',') by {
        lemma_padded_value(before[i], cs[i], after[i]);
    }
    lemma_split_joined(ws, ',');
    let p = split(coordinates_text(cs, before, after), ',');
    assert(p == ws);
    let ps = Seq::new((p.len() / 2) as nat, |k: int| layout_pair(p, k));
    assert forall|k: int| 0 <= k < n implies #[trigger] ps[k] == (cs[2 * k], cs[2 * k + 1]) by {
        assert(parsed_i32(trim(ws[2 * k])) == Some(cs[2 * k]));
        assert(parsed_i32(trim(ws[2 * k + 1])) == Some(cs[2 * k + 1]));
    }
    assert forall|i: int| 0 <= i < p.len() implies (#[trigger] parsed_i32(trim(p[i]))) is Some by {
        assert(parsed_i32(trim(ws[i])) == Some(cs[i]));
    }
    assert(layout_readable(p));
    assert(ps.take(n as int) =~= Seq::new(n as nat, |k: int| (cs[2 * k], cs[2 * k + 1])));
}

proof fn lemma_trim_start_keeps(s: Seq<char>, i: int)
    requires
        0 <= i < s.len(),
        !is_space(s[i]),
    ensures
        exists|j: int| 0 <= j < trim_start(s).len() && !is_space(#[trigger] trim_start(s)[j]),
    decreases i,
{
    if is_space(s[0]) {
        assert(s.drop_first()[i - 1] == s[i]);
        lemma_trim_start_keeps(s.drop_first(), i - 1);
        assert(trim_start(s) == trim_start(s.drop_first()));
    } else {
        assert(trim_start(s) == s);
        assert(!is_space(trim_start(s)[i]));
    }
}

proof fn lemma_trim_end_keeps(t: Seq<char>, j: int)
    requires
        0 <= j < t.len(),
        !is_space(t[j]),
    ensures
        trim_end(t).len() > 0,
    decreases t.len(),
{
    if is_space(t.last()) {
        assert(t.drop_last()[j] == t[j]);
        lemma_trim_end_keeps(t.drop_last(), j);
    }
}

/// Text with a non-blank character stays non-blank after trimming.
proof fn lemma_trim_nonblank(s: Seq<char>, i: int)
    requires
        0 <= i < s.len(),
        !is_space(s[i]),
    ensures
        trim(s).len() > 0,
{
    lemma_trim_start_keeps(s, i);
    let j = choose|j: int| 0 <= j < trim_start(s).len() && !is_space(#[trigger] trim_start(s)[j]);
    lemma_trim_end_keeps(trim_start(s), j);
}

/// The same round trip through the calculator: with only an explicit list
/// given, `calculate_positions` yields exactly its N pairs, in order.
pub proof fn lemma_layout_positions_round_trip(
    cs: Seq<i32>,
    n: usize,
    before: Seq<Seq<char>>,
    after: Seq<Seq<char>>,
)
    requires
        n >= 1,
        cs.len() == 2 * n,
        before.len() == cs.len(),
        after.len() == cs.len(),
        forall|i: int| 0 <= i < cs.len() ==> blank(#[trigger] before[i]) && blank(after[i]),
    ensures
        positions_for(n, None, coordinates_text(cs, before, after), None, None, None, None) == Some(
            Seq::new(n as nat, |k: int| (cs[2 * k], cs[2 * k + 1])),
        ),
{
    lemma_layout_round_trip(cs, n, before, after);
    let ws = Seq::new(cs.len(), |i: int| before[i] + signed_decimal(cs[i] as int) + after[i]);
    let text = coordinates_text(cs, before, after);
    let last = ws.last();
    let b = before[cs.len() - 1];
    lemma_signed_decimal(cs[cs.len() - 1]);
    assert(last[b.len() as int] == signed_decimal(cs[cs.len() - 1] as int)[0]);
    let at = text.len() - last.len() + b.len();
    assert(text =~= joined(ws.drop_last(), ',') + seq![','] + last);
    assert(text[at] == last[b.len() as int]);
    lemma_trim_nonblank(text, at);
}

} // verus!
