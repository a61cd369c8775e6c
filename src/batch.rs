use vstd::prelude::*;
use crate::error::{AppError, AppResult};

verus! {

/// Whether the window at 0-based position `i` of the sorted list receives
/// the operation: the listed 1-based indices when any are given, else
/// every window with `all`, else only the first.
pub open spec fn targeted(i: int, indices: Seq<usize>, all: bool) -> bool {
    if indices.len() > 0 {
        exists|k: int| 0 <= k < indices.len() && indices[k] as int == i + 1
    } else {
        all || i == 0
    }
}

/// The positions below `count` that receive the operation, in order.
pub open spec fn targets(count: nat, indices: Seq<usize>, all: bool) -> Seq<usize>
    decreases count,
{
    if count == 0 {
        Seq::empty()
    } else {
        let rest = targets((count - 1) as nat, indices, all);
        if targeted(count - 1, indices, all) {
            rest.push((count - 1) as usize)
        } else {
            rest
        }
    }
}

/// Positions that receive the operation, among `count` sorted windows.
pub fn select_targets(count: usize, indices: &Vec<usize>, all: bool) -> (r: Vec<usize>)
    ensures
        r@ == targets(count as nat, indices@, all),
{
    let mut out: Vec<usize> = Vec::new();
    let mut i: usize = 0;
    while i < count
        invariant
            i <= count,
            out@ == targets(i as nat, indices@, all),
        decreases count - i,
    {
        let hit = if indices.len() > 0 {
            let mut found = false;
            let mut k: usize = 0;
            while k < indices.len()
                invariant
                    k <= indices.len(),
                    i < count,
                    found <==> exists|j: int| 0 <= j < k && indices@[j] as int == i + 1,
                decreases indices.len() - k,
            {
                if indices[k] == i + 1 {
                    found = true;
                }
                k = k + 1;
            }
            found
        } else {
            all || i == 0
        };
        if hit {
            out.push(i);
        }
        i = i + 1;
    }
    out
}

/// What happened to one window of a batch.
#[derive(Debug)]
pub struct Attempt<T> {
    pub index: usize,
    pub pid: u32,
    pub title: String,
    pub result: AppResult<T>,
}

/// How many attempts succeeded.
pub open spec fn successes<T>(s: Seq<Attempt<T>>) -> nat
    decreases s.len(),
{
    if s.len() == 0 {
        0
    } else {
        successes(s.drop_last()) + if s.last().result is Ok { 1nat } else { 0nat }
    }
}

/// The outcome of a batch: the number of windows changed, or
/// `NoWindowsModified` when none was.
pub fn tally<T>(attempts: &Vec<Attempt<T>>) -> (r: AppResult<usize>)
    ensures
        successes(attempts@) == 0 ==> r matches Err(AppError::NoWindowsModified),
        successes(attempts@) > 0 ==> (r matches Ok(n) && n == successes(attempts@)),
{
    let mut count: usize = 0;
    let mut i: usize = 0;
    while i < attempts.len()
        invariant
            i <= attempts.len(),
            count == successes(attempts@.subrange(0, i as int)),
            count <= i,
        decreases attempts.len() - i,
    {
        assert(attempts@.subrange(0, i + 1).drop_last() =~= attempts@.subrange(0, i as int));
        if attempts[i].result.is_ok() {
            count = count + 1;
        }
        i = i + 1;
    }
    assert(attempts@.subrange(0, attempts@.len() as int) =~= attempts@);
    if count == 0 {
        Err(AppError::NoWindowsModified)
    } else {
        Ok(count)
    }
}

} // verus!
