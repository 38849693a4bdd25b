//! Uncombining taskbar buttons.
//!
//! Windows groups windows that share an AppUserModelID (AUMID) under one
//! taskbar button. Giving every window its own AUMID,
//! `TaskbarSwitcher_<window handle>`, gives it a button of its own. The
//! original AUMID of each window is kept so that it can be restored on exit.
//! The caller reads and writes the AUMIDs of windows; this module keeps the
//! record and decides what to write.

use vstd::prelude::*;
use std::collections::HashMap;
use crate::text::{push_signed_decimal, signed_decimal, lemma_signed_decimal_injective};

verus! {

broadcast use vstd::std_specs::hash::group_hash_axioms;

/// The AUMID given to the window with handle `hwnd`.
pub open spec fn uncombined_aumid(hwnd: isize) -> Seq<char> {
    "TaskbarSwitcher_"@ + signed_decimal(hwnd as int)
}

/// The AUMIDs to write back on exit: each window whose original AUMID was
/// recorded, with that AUMID (windows that had none are left alone).
pub open spec fn restorations(m: Map<isize, Option<String>>) -> Set<(isize, String)> {
    Set::new(|p: (isize, String)| m.contains_key(p.0) && m[p.0] == Some(p.1))
}

/// The record after uncombining `ws` in order, each window not yet
/// recorded getting its current AUMID recorded.
pub open spec fn record_after(m: Map<isize, Option<String>>, ws: Seq<WindowAumid>) -> Map<isize, Option<String>>
    decreases ws.len(),
{
    if ws.len() == 0 {
        m
    } else {
        let before = record_after(m, ws.drop_last());
        if before.contains_key(ws.last().hwnd) {
            before
        } else {
            before.insert(ws.last().hwnd, ws.last().original)
        }
    }
}

/// The windows of `ws` that get a new AUMID, in order: those not yet
/// recorded when their turn comes.
pub open spec fn assigned_after(m: Map<isize, Option<String>>, ws: Seq<WindowAumid>) -> Seq<isize>
    decreases ws.len(),
{
    if ws.len() == 0 {
        Seq::empty()
    } else {
        let before = record_after(m, ws.drop_last());
        if before.contains_key(ws.last().hwnd) {
            assigned_after(m, ws.drop_last())
        } else {
            assigned_after(m, ws.drop_last()).push(ws.last().hwnd)
        }
    }
}

/// A window to uncombine, with the AUMID it has now.
pub struct WindowAumid {
    pub hwnd: isize,
    pub original: Option<String>,
}

/// An AUMID to write to a window.
pub struct AumidAssignment {
    pub hwnd: isize,
    pub aumid: String,
}

/// The original AUMIDs of the windows uncombined so far, by window handle
/// (`None` for a window that had no AUMID).
pub struct UncombineManager {
    original_aumids: HashMap<isize, Option<String>>,
}

impl View for UncombineManager {
    type V = Map<isize, Option<String>>;

    closed spec fn view(&self) -> Map<isize, Option<String>> {
        self.original_aumids@
    }
}

/// Renders the AUMID given to window `hwnd`.
fn aumid_for(hwnd: isize) -> (r: String)
    ensures
        r@ == uncombined_aumid(hwnd),
{
    let mut r = String::from_str("TaskbarSwitcher_");
    push_signed_decimal(&mut r, hwnd as i64);
    r
}

impl UncombineManager {
    /// No window uncombined yet.
    pub fn new() -> (r: UncombineManager)
        ensures
            r@ == Map::<isize, Option<String>>::empty(),
    {
        UncombineManager { original_aumids: HashMap::new() }
    }

    /// Whether the window has been uncombined (its original AUMID is
    /// recorded).
    pub fn is_tracked(&self, hwnd: isize) -> (r: bool)
        ensures
            r == self@.contains_key(hwnd),
    {
        self.original_aumids.contains_key(&hwnd)
    }

    /// Uncombines a newly shown window: unless it is already tracked,
    /// records its original AUMID and returns the AUMID to give it.
    pub fn uncombine_one(&mut self, hwnd: isize, original: Option<String>) -> (r: Option<String>)
        ensures
            old(self)@.contains_key(hwnd) ==> r is None && final(self)@ == old(self)@,
            !old(self)@.contains_key(hwnd) ==> (r matches Some(a) && a@ == uncombined_aumid(hwnd)
                && final(self)@ == old(self)@.insert(hwnd, original)),
    {
        if self.original_aumids.contains_key(&hwnd) {
            return None;
        }
        let aumid = aumid_for(hwnd);
        self.original_aumids.insert(hwnd, original);
        Some(aumid)
    }

    /// Uncombines every window of `windows` (the visible windows), in
    /// order, skipping those already tracked; returns the AUMIDs to write,
    /// in the same order.
    pub fn uncombine_all(&mut self, windows: Vec<WindowAumid>) -> (r: Vec<AumidAssignment>)
        ensures
            final(self)@ == record_after(old(self)@, windows@),
            r@.map_values(|a: AumidAssignment| a.hwnd) == assigned_after(old(self)@, windows@),
            forall|k: int| 0 <= k < r@.len() ==> (#[trigger] r@[k]).aumid@ == uncombined_aumid(r@[k].hwnd),
    {
        let ghost m0 = self@;
        let mut r: Vec<AumidAssignment> = Vec::new();
        let mut windows = windows;
        let ghost w0 = windows@;
        let n = windows.len();
        let mut i: usize = 0;
        while i < n
            invariant
                n == w0.len(),
                i <= n,
                windows@ == w0.skip(i as int),
                self@ == record_after(m0, w0.take(i as int)),
                r@.map_values(|a: AumidAssignment| a.hwnd) == assigned_after(m0, w0.take(i as int)),
                forall|k: int| 0 <= k < r@.len() ==> (#[trigger] r@[k]).aumid@ == uncombined_aumid(r@[k].hwnd),
            decreases n - i,
        {
            let w = windows.remove(0);
            assert(w == w0[i as int]);
            assert(windows@ =~= w0.skip(i + 1));
            assert(w0.take(i + 1).drop_last() =~= w0.take(i as int));
            let hwnd = w.hwnd;
            match self.uncombine_one(hwnd, w.original) {
                Some(aumid) => {
                    r.push(AumidAssignment { hwnd, aumid });
                },
                None => {},
            }
            i = i + 1;
            assert(r@.map_values(|a: AumidAssignment| a.hwnd) =~= assigned_after(m0, w0.take(i as int)));
        }
        assert(w0.take(n as int) =~= w0);
        r
    }

    /// The original AUMIDs to write back on exit, one per window that had
    /// an AUMID; windows that had none are skipped.
    pub fn restore_all(&self) -> (r: Vec<AumidAssignment>)
        ensures
            forall|h: isize, a: String| #[trigger] restorations(self@).contains((h, a)) <==> exists|
                k: int,
            | 0 <= k < r@.len() && r@[k].hwnd == h && r@[k].aumid == a,
            forall|k1: int, k2: int|
                0 <= k1 < k2 < r@.len() ==> #[trigger] r@[k1].hwnd != #[trigger] r@[k2].hwnd,
    {
        let mut r: Vec<AumidAssignment> = Vec::new();
        let ghost mut origin: Seq<int> = Seq::empty();
        for entry in it: self.original_aumids.iter()
            invariant
                it.seq().no_duplicates(),
                forall|q: int|
                    0 <= q < it.seq().len() ==> self@.contains_key(*(#[trigger] it.seq()[q]).0)
                        && self@[*it.seq()[q].0] == *it.seq()[q].1,
                forall|k: int|
                    0 <= k < r@.len() ==> self@.contains_key(#[trigger] r@[k].hwnd) && self@[r@[k].hwnd]
                        == Some(r@[k].aumid),
                origin.len() == r@.len(),
                forall|k: int|
                    0 <= k < r@.len() ==> 0 <= #[trigger] origin[k] < it.index() && r@[k].hwnd
                        == *it.seq()[origin[k]].0,
                forall|k1: int, k2: int|
                    0 <= k1 < k2 < r@.len() ==> #[trigger] r@[k1].hwnd != #[trigger] r@[k2].hwnd,
                forall|q: int|
                    0 <= q < it.index() && (#[trigger] it.seq()[q]).1 is Some ==> exists|k: int|
                        0 <= k < r@.len() && r@[k].hwnd == *it.seq()[q].0 && Some(r@[k].aumid)
                            == *it.seq()[q].1,
        {
            let ghost idx = it.index();
            assert(entry == it.seq()[idx as int]);
            let ghost r_before = r@;
            let (hwnd, original) = entry;
            match original {
                Some(aumid) => {
                    proof {
                        assert forall|k: int| 0 <= k < r_before.len() implies r_before[k].hwnd
                            != *it.seq()[idx as int].0 by {
                            let q = origin[k];
                            if r_before[k].hwnd == *it.seq()[idx as int].0 {
                                assert(it.seq()[q] == it.seq()[idx as int]);
                            }
                        }
                        origin = origin.push(idx as int);
                    }
                    r.push(AumidAssignment { hwnd: *hwnd, aumid: aumid.clone() });
                    assert(r@[r@.len() - 1].hwnd == *hwnd);
                },
                None => {},
            }
            assert forall|q: int|
                0 <= q < idx + 1 && (#[trigger] it.seq()[q]).1 is Some implies exists|k: int|
                    0 <= k < r@.len() && r@[k].hwnd == *it.seq()[q].0 && Some(r@[k].aumid)
                        == *it.seq()[q].1 by {
                if q < idx {
                    let k = choose|k: int|
                        0 <= k < r_before.len() && r_before[k].hwnd == *it.seq()[q].0 && Some(
                            r_before[k].aumid,
                        ) == *it.seq()[q].1;
                    assert(r@[k] == r_before[k]);
                } else {
                    assert(r@[r@.len() - 1].hwnd == *it.seq()[q].0);
                }
            }
        }
        r
    }
}

/// Windows with different handles get different AUMIDs, so no two
/// uncombined windows share a taskbar button.
pub proof fn uncombined_aumids_distinct(a: isize, b: isize)
    requires
        a != b,
    ensures
        uncombined_aumid(a) != uncombined_aumid(b),
{
    let p = "TaskbarSwitcher_"@;
    if uncombined_aumid(a) == uncombined_aumid(b) {
        assert(signed_decimal(a as int) =~= uncombined_aumid(a).skip(p.len() as int));
        assert(signed_decimal(b as int) =~= uncombined_aumid(b).skip(p.len() as int));
        lemma_signed_decimal_injective(a as int, b as int);
    }
}

/// Uncombining an untracked window and then restoring gives back its
/// original AUMID (nothing, if it had none), leaving the other
/// restorations as they were; uncombining a tracked window changes nothing.
pub proof fn restore_undoes_uncombine(m: Map<isize, Option<String>>, hwnd: isize, original: Option<String>)
    ensures
        !m.contains_key(hwnd) ==> restorations(m.insert(hwnd, original)) == (match original {
            Some(a) => restorations(m).insert((hwnd, a)),
            None => restorations(m),
        }),
{
    if !m.contains_key(hwnd) {
        let m2 = m.insert(hwnd, original);
        match original {
            Some(a) => {
                assert(restorations(m2) =~= restorations(m).insert((hwnd, a)));
            },
            None => {
                assert(restorations(m2) =~= restorations(m));
            },
        }
    }
}

} // verus!
