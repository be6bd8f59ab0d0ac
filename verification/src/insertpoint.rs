//! Points in the executable at which the debugger can be asked to stop the
//! debuggee.

use vstd::prelude::*;

verus! {

/// A place in the executable where something can be inserted.
#[derive(Debug)]
pub struct Point {
    /// Link-time address of the instruction.
    pub addr: u64,
    /// Whether the point is armed.
    pub enabled: bool,
    /// Line, counted from 1, of the source file that owns the address.
    pub line_number: u64,
}

impl Point {
    /// A point at `addr`, armed.
    pub fn new(addr: u64, line_number: u64) -> (p: Self)
        ensures
            p.addr == addr,
            p.line_number == line_number,
            p.enabled,
    {
        Point { addr, enabled: true, line_number }
    }
}

/// What can be switched on and off at a point.
pub trait InsertPoint {
    /// Whether it is switched on.
    spec fn is_enabled(&self) -> bool;

    /// Whether it is switched on.
    fn enabled(&self) -> (on: bool)
        ensures
            on == self.is_enabled(),
    ;

    /// Switches it on or off.
    fn set_enable(&mut self, enable: bool)
        ensures
            final(self).is_enabled() == enable,
    ;
}

/// A breakpoint. Its identity is the address of its point.
#[derive(Debug)]
pub struct BreakPoint {
    /// Where the breakpoint lies.
    pub point: Point,
}

impl BreakPoint {
    /// The breakpoint at `point`.
    pub fn new(point: Point) -> (b: Self)
        ensures
            b.point == point,
    {
        BreakPoint { point }
    }
}

impl InsertPoint for BreakPoint {
    open spec fn is_enabled(&self) -> bool {
        self.point.enabled
    }

    fn enabled(&self) -> (on: bool) {
        self.point.enabled
    }

    fn set_enable(&mut self, enable: bool)
        ensures
            final(self).point.addr == old(self).point.addr,
            final(self).point.line_number == old(self).point.line_number,
    {
        self.point.enabled = enable;
    }
}

/// The index of the first of the first `n` breakpoints that lies at `addr`;
/// -1 if none does.
pub open spec fn breakpoint_at(list: Seq<BreakPoint>, addr: u64, n: int) -> int
    decreases n,
{
    if n <= 0 {
        -1
    } else {
        let earlier = breakpoint_at(list, addr, n - 1);
        if earlier >= 0 {
            earlier
        } else if list[n - 1].point.addr == addr {
            n - 1
        } else {
            -1
        }
    }
}

/// Whether no two breakpoints of the list lie at the same address.
pub open spec fn distinct_breakpoints(list: Seq<BreakPoint>) -> bool {
    forall|i: int, j: int|
        0 <= i < j < list.len() ==> (#[trigger] list[i]).point.addr != (
        #[trigger] list[j]).point.addr
}

/// What `breakpoint_at` finds lies at the address, and no breakpoint before
/// it does.
pub proof fn lemma_breakpoint_at(list: Seq<BreakPoint>, addr: u64, n: int)
    requires
        0 <= n <= list.len(),
    ensures
        -1 <= breakpoint_at(list, addr, n) < n,
        breakpoint_at(list, addr, n) >= 0 ==> list[breakpoint_at(list, addr, n)].point.addr == addr,
        forall|i: int|
            0 <= i < n && (breakpoint_at(list, addr, n) < 0 || i < breakpoint_at(list, addr, n))
                ==> (#[trigger] list[i]).point.addr != addr,
    decreases n,
{
    if n > 0 {
        lemma_breakpoint_at(list, addr, n - 1);
    }
}

/// Once `breakpoint_at` has found a breakpoint, it finds the same one among
/// more breakpoints.
pub proof fn lemma_breakpoint_at_stays(list: Seq<BreakPoint>, addr: u64, n: int, m: int)
    requires
        0 <= n <= m,
        breakpoint_at(list, addr, n) >= 0,
    ensures
        breakpoint_at(list, addr, m) == breakpoint_at(list, addr, n),
    decreases m - n,
{
    if n < m {
        lemma_breakpoint_at_stays(list, addr, n, m - 1);
    }
}

/// The index of the first breakpoint at `addr`.
pub fn find_breakpoint(list: &Vec<BreakPoint>, addr: u64) -> (found: Option<usize>)
    ensures
        match found {
            Some(index) => index == breakpoint_at(list@, addr, list@.len() as int) && index
                < list@.len(),
            None => breakpoint_at(list@, addr, list@.len() as int) < 0,
        },
{
    let mut i: usize = 0;
    while i < list.len()
        invariant
            i <= list@.len(),
            breakpoint_at(list@, addr, i as int) < 0,
        decreases list@.len() - i,
    {
        if list[i].point.addr == addr {
            proof {
                lemma_breakpoint_at_stays(list@, addr, i as int + 1, list@.len() as int);
            }
            return Some(i);
        }
        i = i + 1;
    }
    None
}

/// Puts an armed breakpoint at `addr` behind the others, unless one lies
/// there already. The answer says whether a breakpoint was added.
pub fn add_breakpoint(list: &mut Vec<BreakPoint>, addr: u64, line_number: u64) -> (added: bool)
    requires
        distinct_breakpoints(old(list)@),
    ensures
        distinct_breakpoints(final(list)@),
        added == (breakpoint_at(old(list)@, addr, old(list)@.len() as int) < 0),
        added ==> final(list)@ == old(list)@.push(
            BreakPoint { point: Point { addr: addr, enabled: true, line_number: line_number } },
        ),
        !added ==> final(list)@ == old(list)@,
{
    proof {
        lemma_breakpoint_at(list@, addr, list@.len() as int);
    }
    match find_breakpoint(list, addr) {
        Some(_) => false,
        None => {
            list.push(BreakPoint::new(Point::new(addr, line_number)));
            true
        },
    }
}

/// Arms the breakpoint at `addr` if it is disarmed and disarms it if it is
/// armed. The answer is whether it is armed afterwards, or `None` where no
/// breakpoint lies at `addr`; then nothing changes.
pub fn toggle_breakpoint(list: &mut Vec<BreakPoint>, addr: u64) -> (armed: Option<bool>)
    requires
        distinct_breakpoints(old(list)@),
    ensures
        distinct_breakpoints(final(list)@),
        final(list)@.len() == old(list)@.len(),
        ({
            let index = breakpoint_at(old(list)@, addr, old(list)@.len() as int);
            if index < 0 {
                armed is None && final(list)@ == old(list)@
            } else {
                &&& armed == Some(!old(list)@[index].point.enabled)
                &&& final(list)@ == old(list)@.update(
                    index,
                    BreakPoint {
                        point: Point {
                            enabled: !old(list)@[index].point.enabled,
                            ..old(list)@[index].point
                        },
                    },
                )
            }
        }),
{
    match find_breakpoint(list, addr) {
        Some(index) => {
            let on = !list[index].point.enabled;
            let point = Point { addr: list[index].point.addr, enabled: on, line_number: list[index].point.line_number };
            list.set(index, BreakPoint { point });
            assert forall|i: int, j: int| 0 <= i < j < list@.len() implies (#[trigger] list@[i]).point.addr
                != (#[trigger] list@[j]).point.addr by {
                assert(old(list)@[i].point.addr != old(list)@[j].point.addr);
            }
            Some(on)
        },
        None => None,
    }
}

} // verus!
