//! The walk along the chain of frame pointers of the stopped debuggee.
//!
//! The walk reads the debuggee's memory, which this library cannot do. So
//! it goes step by step: `advance` looks at the frame at hand and says which
//! two words of memory the next frame needs, and `supply` takes them.

use std::sync::Arc;
use vstd::prelude::*;
use crate::addresses::{before, offline_addr, offline_of, runtime_of, trap_addr};
use crate::line_scan::BreakableSrcLocation;
use crate::offline_debug_info::{SrcFileDebugInfo, ThinOfflineDebugInfo};
use crate::registers::DebugeeState;
use crate::subprograms::{Subprogram, SubprogramView};

verus! {

/// How many colours there are to tell subprograms apart.
pub const COLOURS: usize = 6;

/// One frame of the call stack.
#[derive(Debug)]
pub struct StackNode {
    /// The colour of the frame's subprogram: its place among all
    /// subprograms, modulo the number of colours.
    pub color_index: usize,
    /// Whether this is the frame in which the debuggee stands.
    pub selected: bool,
    /// The subprogram that the frame runs.
    pub subprogram: Subprogram,
    /// Where in the source the frame stands, if that is known.
    pub location: Option<BreakableSrcLocation>,
    /// The source file of `location`.
    pub file_hash: Option<u64>,
    /// Link-time address at which the frame stands: the trap in the frame
    /// of the stop, the call instruction in the frames above it.
    pub addr: u64,
}

/// A frame as a plain value.
pub struct StackNodeView {
    pub color_index: usize,
    pub selected: bool,
    pub subprogram: SubprogramView,
    pub location: Option<BreakableSrcLocation>,
    pub file_hash: Option<u64>,
    pub addr: u64,
}

impl View for StackNode {
    type V = StackNodeView;

    open spec fn view(&self) -> StackNodeView {
        StackNodeView {
            color_index: self.color_index,
            selected: self.selected,
            subprogram: self.subprogram@,
            location: self.location,
            file_hash: self.file_hash,
            addr: self.addr,
        }
    }
}

/// The plain values of a list of frames.
pub open spec fn frame_views(frames: Seq<StackNode>) -> Seq<StackNodeView> {
    frames.map_values(|f: StackNode| f@)
}

/// The largest of the first `n` addresses that lies below `ret`; `ret`
/// itself if none does.
pub open spec fn call_site_upto(addresses: Seq<u64>, ret: u64, n: int) -> u64
    decreases n,
{
    if n <= 0 {
        ret
    } else {
        let earlier = call_site_upto(addresses, ret, n - 1);
        let addr = addresses[n - 1];
        if addr < ret && (earlier == ret || addr > earlier) {
            addr
        } else {
            earlier
        }
    }
}

/// The address at which a frame stands. In the frame of the stop that is
/// the address `ret` of the trap. In a frame above it, `ret` is where the
/// call returns to, and the frame stands at the call: the instruction of the
/// listing with the largest address below `ret`. Without a listing, or with
/// no instruction below `ret`, it is `ret`.
pub open spec fn call_addr_of(info: ThinOfflineDebugInfo, ret: u64, innermost: bool) -> u64 {
    if innermost || info.decompiled_src is None {
        ret
    } else {
        let addresses = info.decompiled_src->0.addresses@;
        call_site_upto(addresses, ret, addresses.len() as int)
    }
}

/// The index of the first of the first `n` subprograms whose address range
/// holds both `ret` and `call`; -1 if none does.
pub open spec fn first_holding(subprograms: Seq<Subprogram>, ret: u64, call: u64, n: int) -> int
    decreases n,
{
    if n <= 0 {
        -1
    } else {
        let earlier = first_holding(subprograms, ret, call, n - 1);
        if earlier >= 0 {
            earlier
        } else if subprograms[n - 1]@.holds_addr(ret) && subprograms[n - 1]@.holds_addr(call) {
            n - 1
        } else {
            -1
        }
    }
}

/// The index of the first of the first `n` locations that lies at `addr`;
/// -1 if none does.
pub open spec fn first_at(locations: Seq<BreakableSrcLocation>, addr: u64, n: int) -> int
    decreases n,
{
    if n <= 0 {
        -1
    } else {
        let earlier = first_at(locations, addr, n - 1);
        if earlier >= 0 {
            earlier
        } else if locations[n - 1].addr == addr {
            n - 1
        } else {
            -1
        }
    }
}

/// The index of the first of the first `n` files that has a location at
/// `addr`; -1 if none has.
pub open spec fn first_file_at(files: Seq<Arc<SrcFileDebugInfo>>, addr: u64, n: int) -> int
    decreases n,
{
    if n <= 0 {
        -1
    } else {
        let earlier = first_file_at(files, addr, n - 1);
        let locations = files[n - 1].breakable_locations@;
        if earlier >= 0 {
            earlier
        } else if first_at(locations, addr, locations.len() as int) >= 0 {
            n - 1
        } else {
            -1
        }
    }
}

/// The first location at `addr` in the files, with the identity of its
/// file.
pub open spec fn location_at(files: Seq<Arc<SrcFileDebugInfo>>, addr: u64) -> Option<
    (BreakableSrcLocation, u64),
> {
    let file = first_file_at(files, addr, files.len() as int);
    if file < 0 {
        None
    } else {
        let locations = files[file].breakable_locations@;
        Some(
            (locations[first_at(locations, addr, locations.len() as int)], files[file].src_file_hash),
        )
    }
}

/// Where a frame stands in the source: the location at the address of the
/// frame or, if there is none, the location at `ret`.
pub open spec fn frame_location(info: ThinOfflineDebugInfo, call: u64, ret: u64) -> Option<
    (BreakableSrcLocation, u64),
> {
    if location_at(info.src_file_info@, call) is Some {
        location_at(info.src_file_info@, call)
    } else {
        location_at(info.src_file_info@, ret)
    }
}

/// The frame that stands at the link-time address `ret`: that of the first
/// subprogram that holds both `ret` and the address of the frame. `None`
/// where no subprogram does.
pub open spec fn frame_at(info: ThinOfflineDebugInfo, ret: u64, innermost: bool) -> Option<
    StackNodeView,
> {
    let call = call_addr_of(info, ret, innermost);
    let subprograms = info.all_subprograms@;
    let index = first_holding(subprograms, ret, call, subprograms.len() as int);
    if index < 0 {
        None
    } else {
        let location = frame_location(info, call, ret);
        Some(
            StackNodeView {
                color_index: (index % (COLOURS as int)) as usize,
                selected: false,
                subprogram: subprograms[index]@,
                location: match location {
                    Some(found) => Some(found.0),
                    None => None,
                },
                file_hash: match location {
                    Some(found) => Some(found.1),
                    None => None,
                },
                addr: call,
            },
        )
    }
}

/// `first_holding` stays within the subprograms it was asked about.
pub proof fn lemma_first_holding_bounds(subprograms: Seq<Subprogram>, ret: u64, call: u64, n: int)
    requires
        0 <= n <= subprograms.len(),
    ensures
        -1 <= first_holding(subprograms, ret, call, n) < n,
        first_holding(subprograms, ret, call, n) >= 0 ==> {
            let index = first_holding(subprograms, ret, call, n);
            subprograms[index]@.holds_addr(ret) && subprograms[index]@.holds_addr(call)
        },
    decreases n,
{
    if n > 0 {
        lemma_first_holding_bounds(subprograms, ret, call, n - 1);
    }
}

/// The address at which a frame stands.
fn find_call_addr(info: &ThinOfflineDebugInfo, ret: u64, innermost: bool) -> (call: u64)
    ensures
        call == call_addr_of(*info, ret, innermost),
{
    if innermost {
        return ret;
    }
    let listing = match &info.decompiled_src {
        Some(listing) => listing,
        None => {
            return ret;
        },
    };
    let mut call = ret;
    let mut i: usize = 0;
    while i < listing.addresses.len()
        invariant
            i <= listing.addresses@.len(),
            call == call_site_upto(listing.addresses@, ret, i as int),
        decreases listing.addresses@.len() - i,
    {
        let addr = listing.addresses[i];
        if addr < ret && (call == ret || addr > call) {
            call = addr;
        }
        i = i + 1;
    }
    call
}

/// The first subprogram that holds both addresses.
fn find_subprogram(subprograms: &Vec<Subprogram>, ret: u64, call: u64) -> (found: Option<usize>)
    ensures
        match found {
            Some(index) => index == first_holding(
                subprograms@,
                ret,
                call,
                subprograms@.len() as int,
            ),
            None => first_holding(subprograms@, ret, call, subprograms@.len() as int) < 0,
        },
{
    let mut i: usize = 0;
    while i < subprograms.len()
        invariant
            i <= subprograms@.len(),
            first_holding(subprograms@, ret, call, i as int) < 0,
        decreases subprograms@.len() - i,
    {
        if subprograms[i].holds_addr(ret) && subprograms[i].holds_addr(call) {
            proof {
                lemma_first_found_stays(subprograms@, ret, call, i as int + 1, subprograms@.len() as int);
            }
            return Some(i);
        }
        i = i + 1;
    }
    None
}

/// Once `first_holding` has found a subprogram, it finds the same one among
/// more subprograms.
pub proof fn lemma_first_found_stays(
    subprograms: Seq<Subprogram>,
    ret: u64,
    call: u64,
    n: int,
    m: int,
)
    requires
        0 <= n <= m,
        first_holding(subprograms, ret, call, n) >= 0,
    ensures
        first_holding(subprograms, ret, call, m) == first_holding(subprograms, ret, call, n),
    decreases m - n,
{
    if n < m {
        lemma_first_found_stays(subprograms, ret, call, n, m - 1);
    }
}

/// Once `first_at` has found a location, it finds the same one among more
/// locations.
pub proof fn lemma_first_at_stays(locations: Seq<BreakableSrcLocation>, addr: u64, n: int, m: int)
    requires
        0 <= n <= m,
        first_at(locations, addr, n) >= 0,
    ensures
        first_at(locations, addr, m) == first_at(locations, addr, n),
    decreases m - n,
{
    if n < m {
        lemma_first_at_stays(locations, addr, n, m - 1);
    }
}

/// Once `first_file_at` has found a file, it finds the same one among more
/// files.
pub proof fn lemma_first_file_at_stays(
    files: Seq<Arc<SrcFileDebugInfo>>,
    addr: u64,
    n: int,
    m: int,
)
    requires
        0 <= n <= m,
        first_file_at(files, addr, n) >= 0,
    ensures
        first_file_at(files, addr, m) == first_file_at(files, addr, n),
    decreases m - n,
{
    if n < m {
        lemma_first_file_at_stays(files, addr, n, m - 1);
    }
}

/// The first location at `addr`.
fn find_in_locations(locations: &Vec<BreakableSrcLocation>, addr: u64) -> (found: Option<usize>)
    ensures
        match found {
            Some(index) => index == first_at(locations@, addr, locations@.len() as int) && index
                < locations@.len(),
            None => first_at(locations@, addr, locations@.len() as int) < 0,
        },
{
    let mut i: usize = 0;
    while i < locations.len()
        invariant
            i <= locations@.len(),
            first_at(locations@, addr, i as int) < 0,
        decreases locations@.len() - i,
    {
        if locations[i].addr == addr {
            proof {
                lemma_first_at_stays(locations@, addr, i as int + 1, locations@.len() as int);
            }
            return Some(i);
        }
        i = i + 1;
    }
    None
}

/// The first location at `addr` in the files, with the identity of its
/// file.
pub fn find_location(files: &Vec<Arc<SrcFileDebugInfo>>, addr: u64) -> (found: Option<
    (BreakableSrcLocation, u64),
>)
    ensures
        found == location_at(files@, addr),
{
    let mut i: usize = 0;
    while i < files.len()
        invariant
            i <= files@.len(),
            first_file_at(files@, addr, i as int) < 0,
        decreases files@.len() - i,
    {
        match find_in_locations(&files[i].breakable_locations, addr) {
            Some(index) => {
                proof {
                    lemma_first_file_at_stays(files@, addr, i as int + 1, files@.len() as int);
                }
                return Some((files[i].breakable_locations[index], files[i].src_file_hash));
            },
            None => {},
        }
        i = i + 1;
    }
    None
}

/// The frame that stands at the link-time address `ret`.
pub fn find_frame(info: &ThinOfflineDebugInfo, ret: u64, innermost: bool) -> (found: Option<
    StackNode,
>)
    ensures
        match found {
            Some(frame) => frame_at(*info, ret, innermost) == Some(frame@),
            None => frame_at(*info, ret, innermost) is None,
        },
{
    let call = find_call_addr(info, ret, innermost);
    let index = match find_subprogram(&info.all_subprograms, ret, call) {
        Some(index) => index,
        None => {
            return None;
        },
    };
    proof {
        lemma_first_holding_bounds(
            info.all_subprograms@,
            ret,
            call,
            info.all_subprograms@.len() as int,
        );
    }
    let location = match find_location(&info.src_file_info, call) {
        Some(found) => Some(found),
        None => find_location(&info.src_file_info, ret),
    };
    let frame = StackNode {
        color_index: index % COLOURS,
        selected: false,
        subprogram: info.all_subprograms[index].duplicate(),
        location: match location {
            Some(found) => Some(found.0),
            None => None,
        },
        file_hash: match location {
            Some(found) => Some(found.1),
            None => None,
        },
        addr: call,
    };
    Some(frame)
}


/// A walk along the frame pointers that is under way.
#[derive(Debug)]
pub struct StackWalk {
    /// Frame pointer of the frame at hand, a run-time address; 0 where the
    /// chain has ended.
    pub frame_base: u64,
    /// Run-time address at which the frame at hand stands: the trap in the
    /// frame of the stop, the return address in the frames above it.
    pub ret_addr: u64,
    /// Load bias of the run.
    pub bias: u64,
    /// The frames found so far, the frame of the stop first.
    pub frames: Vec<StackNode>,
    /// The walk has ended.
    pub done: bool,
}

/// What a walk does next.
#[derive(Clone, Copy, Debug, PartialEq, Eq, Structural)]
pub enum WalkStep {
    /// It needs two words of the debuggee's memory: the return address at
    /// `ret_at` and the caller's frame pointer at `base_at`.
    Peek { ret_at: u64, base_at: u64 },
    /// It has ended.
    Done,
}

/// The two words of a frame's memory that tie it to its caller.
#[derive(Clone, Copy, Debug, PartialEq, Eq, Structural)]
pub struct FrameWords {
    /// The address to which the frame returns.
    pub ret_addr: u64,
    /// The caller's frame pointer.
    pub frame_base: u64,
}

/// The memory of a frame that a walk was handed; `None` where the memory
/// could not be read.
pub type FrameLink = Option<FrameWords>;

/// The frame that a walk finds at the frame at hand: none once the walk has
/// ended or the chain of frame pointers has, else the frame at the link-time
/// address of `ret_addr`.
pub open spec fn frame_at_hand(walk: StackWalk, info: ThinOfflineDebugInfo) -> Option<
    StackNodeView,
> {
    if walk.done || walk.frame_base == 0 {
        None
    } else {
        frame_at(info, offline_of(walk.ret_addr, walk.bias), walk.frames@.len() == 0)
    }
}

/// The frames from the frame at `frame_base` up, the innermost first, as far
/// as `links` lets the walk read the chain: the walk ends at a frame pointer
/// of 0, at an address that no subprogram holds, at memory that cannot be
/// read, and where `links` ends.
pub open spec fn frames_from(
    info: ThinOfflineDebugInfo,
    bias: u64,
    frame_base: u64,
    ret_addr: u64,
    innermost: bool,
    links: Seq<FrameLink>,
) -> Seq<StackNodeView>
    decreases links.len(),
{
    if frame_base == 0 {
        Seq::empty()
    } else {
        match frame_at(info, offline_of(ret_addr, bias), innermost) {
            None => Seq::empty(),
            Some(frame) => {
                if links.len() > 0 && links[0] is Some {
                    seq![frame] + frames_from(
                        info,
                        bias,
                        links[0]->0.frame_base,
                        links[0]->0.ret_addr,
                        false,
                        links.skip(1),
                    )
                } else {
                    seq![frame]
                }
            },
        }
    }
}

/// The frame with its mark set.
pub open spec fn selected(frame: StackNodeView) -> StackNodeView {
    StackNodeView { selected: true, ..frame }
}

/// The stack as it is shown: the frame of the stop is marked, and the
/// outermost frame comes first.
pub open spec fn shown(frames: Seq<StackNodeView>) -> Seq<StackNodeView> {
    if frames.len() == 0 {
        frames
    } else {
        frames.update(0, selected(frames[0])).reverse()
    }
}

impl StackWalk {
    /// A walk that starts at the stop `state` of a run with load bias
    /// `bias`: at the frame pointer of the stop and at the trap just before
    /// the instruction pointer.
    pub fn start(state: &DebugeeState, bias: u64) -> (walk: StackWalk)
        ensures
            walk.frame_base == state.regs.rbp,
            walk.ret_addr == before(state.regs.rip),
            walk.bias == bias,
            walk.frames@.len() == 0,
            !walk.done,
    {
        StackWalk {
            frame_base: state.regs.rbp,
            ret_addr: trap_addr(state.regs.rip),
            bias,
            frames: Vec::new(),
            done: false,
        }
    }

    /// Looks at the frame at hand. Where there is one, it joins the frames
    /// found, and the answer names the memory that the next frame needs. Else
    /// the walk has ended.
    pub fn advance(&mut self, info: &ThinOfflineDebugInfo) -> (step: WalkStep)
        ensures
            final(self).frame_base == old(self).frame_base,
            final(self).ret_addr == old(self).ret_addr,
            final(self).bias == old(self).bias,
            match frame_at_hand(*old(self), *info) {
                Some(frame) => {
                    &&& step == WalkStep::Peek {
                        ret_at: runtime_of(old(self).frame_base, 8),
                        base_at: old(self).frame_base,
                    }
                    &&& frame_views(final(self).frames@) == frame_views(old(self).frames@).push(
                        frame,
                    )
                    &&& !final(self).done
                },
                None => {
                    &&& step == WalkStep::Done
                    &&& final(self).frames == old(self).frames
                    &&& final(self).done
                },
            },
    {
        if self.done || self.frame_base == 0 {
            self.done = true;
            return WalkStep::Done;
        }
        let ret = offline_addr(self.ret_addr, self.bias);
        match find_frame(info, ret, self.frames.len() == 0) {
            Some(frame) => {
                let ghost earlier = self.frames@;
                self.frames.push(frame);
                assert(frame_views(self.frames@) =~= frame_views(earlier).push(frame@));
                WalkStep::Peek {
                    ret_at: self.frame_base.wrapping_add(8),
                    base_at: self.frame_base,
                }
            },
            None => {
                self.done = true;
                WalkStep::Done
            },
        }
    }

    /// Takes the memory that `advance` asked for: the walk goes on at the
    /// caller's frame. Where the memory could not be read, the walk has
    /// ended.
    pub fn supply(&mut self, link: FrameLink)
        ensures
            final(self).bias == old(self).bias,
            final(self).frames == old(self).frames,
            match link {
                Some(words) => {
                    &&& final(self).ret_addr == words.ret_addr
                    &&& final(self).frame_base == words.frame_base
                    &&& final(self).done == old(self).done
                },
                None => {
                    &&& final(self).ret_addr == old(self).ret_addr
                    &&& final(self).frame_base == old(self).frame_base
                    &&& final(self).done
                },
            },
    {
        match link {
            Some(words) => {
                self.ret_addr = words.ret_addr;
                self.frame_base = words.frame_base;
            },
            None => {
                self.done = true;
            },
        }
    }

    /// The frames found, as they are shown: the frame of the stop is marked,
    /// and the outermost frame comes first.
    pub fn finish(self) -> (stack: Vec<StackNode>)
        ensures
            frame_views(stack@) == shown(frame_views(self.frames@)),
    {
        let mut frames = self.frames;
        let ghost found = frame_views(frames@);
        let mut stack: Vec<StackNode> = Vec::new();
        while frames.len() > 0
            invariant
                frames@.len() <= found.len(),
                stack@.len() == found.len() - frames@.len(),
                forall|i: int| 0 <= i < frames@.len() ==> (#[trigger] frames@[i])@ == found[i],
                forall|i: int|
                    0 <= i < stack@.len() ==> (#[trigger] stack@[i])@ == shown(found)[i],
            decreases frames@.len(),
        {
            let ghost at = frames@.len() - 1;
            if let Some(mut frame) = frames.pop() {
                if frames.len() == 0 {
                    frame.selected = true;
                }
                assert(frame@ == shown(found)[found.len() - 1 - at]);
                stack.push(frame);
            }
        }
        assert(shown(found).len() == found.len());
        assert(frame_views(stack@).len() == stack@.len());
        assert forall|i: int| 0 <= i < stack@.len() implies frame_views(stack@)[i] == shown(
            found,
        )[i] by {
            assert(frame_views(stack@)[i] == stack@[i]@);
        }
        assert(frame_views(stack@) =~= shown(found));
        stack
    }
}

/// Whether the walk finds a frame at the frame at hand and at each frame to
/// which `links` leads from there: no frame pointer on the way is 0, each
/// address lies in a subprogram, and the memory of each link could be read.
pub open spec fn all_resolve(
    info: ThinOfflineDebugInfo,
    bias: u64,
    frame_base: u64,
    ret_addr: u64,
    innermost: bool,
    links: Seq<FrameLink>,
) -> bool
    decreases links.len(),
{
    &&& frame_base != 0
    &&& frame_at(info, offline_of(ret_addr, bias), innermost) is Some
    &&& links.len() > 0 ==> links[0] is Some && all_resolve(
        info,
        bias,
        links[0]->0.frame_base,
        links[0]->0.ret_addr,
        false,
        links.skip(1),
    )
}

/// The walk finds at most one frame more than it was handed links, and
/// exactly so many where a frame is found at each link.
pub proof fn law_stack_depth(
    info: ThinOfflineDebugInfo,
    bias: u64,
    frame_base: u64,
    ret_addr: u64,
    innermost: bool,
    links: Seq<FrameLink>,
)
    ensures
        frames_from(info, bias, frame_base, ret_addr, innermost, links).len() <= links.len() + 1,
        all_resolve(info, bias, frame_base, ret_addr, innermost, links) ==> frames_from(
            info,
            bias,
            frame_base,
            ret_addr,
            innermost,
            links,
        ).len() == links.len() + 1,
    decreases links.len(),
{
    if links.len() > 0 && links[0] is Some {
        law_stack_depth(
            info,
            bias,
            links[0]->0.frame_base,
            links[0]->0.ret_addr,
            false,
            links.skip(1),
        );
    }
}

/// The stack is shown with the outermost frame first: the frames stand in
/// the reverse of the order in which the walk found them, so that the frame
/// of the stop comes last, and it alone is marked anew.
pub proof fn law_stack_oldest_first(frames: Seq<StackNodeView>, i: int)
    requires
        0 <= i < frames.len(),
    ensures
        shown(frames).len() == frames.len(),
        shown(frames)[frames.len() - 1 - i] == (if i == 0 {
            selected(frames[0])
        } else {
            frames[i]
        }),
{
}

/// The call stack at the stop `state`, as it is shown: the frames from the
/// frame of the stop up, as far as `links` holds the memory of the chain of
/// frame pointers, frame after frame.
pub fn generate_stack(
    state: &DebugeeState,
    debug_info: &ThinOfflineDebugInfo,
    bias: u64,
    links: &Vec<FrameLink>,
) -> (stack: Vec<StackNode>)
    ensures
        frame_views(stack@) == shown(
            frames_from(
                *debug_info,
                bias,
                state.regs.rbp,
                before(state.regs.rip),
                true,
                links@,
            ),
        ),
{
    let mut walk = StackWalk::start(state, bias);
    let mut k: usize = 0;
    let ghost whole = frames_from(
        *debug_info,
        bias,
        state.regs.rbp,
        before(state.regs.rip),
        true,
        links@,
    );
    assert(links@.skip(0) =~= links@);
    assert(frame_views(walk.frames@) =~= Seq::<StackNodeView>::empty());
    while !walk.done
        invariant
            k <= links@.len(),
            walk.bias == bias,
            walk.done ==> frame_views(walk.frames@) == whole,
            !walk.done ==> frame_views(walk.frames@) + frames_from(
                *debug_info,
                bias,
                walk.frame_base,
                walk.ret_addr,
                walk.frames@.len() == 0,
                links@.skip(k as int),
            ) == whole,
        decreases links@.len() - k + (if walk.done { 0int } else { 1int }),
    {
        let ghost earlier = frame_views(walk.frames@);
        let ghost rest = links@.skip(k as int);
        let ghost found = frame_at_hand(walk, *debug_info);
        match walk.advance(debug_info) {
            WalkStep::Peek { .. } => {
                let link = if k < links.len() {
                    k = k + 1;
                    links[k - 1]
                } else {
                    None
                };
                proof {
                    let frame = found->0;
                    if rest.len() > 0 {
                        assert(rest[0] == link);
                        assert(rest.skip(1) =~= links@.skip(k as int));
                    }
                    if link is Some {
                        let tail = frames_from(
                            *debug_info,
                            bias,
                            link->0.frame_base,
                            link->0.ret_addr,
                            false,
                            links@.skip(k as int),
                        );
                        assert(earlier + (seq![frame] + tail) =~= earlier.push(frame) + tail);
                    } else {
                        assert(earlier + seq![frame] =~= earlier.push(frame));
                    }
                }
                walk.supply(link);
            },
            WalkStep::Done => {
                assert(earlier + Seq::<StackNodeView>::empty() =~= earlier);
            },
        }
    }
    walk.finish()
}


/// The lines of its source file that a frame shows.
#[derive(Clone, Copy, Debug, PartialEq, Eq, Structural)]
pub struct ShownLines {
    /// Index, counted from 0, of the first line shown: that of the line at
    /// which the frame's subprogram starts.
    pub first: usize,
    /// Index of the line behind the last line shown: the lines are shown up
    /// to the line at which the frame stands or, where that is not known, to
    /// the last line of the subprogram.
    pub end: usize,
    /// Whether a fold stands for the lines that are not shown: there is none
    /// only where the frame stands on the line behind the subprogram's last.
    pub folded: bool,
}

/// The lines that a frame shows.
pub open spec fn shown_lines_of(frame: StackNodeView) -> ShownLines {
    let end = match frame.location {
        Some(location) => location.src_line,
        None => frame.subprogram.end_line,
    };
    ShownLines {
        first: if frame.subprogram.start_line == 0 {
            0
        } else {
            (frame.subprogram.start_line - 1) as usize
        },
        end: end,
        folded: end != frame.subprogram.end_line + 1,
    }
}

impl StackNode {
    /// The lines of its source file that the frame shows.
    pub fn shown_lines(&self) -> (lines: ShownLines)
        ensures
            lines == shown_lines_of(self@),
    {
        let end = match self.location {
            Some(location) => location.src_line,
            None => self.subprogram.end_line,
        };
        let first = if self.subprogram.start_line == 0 {
            0
        } else {
            self.subprogram.start_line - 1
        };
        let folded = match self.subprogram.end_line.checked_add(1) {
            Some(behind) => end != behind,
            None => true,
        };
        ShownLines { first, end, folded }
    }
}

} // verus!
