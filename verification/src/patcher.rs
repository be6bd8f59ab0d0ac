//! Software breakpoints: the trap byte that replaces the first byte of an
//! instruction of the debuggee, and the word that was there before.
//!
//! The patcher does not touch the debuggee. Each operation answers with the
//! operations to carry out on it, in order; `memory_after` says what they do
//! to its memory.

use vstd::prelude::*;
use crate::addresses::{before, trap_addr};
use crate::error::DebugError;

verus! {

/// The trap instruction `INT3`.
pub const X86_SIGTRAP: i64 = 0xCC;

/// A word of the debuggee's memory.
#[derive(Clone, Copy, Debug, PartialEq, Eq, Structural)]
pub struct TraceeWord {
    /// Run-time address of the word's first byte.
    pub addr: u64,
    /// The eight bytes from there on, the first in the lowest place.
    pub word: i64,
}

/// An operation on the stopped debuggee.
#[derive(Clone, Copy, Debug, PartialEq, Eq, Structural)]
pub enum TraceeOp {
    /// Write `word` to the eight bytes at `addr`.
    Poke { addr: u64, word: i64 },
    /// Set the instruction pointer.
    SetRip(u64),
    /// Let the debuggee run one instruction.
    Step,
    /// Wait until the debuggee has stopped.
    WaitStop,
    /// Let the debuggee run on.
    Cont,
}

/// An installed breakpoint.
#[derive(Clone, Copy, Debug, PartialEq, Eq, Structural)]
pub struct Patch {
    /// Run-time address of the patched instruction.
    pub addr: u64,
    /// The word that was at `addr` before the trap was written.
    pub original_instruction: i64,
    /// That word with the trap in its lowest byte.
    pub new_instruction: i64,
    /// Whether the trap is in the debuggee's memory.
    pub active: bool,
}

/// A word with the trap in its lowest byte.
pub open spec fn patched_word(word: i64) -> i64 {
    (word & !0xFFi64) | X86_SIGTRAP
}

/// Byte `k` of a word, byte 0 being the lowest.
pub open spec fn word_byte(word: i64, k: int) -> u8 {
    ((word >> ((8 * k) as u64)) & 0xFF) as u8
}

/// The lowest byte of a patched word is the trap, and its other bytes are
/// those of the word.
pub proof fn lemma_patched_word(word: i64)
    ensures
        word_byte(patched_word(word), 0) == 0xCC,
        forall|k: int| 1 <= k < 8 ==> word_byte(patched_word(word), k) == word_byte(word, k),
{
    assert(((word & !0xFFi64) | 0xCCi64) >> 0u64 & 0xFF == 0xCC) by (bit_vector);
    assert forall|k: int| 1 <= k < 8 implies word_byte(patched_word(word), k) == word_byte(
        word,
        k,
    ) by {
        let shift = (8 * k) as u64;
        assert(((word & !0xFFi64) | 0xCCi64) >> shift & 0xFF == word >> shift & 0xFF)
            by (bit_vector)
            requires
                8 <= shift < 64,
        ;
    }
}

/// The memory of the debuggee: for an address, the byte there.
pub type Memory = Map<int, u8>;

/// The memory after `word` was written to the eight bytes at `addr`.
pub open spec fn poked(memory: Memory, addr: u64, word: i64) -> Memory {
    Map::new(
        |a: int| memory.contains_key(a) || addr <= a < addr + 8,
        |a: int|
            if addr <= a < addr + 8 {
                word_byte(word, a - addr)
            } else {
                memory[a]
            },
    )
}

/// Whether the byte at place `k` behind `addr` is byte `k` of `word`.
pub open spec fn holds_byte(memory: Memory, addr: u64, word: i64, k: int) -> bool {
    memory.contains_key(addr + k) && memory[addr + k] == word_byte(word, k)
}

/// Whether the eight bytes at `addr` are those of `word`.
pub open spec fn holds_word(memory: Memory, addr: u64, word: i64) -> bool {
    forall|k: int| 0 <= k < 8 ==> #[trigger] holds_byte(memory, addr, word, k)
}

/// The memory after one operation. Only a write changes it in this account,
/// which leaves out what the debuggee does to its memory while it runs.
pub open spec fn memory_after_op(memory: Memory, op: TraceeOp) -> Memory {
    match op {
        TraceeOp::Poke { addr, word } => poked(memory, addr, word),
        _ => memory,
    }
}

/// The memory after the first `n` operations.
pub open spec fn memory_after(memory: Memory, ops: Seq<TraceeOp>, n: int) -> Memory
    decreases n,
{
    if n <= 0 {
        memory
    } else {
        memory_after_op(memory_after(memory, ops, n - 1), ops[n - 1])
    }
}

/// A breakpoint is sound when its patched word is its original word with the
/// trap in the lowest byte.
pub open spec fn patch_sound(patch: Patch) -> bool {
    patch.new_instruction == patched_word(patch.original_instruction)
}

/// The breakpoint that is installed over a word that was read.
pub open spec fn patch_over(read: TraceeWord) -> Patch {
    Patch {
        addr: read.addr,
        original_instruction: read.word,
        new_instruction: patched_word(read.word),
        active: true,
    }
}

/// The breakpoints that are installed over the words that were read.
pub open spec fn patches_over(words: Seq<TraceeWord>) -> Seq<Patch> {
    Seq::new(words.len(), |i: int| patch_over(words[i]))
}

/// The writes that install breakpoints over the words that were read.
pub open spec fn inject_ops(words: Seq<TraceeWord>) -> Seq<TraceeOp> {
    Seq::new(
        words.len(),
        |i: int| TraceeOp::Poke { addr: words[i].addr, word: patched_word(words[i].word) },
    )
}

/// The index of the first of the first `n` breakpoints that lies at `addr`;
/// -1 if none does.
pub open spec fn first_patch(patches: Seq<Patch>, addr: u64, n: int) -> int
    decreases n,
{
    if n <= 0 {
        -1
    } else {
        let earlier = first_patch(patches, addr, n - 1);
        if earlier >= 0 {
            earlier
        } else if patches[n - 1].addr == addr {
            n - 1
        } else {
            -1
        }
    }
}

/// The breakpoint at `addr` that a switch to `on` would change: the first
/// one at `addr`, where there is one and it is not switched `on` already; -1
/// else.
pub open spec fn to_switch(patches: Seq<Patch>, addr: u64, on: bool) -> int {
    let index = first_patch(patches, addr, patches.len() as int);
    if index >= 0 && patches[index].active != on {
        index
    } else {
        -1
    }
}

/// The breakpoints after the one at `addr` was switched to `on`.
pub open spec fn switched(patches: Seq<Patch>, addr: u64, on: bool) -> Seq<Patch> {
    let index = to_switch(patches, addr, on);
    if index >= 0 {
        patches.update(index, Patch { active: on, ..patches[index] })
    } else {
        patches
    }
}

/// The writes that switch the breakpoint at `addr` to `on`: that of its
/// patched word to arm it, that of its original word to disarm it, none
/// where no breakpoint changes.
pub open spec fn switch_ops(patches: Seq<Patch>, addr: u64, on: bool) -> Seq<TraceeOp> {
    let index = to_switch(patches, addr, on);
    if index >= 0 {
        seq![
            TraceeOp::Poke {
                addr: addr,
                word: if on {
                    patches[index].new_instruction
                } else {
                    patches[index].original_instruction
                },
            },
        ]
    } else {
        Seq::empty()
    }
}

/// The breakpoints after those at the first `n` addresses were switched to
/// `on`, address after address.
pub open spec fn switched_all(patches: Seq<Patch>, addrs: Seq<u64>, on: bool, n: int) -> Seq<Patch>
    decreases n,
{
    if n <= 0 {
        patches
    } else {
        switched(switched_all(patches, addrs, on, n - 1), addrs[n - 1], on)
    }
}

/// The writes that switch the breakpoints at the first `n` addresses to
/// `on`, address after address.
pub open spec fn switch_all_ops(patches: Seq<Patch>, addrs: Seq<u64>, on: bool, n: int) -> Seq<
    TraceeOp,
>
    decreases n,
{
    if n <= 0 {
        Seq::empty()
    } else {
        switch_all_ops(patches, addrs, on, n - 1) + switch_ops(
            switched_all(patches, addrs, on, n - 1),
            addrs[n - 1],
            on,
        )
    }
}

/// The operations that step over the breakpoint at `addr`: disarm it, set
/// the instruction pointer back to it, run the one instruction, arm it
/// again, run on.
pub open spec fn step_over_ops(patches: Seq<Patch>, addr: u64) -> Seq<TraceeOp> {
    switch_ops(patches, addr, false) + seq![
        TraceeOp::SetRip(addr),
        TraceeOp::Step,
        TraceeOp::WaitStop,
    ] + switch_ops(switched(patches, addr, false), addr, true) + seq![TraceeOp::Cont]
}

/// Whether there is a breakpoint at `addr` and the first one there is armed.
pub open spec fn armed(patches: Seq<Patch>, addr: u64) -> bool {
    let index = first_patch(patches, addr, patches.len() as int);
    index >= 0 && patches[index].active
}

/// Whether all breakpoints of a list are sound.
pub open spec fn all_sound(patches: Seq<Patch>) -> bool {
    forall|i: int| 0 <= i < patches.len() ==> patch_sound(#[trigger] patches[i])
}

/// What installs, disarms and arms breakpoints in a debuggee.
pub trait Patcher {
    /// The breakpoints that were installed, in the order of their
    /// installation.
    spec fn patches(&self) -> Seq<Patch>;

    /// Installs a breakpoint over each word that was read from the debuggee:
    /// the word is kept, and the answer writes it back with the trap in its
    /// lowest byte.
    fn inject_breakpoints(&mut self, words: &Vec<TraceeWord>) -> (result: Result<
        Vec<TraceeOp>,
        DebugError,
    >)
        requires
            all_sound(old(self).patches()),
        ensures
            all_sound(final(self).patches()),
            final(self).patches() == old(self).patches() + patches_over(words@),
            result is Ok,
            result->Ok_0@ == inject_ops(words@),
    ;

    /// Disarms the breakpoint at each address, where there is one and it is
    /// armed: the answer writes its original word back. Fails where no
    /// breakpoint was disarmed.
    fn disable_breakpoints(&mut self, breakpoints: &Vec<u64>) -> (result: Result<
        Vec<TraceeOp>,
        DebugError,
    >)
        requires
            all_sound(old(self).patches()),
        ensures
            all_sound(final(self).patches()),
            final(self).patches() == switched_all(
                old(self).patches(),
                breakpoints@,
                false,
                breakpoints@.len() as int,
            ),
            switch_outcome(old(self).patches(), breakpoints@, false, result),
    ;

    /// Arms the breakpoint at each address, where there is one and it is
    /// disarmed: the answer writes its patched word. Fails where no
    /// breakpoint was armed.
    fn enable_breakpoints(&mut self, breakpoints: &Vec<u64>) -> (result: Result<
        Vec<TraceeOp>,
        DebugError,
    >)
        requires
            all_sound(old(self).patches()),
        ensures
            all_sound(final(self).patches()),
            final(self).patches() == switched_all(
                old(self).patches(),
                breakpoints@,
                true,
                breakpoints@.len() as int,
            ),
            switch_outcome(old(self).patches(), breakpoints@, true, result),
    ;

    /// Steps over the breakpoint at `addr` when the debuggee, whose
    /// instruction pointer is `rip`, stands just behind its trap. Fails, and
    /// changes nothing, where the debuggee stands elsewhere.
    fn cont(&mut self, addr: u64, rip: u64) -> (result: Result<Vec<TraceeOp>, DebugError>)
        requires
            all_sound(old(self).patches()),
        ensures
            all_sound(final(self).patches()),
            before(rip) != addr ==> result == Err::<Vec<TraceeOp>, DebugError>(
                DebugError::InvalidState,
            ) && final(self).patches() == old(self).patches(),
            before(rip) == addr ==> result is Ok && result->Ok_0@ == step_over_ops(
                old(self).patches(),
                addr,
            ) && final(self).patches() == switched(
                switched(old(self).patches(), addr, false),
                addr,
                true,
            ),
    ;
}

/// What a switch of the breakpoints at `addrs` answers: the writes, or a
/// failure where there are none.
pub open spec fn switch_outcome(
    patches: Seq<Patch>,
    addrs: Seq<u64>,
    on: bool,
    result: Result<Vec<TraceeOp>, DebugError>,
) -> bool {
    let ops = switch_all_ops(patches, addrs, on, addrs.len() as int);
    if ops.len() == 0 {
        result == Err::<Vec<TraceeOp>, DebugError>(DebugError::InvalidState)
    } else {
        result is Ok && result->Ok_0@ == ops
    }
}

/// The patcher of a debuggee that runs on this machine.
#[derive(Debug)]
pub struct LocalPatcher {
    /// Process id of the debuggee.
    pub pid: i32,
    /// The breakpoints that were installed.
    pub patches: Vec<Patch>,
}

/// Switching a breakpoint keeps the list's length and each breakpoint's
/// address and words, and keeps sound breakpoints sound.
pub proof fn lemma_switched_keeps(patches: Seq<Patch>, addr: u64, on: bool)
    ensures
        switched(patches, addr, on).len() == patches.len(),
        forall|i: int|
            0 <= i < patches.len() ==> {
                let after = #[trigger] switched(patches, addr, on)[i];
                &&& after.addr == patches[i].addr
                &&& after.original_instruction == patches[i].original_instruction
                &&& after.new_instruction == patches[i].new_instruction
            },
        all_sound(patches) ==> all_sound(switched(patches, addr, on)),
        -1 <= to_switch(patches, addr, on) < patches.len(),
{
    lemma_first_patch(patches, addr, patches.len() as int);
    let after = switched(patches, addr, on);
    assert forall|i: int| 0 <= i < after.len() && all_sound(patches) implies patch_sound(
        #[trigger] after[i],
    ) by {
        assert(patch_sound(patches[i]));
    }
}

/// A switch at an address arms or disarms the breakpoint there, where there
/// is one, and leaves the breakpoint at any other address as it was.
pub proof fn lemma_switched_armed(patches: Seq<Patch>, addr: u64, on: bool, other: u64)
    ensures
        first_patch(switched(patches, addr, on), other, patches.len() as int) == first_patch(
            patches,
            other,
            patches.len() as int,
        ),
        armed(switched(patches, addr, on), other) == (if other == addr && first_patch(
            patches,
            addr,
            patches.len() as int,
        ) >= 0 {
            on
        } else {
            armed(patches, other)
        }),
{
    lemma_switched_keeps(patches, addr, on);
    lemma_first_patch_by_addr(
        switched(patches, addr, on),
        patches,
        other,
        patches.len() as int,
    );
    lemma_first_patch(patches, addr, patches.len() as int);
    lemma_first_patch(patches, other, patches.len() as int);
}

/// What `first_patch` finds lies at the address, and no breakpoint before
/// it does.
pub proof fn lemma_first_patch(patches: Seq<Patch>, addr: u64, n: int)
    requires
        0 <= n <= patches.len(),
    ensures
        -1 <= first_patch(patches, addr, n) < n,
        first_patch(patches, addr, n) >= 0 ==> patches[first_patch(patches, addr, n)].addr == addr,
        forall|i: int|
            0 <= i < n && (first_patch(patches, addr, n) < 0 || i < first_patch(patches, addr, n))
                ==> (#[trigger] patches[i]).addr != addr,
    decreases n,
{
    if n > 0 {
        lemma_first_patch(patches, addr, n - 1);
    }
}

/// Once `first_patch` has found a breakpoint, it finds the same one among
/// more breakpoints.
pub proof fn lemma_first_patch_stays(patches: Seq<Patch>, addr: u64, n: int, m: int)
    requires
        0 <= n <= m,
        first_patch(patches, addr, n) >= 0,
    ensures
        first_patch(patches, addr, m) == first_patch(patches, addr, n),
    decreases m - n,
{
    if n < m {
        lemma_first_patch_stays(patches, addr, n, m - 1);
    }
}

impl LocalPatcher {
    /// A patcher for the debuggee `pid` with no breakpoint installed.
    pub fn new(pid: i32) -> (patcher: LocalPatcher)
        ensures
            patcher.pid == pid,
            patcher.patches@.len() == 0,
            all_sound(patcher.patches()),
    {
        LocalPatcher { pid, patches: Vec::new() }
    }

    /// The index of the first breakpoint at `addr`.
    fn find(&self, addr: u64) -> (found: Option<usize>)
        ensures
            match found {
                Some(index) => index == first_patch(self.patches@, addr, self.patches@.len() as int)
                    && index < self.patches@.len(),
                None => first_patch(self.patches@, addr, self.patches@.len() as int) < 0,
            },
    {
        let mut i: usize = 0;
        while i < self.patches.len()
            invariant
                i <= self.patches@.len(),
                first_patch(self.patches@, addr, i as int) < 0,
            decreases self.patches@.len() - i,
        {
            if self.patches[i].addr == addr {
                proof {
                    lemma_first_patch_stays(
                        self.patches@,
                        addr,
                        i as int + 1,
                        self.patches@.len() as int,
                    );
                }
                return Some(i);
            }
            i = i + 1;
        }
        None
    }

    /// Whether the first breakpoint at `addr` is armed.
    pub fn is_armed(&self, addr: u64) -> (armed_now: bool)
        ensures
            armed_now == armed(self.patches@, addr),
    {
        match self.find(addr) {
            Some(index) => self.patches[index].active,
            None => false,
        }
    }

    /// Switches the breakpoint at `addr` to `on` and appends the write that
    /// does so in the debuggee.
    pub fn switch(&mut self, addr: u64, on: bool, ops: &mut Vec<TraceeOp>)
        requires
            all_sound(old(self).patches@),
        ensures
            all_sound(final(self).patches@),
            final(self).pid == old(self).pid,
            final(self).patches@ == switched(old(self).patches@, addr, on),
            final(ops)@ == old(ops)@ + switch_ops(old(self).patches@, addr, on),
    {
        proof {
            lemma_switched_keeps(self.patches@, addr, on);
        }
        if let Some(index) = self.find(addr) {
            let patch = self.patches[index];
            if patch.active != on {
                let word = if on {
                    patch.new_instruction
                } else {
                    patch.original_instruction
                };
                self.patches.set(index, Patch { active: on, ..patch });
                ops.push(TraceeOp::Poke { addr, word });
                assert(ops@ =~= old(ops)@ + switch_ops(old(self).patches@, addr, on));
                return ;
            }
        }
        assert(ops@ =~= old(ops)@ + switch_ops(old(self).patches@, addr, on));
    }

    /// Switches the breakpoints at the addresses to `on`.
    fn switch_all(&mut self, breakpoints: &Vec<u64>, on: bool) -> (result: Result<
        Vec<TraceeOp>,
        DebugError,
    >)
        requires
            all_sound(old(self).patches@),
        ensures
            all_sound(final(self).patches@),
            final(self).pid == old(self).pid,
            final(self).patches@ == switched_all(
                old(self).patches@,
                breakpoints@,
                on,
                breakpoints@.len() as int,
            ),
            switch_outcome(old(self).patches@, breakpoints@, on, result),
    {
        let mut ops: Vec<TraceeOp> = Vec::new();
        let mut i: usize = 0;
        while i < breakpoints.len()
            invariant
                i <= breakpoints@.len(),
                all_sound(self.patches@),
                self.pid == old(self).pid,
                self.patches@ == switched_all(old(self).patches@, breakpoints@, on, i as int),
                ops@ == switch_all_ops(old(self).patches@, breakpoints@, on, i as int),
            decreases breakpoints@.len() - i,
        {
            self.switch(breakpoints[i], on, &mut ops);
            i = i + 1;
        }
        if ops.len() == 0 {
            Err(DebugError::InvalidState)
        } else {
            Ok(ops)
        }
    }
}

impl Patcher for LocalPatcher {
    open spec fn patches(&self) -> Seq<Patch> {
        self.patches@
    }

    fn inject_breakpoints(&mut self, words: &Vec<TraceeWord>) -> (result: Result<
        Vec<TraceeOp>,
        DebugError,
    >)
        ensures
            final(self).pid == old(self).pid,
    {
        let mut ops: Vec<TraceeOp> = Vec::new();
        let mut i: usize = 0;
        while i < words.len()
            invariant
                i <= words@.len(),
                self.pid == old(self).pid,
                all_sound(self.patches@),
                self.patches@ == old(self).patches@ + patches_over(words@).take(i as int),
                ops@ == inject_ops(words@).take(i as int),
            decreases words@.len() - i,
        {
            let read = words[i];
            let patch = Patch {
                addr: read.addr,
                original_instruction: read.word,
                new_instruction: (read.word & !0xFFi64) | X86_SIGTRAP,
                active: true,
            };
            assert(patch == patch_over(read));
            self.patches.push(patch);
            ops.push(TraceeOp::Poke { addr: read.addr, word: patch.new_instruction });
            assert(self.patches@ =~= old(self).patches@ + patches_over(words@).take(i + 1));
            assert(ops@ =~= inject_ops(words@).take(i + 1));
            i = i + 1;
        }
        assert(patches_over(words@).take(i as int) =~= patches_over(words@));
        assert(inject_ops(words@).take(i as int) =~= inject_ops(words@));
        Ok(ops)
    }

    fn disable_breakpoints(&mut self, breakpoints: &Vec<u64>) -> (result: Result<
        Vec<TraceeOp>,
        DebugError,
    >)
        ensures
            final(self).pid == old(self).pid,
    {
        self.switch_all(breakpoints, false)
    }

    fn enable_breakpoints(&mut self, breakpoints: &Vec<u64>) -> (result: Result<
        Vec<TraceeOp>,
        DebugError,
    >)
        ensures
            final(self).pid == old(self).pid,
    {
        self.switch_all(breakpoints, true)
    }

    fn cont(&mut self, addr: u64, rip: u64) -> (result: Result<Vec<TraceeOp>, DebugError>)
        ensures
            final(self).pid == old(self).pid,
    {
        if trap_addr(rip) != addr {
            return Err(DebugError::InvalidState);
        }
        let mut ops: Vec<TraceeOp> = Vec::new();
        self.switch(addr, false, &mut ops);
        ops.push(TraceeOp::SetRip(addr));
        ops.push(TraceeOp::Step);
        ops.push(TraceeOp::WaitStop);
        self.switch(addr, true, &mut ops);
        ops.push(TraceeOp::Cont);
        assert(ops@ =~= step_over_ops(old(self).patches@, addr));
        Ok(ops)
    }
}


/// Whether no breakpoint at one of the first `n` addresses would change at a
/// switch to `on`.
pub open spec fn settled(patches: Seq<Patch>, addrs: Seq<u64>, on: bool, n: int) -> bool {
    forall|j: int| 0 <= j < n ==> to_switch(patches, #[trigger] addrs[j], on) < 0
}

/// Which breakpoint is the first at an address depends on the addresses of
/// the breakpoints alone.
pub proof fn lemma_first_patch_by_addr(a: Seq<Patch>, b: Seq<Patch>, addr: u64, n: int)
    requires
        0 <= n <= a.len(),
        a.len() == b.len(),
        forall|i: int| 0 <= i < a.len() ==> (#[trigger] a[i]).addr == b[i].addr,
    ensures
        first_patch(a, addr, n) == first_patch(b, addr, n),
    decreases n,
{
    if n > 0 {
        lemma_first_patch_by_addr(a, b, addr, n - 1);
        assert(a[n - 1].addr == b[n - 1].addr);
    }
}

/// A switch to `on` leaves nothing to switch at its address, and nothing new
/// to switch at any other.
pub proof fn lemma_switched_settles(patches: Seq<Patch>, addr: u64, on: bool, other: u64)
    ensures
        to_switch(switched(patches, addr, on), addr, on) < 0,
        to_switch(patches, other, on) < 0 ==> to_switch(switched(patches, addr, on), other, on) < 0,
{
    lemma_switched_keeps(patches, addr, on);
    let after = switched(patches, addr, on);
    lemma_first_patch_by_addr(after, patches, addr, patches.len() as int);
    lemma_first_patch_by_addr(after, patches, other, patches.len() as int);
    lemma_first_patch(patches, addr, patches.len() as int);
    lemma_first_patch(patches, other, patches.len() as int);
}

/// After the breakpoints at some addresses were switched to `on`, none of
/// them is left to switch.
pub proof fn lemma_switched_all_settled(patches: Seq<Patch>, addrs: Seq<u64>, on: bool, n: int)
    requires
        0 <= n <= addrs.len(),
    ensures
        settled(switched_all(patches, addrs, on, n), addrs, on, n),
    decreases n,
{
    if n > 0 {
        lemma_switched_all_settled(patches, addrs, on, n - 1);
        let earlier = switched_all(patches, addrs, on, n - 1);
        let after = switched_all(patches, addrs, on, n);
        assert forall|j: int| 0 <= j < n implies to_switch(after, #[trigger] addrs[j], on) < 0 by {
            lemma_switched_settles(earlier, addrs[n - 1], on, addrs[j]);
        }
    }
}

/// Where nothing is left to switch, a switch changes no breakpoint and
/// writes nothing.
pub proof fn lemma_settled_is_fixed(patches: Seq<Patch>, addrs: Seq<u64>, on: bool, n: int)
    requires
        0 <= n <= addrs.len(),
        settled(patches, addrs, on, n),
    ensures
        switched_all(patches, addrs, on, n) == patches,
        switch_all_ops(patches, addrs, on, n) == Seq::<TraceeOp>::empty(),
    decreases n,
{
    if n > 0 {
        lemma_settled_is_fixed(patches, addrs, on, n - 1);
        assert(to_switch(patches, addrs[n - 1], on) < 0);
        assert(switch_all_ops(patches, addrs, on, n) =~= Seq::<TraceeOp>::empty());
    }
}

/// Arming twice is arming once, and so is disarming: when the breakpoints at
/// some addresses are switched a second time the same way, no breakpoint
/// changes, nothing is written, and the debuggee's memory stays as the first
/// switch left it.
pub proof fn law_switch_idempotent(
    patches: Seq<Patch>,
    addrs: Seq<u64>,
    on: bool,
    memory: Memory,
)
    ensures
        ({
            let n = addrs.len() as int;
            let once = switched_all(patches, addrs, on, n);
            let first = switch_all_ops(patches, addrs, on, n);
            let second = switch_all_ops(once, addrs, on, n);
            let written = memory_after(memory, first, first.len() as int);
            &&& switched_all(once, addrs, on, n) == once
            &&& second.len() == 0
            &&& memory_after(written, second, second.len() as int) == written
        }),
{
    let n = addrs.len() as int;
    let once = switched_all(patches, addrs, on, n);
    lemma_switched_all_settled(patches, addrs, on, n);
    lemma_settled_is_fixed(once, addrs, on, n);
}

/// A write puts its word into memory.
pub proof fn lemma_poked_holds(memory: Memory, addr: u64, word: i64)
    ensures
        holds_word(poked(memory, addr, word), addr, word),
{
    assert forall|k: int| 0 <= k < 8 implies #[trigger] holds_byte(
        poked(memory, addr, word),
        addr,
        word,
        k,
    ) by {
    }
}

/// Stepping over an armed breakpoint leaves it armed. While the debuggee
/// runs the one instruction, its original word is in memory at the
/// breakpoint's address; afterwards the patched word is, whose first byte is
/// the trap. The breakpoints are as they were, the saved word among them.
pub proof fn law_step_over_restores(patches: Seq<Patch>, addr: u64, memory: Memory)
    requires
        all_sound(patches),
        first_patch(patches, addr, patches.len() as int) >= 0,
        patches[first_patch(patches, addr, patches.len() as int)].active,
    ensures
        ({
            let patch = patches[first_patch(patches, addr, patches.len() as int)];
            let ops = step_over_ops(patches, addr);
            let during = memory_after(memory, ops, 4);
            let after = memory_after(memory, ops, ops.len() as int);
            &&& ops.len() == 6
            &&& ops[3] == TraceeOp::WaitStop
            &&& holds_word(during, addr, patch.original_instruction)
            &&& holds_word(after, addr, patch.new_instruction)
            &&& after.contains_key(addr as int)
            &&& after[addr as int] == 0xCC
            &&& switched(switched(patches, addr, false), addr, true) == patches
        }),
{
    let n = patches.len() as int;
    let index = first_patch(patches, addr, n);
    let patch = patches[index];
    lemma_first_patch(patches, addr, n);
    lemma_switched_keeps(patches, addr, false);
    let off = switched(patches, addr, false);
    lemma_first_patch_by_addr(off, patches, addr, n);
    assert(to_switch(patches, addr, false) == index);
    assert(to_switch(off, addr, true) == index);
    let back = switched(off, addr, true);
    assert(back =~= patches);
    let ops = step_over_ops(patches, addr);
    let expected = seq![
        TraceeOp::Poke { addr: addr, word: patch.original_instruction },
        TraceeOp::SetRip(addr),
        TraceeOp::Step,
        TraceeOp::WaitStop,
        TraceeOp::Poke { addr: addr, word: patch.new_instruction },
        TraceeOp::Cont,
    ];
    assert(ops =~= expected);
    reveal_with_fuel(memory_after, 7);
    let restored = poked(memory, addr, patch.original_instruction);
    assert(memory_after(memory, ops, 4) == restored);
    let armed = poked(restored, addr, patch.new_instruction);
    assert(memory_after(memory, ops, 6) == armed);
    lemma_poked_holds(memory, addr, patch.original_instruction);
    lemma_poked_holds(restored, addr, patch.new_instruction);
    assert(patch_sound(patch));
    lemma_patched_word(patch.original_instruction);
    assert(holds_byte(armed, addr, patch.new_instruction, 0));
}

/// The word that a breakpoint calls for in memory: its patched word while it
/// is armed, its original word while it is not.
pub open spec fn word_in_place(patch: Patch) -> i64 {
    if patch.active {
        patch.new_instruction
    } else {
        patch.original_instruction
    }
}

/// Whether the debuggee's memory holds, at the address of each breakpoint,
/// the word that the breakpoint calls for: the trap where the breakpoint is
/// armed, and what was there before where it is not.
pub open spec fn in_memory(memory: Memory, patches: Seq<Patch>) -> bool {
    forall|i: int|
        0 <= i < patches.len() ==> holds_word(
            memory,
            (#[trigger] patches[i]).addr,
            word_in_place(patches[i]),
        )
}

/// Whether no two breakpoints lie within a word of each other.
pub open spec fn apart(patches: Seq<Patch>) -> bool {
    forall|i: int, j: int|
        0 <= i < j < patches.len() ==> (#[trigger] patches[i]).addr + 8 <= (
        #[trigger] patches[j]).addr || patches[j].addr + 8 <= patches[i].addr
}

/// The operations of two lists, done one list after the other, leave the
/// memory that the second list leaves of what the first list left.
pub proof fn lemma_memory_after_both(memory: Memory, first: Seq<TraceeOp>, second: Seq<TraceeOp>, n: int)
    requires
        0 <= n <= second.len(),
    ensures
        memory_after(memory, first + second, first.len() + n) == memory_after(
            memory_after(memory, first, first.len() as int),
            second,
            n,
        ),
    decreases n,
{
    if n > 0 {
        lemma_memory_after_both(memory, first, second, n - 1);
        assert((first + second)[first.len() + n - 1] == second[n - 1]);
    } else {
        lemma_memory_after_prefix(memory, first, first + second, first.len() as int);
    }
}

/// What the first operations of a list do depends on those operations
/// alone.
pub proof fn lemma_memory_after_prefix(memory: Memory, a: Seq<TraceeOp>, b: Seq<TraceeOp>, n: int)
    requires
        0 <= n <= a.len(),
        n <= b.len(),
        forall|i: int| 0 <= i < n ==> a[i] == b[i],
    ensures
        memory_after(memory, a, n) == memory_after(memory, b, n),
    decreases n,
{
    if n > 0 {
        lemma_memory_after_prefix(memory, a, b, n - 1);
    }
}

/// A write leaves the words that lie apart from it as they were.
pub proof fn lemma_poked_elsewhere(memory: Memory, addr: u64, word: i64, other: u64, held: i64)
    requires
        holds_word(memory, other, held),
        addr + 8 <= other || other + 8 <= addr,
    ensures
        holds_word(poked(memory, addr, word), other, held),
{
    assert forall|k: int| 0 <= k < 8 implies #[trigger] holds_byte(
        poked(memory, addr, word),
        other,
        held,
        k,
    ) by {
        assert(holds_byte(memory, other, held, k));
    }
}

/// Arming or disarming a breakpoint keeps the memory in line with the
/// breakpoints: where no two breakpoints lie within a word of each other and
/// the memory holds what each calls for, it does so again once the switch's
/// writes are done.
pub proof fn law_switch_keeps_memory_in_line(
    patches: Seq<Patch>,
    addr: u64,
    on: bool,
    memory: Memory,
)
    requires
        apart(patches),
        in_memory(memory, patches),
    ensures
        apart(switched(patches, addr, on)),
        in_memory(
            memory_after(
                memory,
                switch_ops(patches, addr, on),
                switch_ops(patches, addr, on).len() as int,
            ),
            switched(patches, addr, on),
        ),
{
    lemma_switched_keeps(patches, addr, on);
    lemma_first_patch(patches, addr, patches.len() as int);
    let after = switched(patches, addr, on);
    let ops = switch_ops(patches, addr, on);
    let index = to_switch(patches, addr, on);
    assert forall|i: int, j: int| 0 <= i < j < after.len() implies (#[trigger] after[i]).addr + 8 <= (
    #[trigger] after[j]).addr || after[j].addr + 8 <= after[i].addr by {
        assert(patches[i].addr + 8 <= patches[j].addr || patches[j].addr + 8 <= patches[i].addr);
    }
    if index >= 0 {
        let word = word_in_place(after[index]);
        reveal_with_fuel(memory_after, 2);
        let written = poked(memory, addr, word);
        assert(memory_after(memory, ops, 1) == written);
        assert forall|i: int| 0 <= i < after.len() implies holds_word(
            written,
            (#[trigger] after[i]).addr,
            word_in_place(after[i]),
        ) by {
            if i == index {
                lemma_poked_holds(memory, addr, word);
            } else {
                assert(holds_word(memory, patches[i].addr, word_in_place(patches[i])));
                if i < index {
                    assert(patches[i].addr + 8 <= patches[index].addr || patches[index].addr + 8
                        <= patches[i].addr);
                } else {
                    assert(patches[index].addr + 8 <= patches[i].addr || patches[i].addr + 8
                        <= patches[index].addr);
                }
                lemma_poked_elsewhere(memory, addr, word, patches[i].addr, word_in_place(patches[i]));
            }
        }
    }
}

/// Arming or disarming the breakpoints at several addresses keeps the
/// memory in line with the breakpoints.
pub proof fn law_switch_all_keeps_memory_in_line(
    patches: Seq<Patch>,
    addrs: Seq<u64>,
    on: bool,
    memory: Memory,
    n: int,
)
    requires
        0 <= n <= addrs.len(),
        apart(patches),
        in_memory(memory, patches),
    ensures
        apart(switched_all(patches, addrs, on, n)),
        in_memory(
            memory_after(
                memory,
                switch_all_ops(patches, addrs, on, n),
                switch_all_ops(patches, addrs, on, n).len() as int,
            ),
            switched_all(patches, addrs, on, n),
        ),
    decreases n,
{
    if n > 0 {
        law_switch_all_keeps_memory_in_line(patches, addrs, on, memory, n - 1);
        let earlier = switched_all(patches, addrs, on, n - 1);
        let done = switch_all_ops(patches, addrs, on, n - 1);
        let step = switch_ops(earlier, addrs[n - 1], on);
        let written = memory_after(memory, done, done.len() as int);
        law_switch_keeps_memory_in_line(earlier, addrs[n - 1], on, written);
        lemma_memory_after_both(memory, done, step, step.len() as int);
    }
}

/// Installing breakpoints puts their traps into memory: where the words
/// were read from the memory at addresses of which no two lie within a word
/// of each other or of a breakpoint that is there already, and the memory
/// was in line with the breakpoints, it is in line with all of them once the
/// writes are done. The first byte at each new breakpoint is then the trap.
pub proof fn law_inject_puts_traps_in_memory(
    patches: Seq<Patch>,
    words: Seq<TraceeWord>,
    memory: Memory,
    n: int,
)
    requires
        0 <= n <= words.len(),
        apart(patches + patches_over(words)),
        in_memory(memory, patches),
        forall|i: int|
            0 <= i < words.len() ==> holds_word(memory, (#[trigger] words[i]).addr, words[i].word),
    ensures
        in_memory(
            memory_after(memory, inject_ops(words), n),
            patches + patches_over(words).take(n),
        ),
        forall|i: int|
            n <= i < words.len() ==> holds_word(
                memory_after(memory, inject_ops(words), n),
                (#[trigger] words[i]).addr,
                words[i].word,
            ),
        forall|i: int|
            0 <= i < n ==> memory_after(memory, inject_ops(words), n).contains_key(
                (#[trigger] words[i]).addr as int,
            ) && memory_after(memory, inject_ops(words), n)[words[i].addr as int] == 0xCC,
    decreases n,
{
    let all = patches + patches_over(words);
    if n == 0 {
        assert(patches + patches_over(words).take(0) =~= patches);
    } else {
        law_inject_puts_traps_in_memory(patches, words, memory, n - 1);
        let before = memory_after(memory, inject_ops(words), n - 1);
        let read = words[n - 1];
        let word = patched_word(read.word);
        let after = poked(before, read.addr, word);
        assert(memory_after(memory, inject_ops(words), n) == after);
        let installed = patches + patches_over(words).take(n);
        let earlier = patches + patches_over(words).take(n - 1);
        assert(all[patches.len() + n - 1] == patch_over(read));
        assert forall|i: int| 0 <= i < installed.len() implies holds_word(
            after,
            (#[trigger] installed[i]).addr,
            word_in_place(installed[i]),
        ) by {
            if i == installed.len() - 1 {
                assert(installed[i] == patch_over(read));
                lemma_poked_holds(before, read.addr, word);
            } else {
                assert(installed[i] == earlier[i]);
                assert(installed[i] == all[i]);
                assert(all[i].addr + 8 <= all[patches.len() + n - 1].addr || all[patches.len() + n
                    - 1].addr + 8 <= all[i].addr);
                assert(holds_word(before, earlier[i].addr, word_in_place(earlier[i])));
                lemma_poked_elsewhere(before, read.addr, word, earlier[i].addr, word_in_place(earlier[i]));
            }
        }
        assert forall|i: int| n <= i < words.len() implies holds_word(
            after,
            (#[trigger] words[i]).addr,
            words[i].word,
        ) by {
            assert(all[patches.len() + i] == patch_over(words[i]));
            assert(all[patches.len() + n - 1].addr + 8 <= all[patches.len() + i].addr || all[patches.len()
                + i].addr + 8 <= all[patches.len() + n - 1].addr);
            lemma_poked_elsewhere(before, read.addr, word, words[i].addr, words[i].word);
        }
        lemma_patched_word(read.word);
        assert forall|i: int| 0 <= i < n implies after.contains_key((#[trigger] words[i]).addr as int)
            && after[words[i].addr as int] == 0xCC by {
            if i == n - 1 {
                lemma_poked_holds(before, read.addr, word);
                assert(holds_byte(after, read.addr, word, 0));
            } else {
                assert(all[patches.len() + i] == patch_over(words[i]));
                assert(all[patches.len() + i].addr + 8 <= all[patches.len() + n - 1].addr || all[patches.len()
                    + n - 1].addr + 8 <= all[patches.len() + i].addr);
                assert(before.contains_key(words[i].addr as int));
                assert(holds_byte(before, read.addr, read.word, 0));
            }
        }
    }
}

} // verus!
