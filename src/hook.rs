//! Inline hooks: the bytes written at the target and into the trampoline,
//! and the order in which an install performs its platform steps.

use vstd::prelude::*;

verus! {

/// Number of bytes at the target that a hook captures and overwrites.
pub const PATCH_LEN: usize = 14;

/// Length of the trampoline: the captured bytes and the jump back.
pub const TRAMPOLINE_LEN: usize = 28;

/// The one-byte no-op instruction.
pub const NOP: u8 = 0x90;

/// The eight little-endian bytes of `x`.
pub open spec fn le64(x: u64) -> Seq<u8> {
    seq![
        x as u8,
        (x >> 8u64) as u8,
        (x >> 16u64) as u8,
        (x >> 24u64) as u8,
        (x >> 32u64) as u8,
        (x >> 40u64) as u8,
        (x >> 48u64) as u8,
        (x >> 56u64) as u8,
    ]
}

/// `mov rax, dest; jmp rax`, padded with no-ops to the captured length.
pub open spec fn redirect_bytes(dest: u64) -> Seq<u8> {
    seq![0x48u8, 0xB8u8] + le64(dest) + seq![0xFFu8, 0xE0u8, NOP, NOP]
}

/// `jmp [rip + 0]` followed by the absolute address it jumps to.
pub open spec fn jump_back_bytes(resume: u64) -> Seq<u8> {
    seq![0xFFu8, 0x25u8, 0u8, 0u8, 0u8, 0u8] + le64(resume)
}

/// The trampoline: the captured bytes, then a jump back to `resume`.
pub open spec fn trampoline_bytes(original: Seq<u8>, resume: u64) -> Seq<u8> {
    original + jump_back_bytes(resume)
}

/// Appends the eight little-endian bytes of `x`.
fn push_le64(out: &mut Vec<u8>, x: u64)
    ensures
        final(out)@ == old(out)@ + le64(x),
{
    out.push(x as u8);
    out.push((x >> 8u64) as u8);
    out.push((x >> 16u64) as u8);
    out.push((x >> 24u64) as u8);
    out.push((x >> 32u64) as u8);
    out.push((x >> 40u64) as u8);
    out.push((x >> 48u64) as u8);
    out.push((x >> 56u64) as u8);
    assert(final(out)@ =~= old(out)@ + le64(x));
}

/// The bytes that redirect execution at the target to `dest`.
pub fn redirect_patch(dest: usize) -> (r: Vec<u8>)
    ensures
        r@ == redirect_bytes(dest as u64),
        r@.len() == PATCH_LEN,
{
    let mut out: Vec<u8> = Vec::new();
    out.push(0x48);
    out.push(0xB8);
    push_le64(&mut out, dest as u64);
    out.push(0xFF);
    out.push(0xE0);
    out.push(NOP);
    out.push(NOP);
    assert(out@ =~= redirect_bytes(dest as u64));
    out
}

/// The trampoline's contents: `original`, then a jump back to `resume`.
pub fn trampoline_code(original: &[u8], resume: usize) -> (r: Vec<u8>)
    ensures
        r@ == trampoline_bytes(original@, resume as u64),
{
    let mut out: Vec<u8> = Vec::new();
    let mut i: usize = 0;
    while i < original.len()
        invariant
            0 <= i <= original@.len(),
            out@ == original@.take(i as int),
        decreases original@.len() - i,
    {
        out.push(original[i]);
        i = i + 1;
        assert(out@ =~= original@.take(i as int));
    }
    assert(out@ =~= original@);
    out.push(0xFF);
    out.push(0x25);
    out.push(0);
    out.push(0);
    out.push(0);
    out.push(0);
    push_le64(&mut out, resume as u64);
    assert(out@ =~= trampoline_bytes(original@, resume as u64));
    out
}

/// Memory protection that allows reading, writing and executing.
pub const EXECUTE_READ_WRITE: u32 = 0x40;

/// What an install knows before it touches memory: the address to hook,
/// the entry point of the replacement, and the bytes captured at the target.
#[derive(Debug, Clone)]
pub struct HookPlan {
    pub target: usize,
    pub replacement: usize,
    pub original: Vec<u8>,
}

/// What a caller needs to undo an installed hook by hand.
#[derive(Debug, Clone)]
pub struct HookRecord {
    pub target: usize,
    pub trampoline: usize,
    pub original: Vec<u8>,
    pub protection: u32,
}

/// Where an install stands: which platform step it waits on, and what it
/// has learnt so far (the target's former protection, the trampoline).
#[derive(Debug, Clone, Copy, PartialEq, Eq, Structural)]
pub enum HookState {
    /// Waiting for the target to become writable.
    Unprotecting,
    /// Waiting for trampoline memory.
    Allocating { saved: u32 },
    /// Waiting for the trampoline's bytes to be written.
    PopulatingTrampoline { saved: u32, trampoline: usize },
    /// Waiting for the redirect to be written at the target.
    Redirecting { saved: u32, trampoline: usize },
    /// Waiting for the target's protection to be restored.
    Restoring { saved: u32, trampoline: usize },
    /// A step failed before the target was written; waiting for the
    /// target's protection to be restored.
    RollingBack,
    /// The hook is in place.
    Installed { saved: u32, trampoline: usize },
    /// The install stopped.
    Failed,
}

/// The outcome of the platform step that an install asked for.
#[derive(Debug, Clone, Copy, PartialEq, Eq, Structural)]
pub enum HookEvent {
    /// Protection changed; `previous` is what it was before.
    Protected { previous: u32 },
    /// Executable memory was allocated at `address`.
    Allocated { address: usize },
    /// The requested bytes were written.
    Written,
    /// The platform refused the step.
    Refused,
}

/// The platform step that an install asks for next.
#[derive(Debug, Clone, Copy, PartialEq, Eq, Structural)]
pub enum HookAction {
    /// Set the protection of `len` bytes at `at`, and report the former one.
    Protect { at: usize, len: usize, protection: u32 },
    /// Allocate `len` bytes of executable memory.
    Allocate { len: usize },
    /// Write the plan's trampoline code at `at`.
    WriteTrampoline { at: usize },
    /// Write the plan's redirect at `at`.
    WriteRedirect { at: usize },
    /// Done: the hook is in place.
    Finish { trampoline: usize, protection: u32 },
    /// Done: the install failed.
    Abort,
}

/// The plan is usable: it holds exactly the captured bytes, and the address
/// just past them exists.
pub open spec fn plan_valid(target: usize, original: Seq<u8>) -> bool {
    &&& original.len() == PATCH_LEN
    &&& target + PATCH_LEN <= usize::MAX
}

/// The first step of an install on `target`.
pub open spec fn hook_start(target: usize) -> (HookState, HookAction) {
    (
        HookState::Unprotecting,
        HookAction::Protect { at: target, len: PATCH_LEN, protection: EXECUTE_READ_WRITE },
    )
}

/// The step that follows `event` in state `s` of an install on `target`.
/// Every byte is staged before the target is written; a failure before that
/// restores the target's protection, and a failure after it stops.
pub open spec fn hook_transition(target: usize, s: HookState, event: HookEvent) -> (
    HookState,
    HookAction,
) {
    let restore = |saved: u32| HookAction::Protect { at: target, len: PATCH_LEN, protection: saved };
    match (s, event) {
        (HookState::Unprotecting, HookEvent::Protected { previous }) => (
            HookState::Allocating { saved: previous },
            HookAction::Allocate { len: TRAMPOLINE_LEN },
        ),
        (HookState::Allocating { saved }, HookEvent::Allocated { address }) => (
            HookState::PopulatingTrampoline { saved, trampoline: address },
            HookAction::WriteTrampoline { at: address },
        ),
        (HookState::Allocating { saved }, _) => (HookState::RollingBack, restore(saved)),
        (HookState::PopulatingTrampoline { saved, trampoline }, HookEvent::Written) => (
            HookState::Redirecting { saved, trampoline },
            HookAction::WriteRedirect { at: target },
        ),
        (HookState::PopulatingTrampoline { saved, .. }, _) => (HookState::RollingBack, restore(saved)),
        (HookState::Redirecting { saved, trampoline }, HookEvent::Written) => (
            HookState::Restoring { saved, trampoline },
            restore(saved),
        ),
        (HookState::Restoring { saved, trampoline }, HookEvent::Protected { .. }) => (
            HookState::Installed { saved, trampoline },
            HookAction::Finish { trampoline, protection: saved },
        ),
        (HookState::Installed { saved, trampoline }, _) => (
            HookState::Installed { saved, trampoline },
            HookAction::Finish { trampoline, protection: saved },
        ),
        _ => (HookState::Failed, HookAction::Abort),
    }
}

impl HookPlan {
    /// A plan to hook `target` with the function at `replacement`, given the
    /// bytes captured at the target. `None` when `original` is not exactly
    /// the captured length or the target lies at the very end of the address
    /// space.
    pub fn new(target: usize, replacement: usize, original: Vec<u8>) -> (r: Option<HookPlan>)
        ensures
            r is Some <==> plan_valid(target, original@),
            r matches Some(p) ==> p.target == target && p.replacement == replacement
                && p.original@ == original@,
    {
        if original.len() != PATCH_LEN || target > usize::MAX - PATCH_LEN {
            None
        } else {
            Some(HookPlan { target, replacement, original })
        }
    }

    /// The bytes to write at the target.
    pub fn redirect(&self) -> (r: Vec<u8>)
        ensures
            r@ == redirect_bytes(self.replacement as u64),
    {
        redirect_patch(self.replacement)
    }

    /// The bytes to write into the trampoline: the captured bytes, then a
    /// jump to the first byte after them at the target.
    pub fn trampoline(&self) -> (r: Vec<u8>)
        requires
            plan_valid(self.target, self.original@),
        ensures
            r@ == trampoline_bytes(self.original@, (self.target + PATCH_LEN) as u64),
            r@.len() == TRAMPOLINE_LEN,
    {
        trampoline_code(self.original.as_slice(), self.target + PATCH_LEN)
    }

    /// The first step of the install.
    pub fn start(&self) -> (r: (HookState, HookAction))
        ensures
            r == hook_start(self.target),
    {
        (
            HookState::Unprotecting,
            HookAction::Protect { at: self.target, len: PATCH_LEN, protection: EXECUTE_READ_WRITE },
        )
    }

    /// The step that follows `event` in state `state`.
    pub fn step(&self, state: HookState, event: HookEvent) -> (r: (HookState, HookAction))
        ensures
            r == hook_transition(self.target, state, event),
    {
        let target = self.target;
        match (state, event) {
            (HookState::Unprotecting, HookEvent::Protected { previous }) => (
                HookState::Allocating { saved: previous },
                HookAction::Allocate { len: TRAMPOLINE_LEN },
            ),
            (HookState::Allocating { saved }, HookEvent::Allocated { address }) => (
                HookState::PopulatingTrampoline { saved, trampoline: address },
                HookAction::WriteTrampoline { at: address },
            ),
            (HookState::Allocating { saved }, _) => (
                HookState::RollingBack,
                HookAction::Protect { at: target, len: PATCH_LEN, protection: saved },
            ),
            (HookState::PopulatingTrampoline { saved, trampoline }, HookEvent::Written) => (
                HookState::Redirecting { saved, trampoline },
                HookAction::WriteRedirect { at: target },
            ),
            (HookState::PopulatingTrampoline { saved, .. }, _) => (
                HookState::RollingBack,
                HookAction::Protect { at: target, len: PATCH_LEN, protection: saved },
            ),
            (HookState::Redirecting { saved, trampoline }, HookEvent::Written) => (
                HookState::Restoring { saved, trampoline },
                HookAction::Protect { at: target, len: PATCH_LEN, protection: saved },
            ),
            (HookState::Restoring { saved, trampoline }, HookEvent::Protected { .. }) => (
                HookState::Installed { saved, trampoline },
                HookAction::Finish { trampoline, protection: saved },
            ),
            (HookState::Installed { saved, trampoline }, _) => (
                HookState::Installed { saved, trampoline },
                HookAction::Finish { trampoline, protection: saved },
            ),
            _ => (HookState::Failed, HookAction::Abort),
        }
    }

    /// The record of the installed hook.
    pub fn into_record(self, trampoline: usize, protection: u32) -> (r: HookRecord)
        ensures
            r.target == self.target,
            r.trampoline == trampoline,
            r.original@ == self.original@,
            r.protection == protection,
    {
        HookRecord { target: self.target, trampoline, original: self.original, protection }
    }
}

/// After an install, the target starts with the opcode that loads a 64-bit
/// immediate into a register, not with the bytes it held before.
pub proof fn lemma_redirect_starts_with_load(dest: u64)
    ensures
        redirect_bytes(dest).len() == PATCH_LEN,
        redirect_bytes(dest)[0] == 0x48u8,
        redirect_bytes(dest)[1] == 0xB8u8,
{
}

/// The target is written only right after the trampoline's bytes were
/// written, and the write goes to the target itself.
pub proof fn lemma_redirect_after_trampoline(
    target: usize,
    s: HookState,
    event: HookEvent,
    at: usize,
)
    requires
        hook_transition(target, s, event).1 == (HookAction::WriteRedirect { at }),
    ensures
        at == target,
        s matches HookState::PopulatingTrampoline { .. },
        event == HookEvent::Written,
{
}

/// Every failure that comes after the target was made writable and before
/// it was written asks for the target's former protection back.
pub proof fn lemma_failure_restores_protection(target: usize, s: HookState, event: HookEvent)
    requires
        s matches HookState::Allocating { .. } || s matches HookState::PopulatingTrampoline { .. },
        hook_transition(target, s, event).0 == HookState::RollingBack,
    ensures
        hook_transition(target, s, event).1 == (HookAction::Protect {
            at: target,
            len: PATCH_LEN,
            protection: match s {
                HookState::Allocating { saved } => saved,
                HookState::PopulatingTrampoline { saved, .. } => saved,
                _ => 0,
            },
        }),
{
}

} // verus!
