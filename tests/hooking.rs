use transcend::hook::{
    redirect_patch, trampoline_code, HookAction, HookEvent, HookPlan, HookState,
    EXECUTE_READ_WRITE, NOP, PATCH_LEN, TRAMPOLINE_LEN,
};

const ORIGINAL: [u8; 14] = [
    0x48, 0x89, 0x5C, 0x24, 0x08, 0x57, 0x48, 0x83, 0xEC, 0x20, 0x8B, 0xD9, 0x33, 0xFF,
];

#[test]
fn redirect_bytes_are_mov_rax_jmp_rax_and_padding() {
    let patch = redirect_patch(0x1122_3344_5566_7788);
    assert_eq!(
        patch,
        vec![
            0x48, 0xB8, 0x88, 0x77, 0x66, 0x55, 0x44, 0x33, 0x22, 0x11, 0xFF, 0xE0, NOP, NOP
        ]
    );
    assert_eq!(patch.len(), PATCH_LEN);
}

#[test]
fn trampoline_holds_original_then_jump_back() {
    let code = trampoline_code(&ORIGINAL, 0x7FF6_0000_100E);
    let mut expected = ORIGINAL.to_vec();
    expected.extend_from_slice(&[0xFF, 0x25, 0, 0, 0, 0]);
    expected.extend_from_slice(&0x7FF6_0000_100Eu64.to_le_bytes());
    assert_eq!(code, expected);
    assert_eq!(code.len(), TRAMPOLINE_LEN);
}

#[test]
fn plan_needs_exact_capture_and_room_after_target() {
    assert!(HookPlan::new(0x1000, 0x2000, ORIGINAL[..13].to_vec()).is_none());
    assert!(HookPlan::new(0x1000, 0x2000, vec![0u8; 15]).is_none());
    assert!(HookPlan::new(usize::MAX - 13, 0x2000, ORIGINAL.to_vec()).is_none());
    let plan = HookPlan::new(usize::MAX - 14, 0x2000, ORIGINAL.to_vec()).unwrap();
    assert_eq!(plan.target, usize::MAX - 14);
    assert_eq!(plan.replacement, 0x2000);
    assert_eq!(plan.original, ORIGINAL.to_vec());
}

/// Runs an install against memory held in vectors: the target's code and the
/// trampoline region. `fail_alloc` makes the allocation step fail.
fn run(fail_alloc: bool) -> (Vec<u8>, Vec<u8>, Vec<HookAction>, HookAction) {
    let target = 0x1000usize;
    let trampoline_at = 0x9000usize;
    let mut code = ORIGINAL.to_vec();
    code.extend_from_slice(&[0xC3, 0xCC]);
    let mut tramp = vec![0u8; TRAMPOLINE_LEN];
    let mut protection = 0x20u32;
    let plan = HookPlan::new(target, 0xABCD_EF01, code[..PATCH_LEN].to_vec()).unwrap();
    let (mut state, mut action) = plan.start();
    let mut seen = Vec::new();
    loop {
        seen.push(action);
        let event = match action {
            HookAction::Protect { at, len, protection: p } => {
                assert_eq!((at, len), (target, PATCH_LEN));
                let previous = protection;
                protection = p;
                HookEvent::Protected { previous }
            }
            HookAction::Allocate { len } => {
                assert_eq!(len, TRAMPOLINE_LEN);
                if fail_alloc {
                    HookEvent::Refused
                } else {
                    HookEvent::Allocated { address: trampoline_at }
                }
            }
            HookAction::WriteTrampoline { at } => {
                assert_eq!(at, trampoline_at);
                tramp = plan.trampoline();
                HookEvent::Written
            }
            HookAction::WriteRedirect { at } => {
                assert_eq!(at, target);
                code[..PATCH_LEN].copy_from_slice(&plan.redirect());
                HookEvent::Written
            }
            HookAction::Finish { .. } | HookAction::Abort => break,
        };
        let next = plan.step(state, event);
        state = next.0;
        action = next.1;
    }
    assert_eq!(protection, 0x20);
    (code, tramp, seen, action)
}

#[test]
fn installed_hook_starts_with_load_immediate() {
    let (code, tramp, seen, last) = run(false);
    assert_eq!(&code[..2], &[0x48, 0xB8]);
    assert_ne!(&code[..2], &ORIGINAL[..2]);
    assert_eq!(&code[2..10], &0xABCD_EF01u64.to_le_bytes());
    assert_eq!(&code[14..], &[0xC3, 0xCC]);
    assert_eq!(&tramp[..PATCH_LEN], &ORIGINAL);
    assert_eq!(&tramp[PATCH_LEN + 6..], &(0x1000u64 + 14).to_le_bytes());
    assert_eq!(
        seen[0],
        HookAction::Protect { at: 0x1000, len: PATCH_LEN, protection: EXECUTE_READ_WRITE }
    );
    assert_eq!(last, HookAction::Finish { trampoline: 0x9000, protection: 0x20 });
}

#[test]
fn hook_record_keeps_what_undo_needs() {
    let plan = HookPlan::new(0x1000, 0x2000, ORIGINAL.to_vec()).unwrap();
    let record = plan.into_record(0x9000, 0x20);
    assert_eq!(record.target, 0x1000);
    assert_eq!(record.trampoline, 0x9000);
    assert_eq!(record.original, ORIGINAL.to_vec());
    assert_eq!(record.protection, 0x20);
}

#[test]
fn failed_allocation_restores_protection_and_leaves_target() {
    let (code, _, seen, last) = run(true);
    assert_eq!(&code[..PATCH_LEN], &ORIGINAL);
    assert_eq!(last, HookAction::Abort);
    assert_eq!(
        seen[seen.len() - 2],
        HookAction::Protect { at: 0x1000, len: PATCH_LEN, protection: 0x20 }
    );
}

#[test]
fn refused_protection_stops_at_once() {
    let plan = HookPlan::new(0x1000, 0x2000, ORIGINAL.to_vec()).unwrap();
    let (state, _) = plan.start();
    assert_eq!(plan.step(state, HookEvent::Refused), (HookState::Failed, HookAction::Abort));
}

#[test]
fn refused_trampoline_write_rolls_back() {
    let plan = HookPlan::new(0x1000, 0x2000, ORIGINAL.to_vec()).unwrap();
    let s = HookState::PopulatingTrampoline { saved: 4, trampoline: 0x9000 };
    let (next, action) = plan.step(s, HookEvent::Refused);
    assert_eq!(next, HookState::RollingBack);
    assert_eq!(action, HookAction::Protect { at: 0x1000, len: PATCH_LEN, protection: 4 });
    assert_eq!(plan.step(next, HookEvent::Protected { previous: 0x40 }), (HookState::Failed, HookAction::Abort));
}

#[test]
fn refused_redirect_write_fails() {
    let plan = HookPlan::new(0x1000, 0x2000, ORIGINAL.to_vec()).unwrap();
    let s = HookState::Redirecting { saved: 4, trampoline: 0x9000 };
    assert_eq!(plan.step(s, HookEvent::Refused), (HookState::Failed, HookAction::Abort));
}

#[test]
fn installed_state_stays_installed() {
    let plan = HookPlan::new(0x1000, 0x2000, ORIGINAL.to_vec()).unwrap();
    let s = HookState::Installed { saved: 4, trampoline: 0x9000 };
    assert_eq!(
        plan.step(s, HookEvent::Written),
        (s, HookAction::Finish { trampoline: 0x9000, protection: 4 })
    );
}
