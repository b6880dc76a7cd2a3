use soulmemory_rs::hooks::{bytes_equal, CallingConvention, HookAction, HookDescriptor, HookError, HookState, Validation};

const ORIGINAL: [u8; 5] = [0x48, 0x89, 0x5c, 0x24, 0x18];
const REDIRECT: [u8; 5] = [0xe9, 0x10, 0x20, 0x30, 0x40];

fn installed() -> HookDescriptor {
    let mut h = HookDescriptor::new(0x1400_1000, 1, CallingConvention::Win64, ORIGINAL.to_vec());
    assert_eq!(h.install(REDIRECT.to_vec()), Ok(()));
    h
}

#[test]
fn restored_bytes_are_tampered_exactly_once() {
    let mut h = installed();
    assert_eq!(h.check(&ORIGINAL), (Validation::Tampered, HookAction::Reinstall));
    assert_eq!(h.reinstalls(), 1);
    // the owner reinstalls: the redirect is back
    for _ in 0..5 {
        assert_eq!(h.check(&REDIRECT), (Validation::Valid, HookAction::Keep));
    }
    assert_eq!(h.reinstalls(), 1);
}

#[test]
fn partial_overwrite_is_detected() {
    let h = installed();
    assert_eq!(h.validate(&[0xe9, 0x10, 0x20, 0x30, 0x41]), Validation::Tampered);
    assert_eq!(h.validate(&REDIRECT), Validation::Valid);
}

#[test]
fn disabled_hook_expects_original_bytes() {
    let mut h = installed();
    assert_eq!(h.disable(), Ok(()));
    assert_eq!(h.state(), HookState::Disabled);
    assert_eq!(h.validate(&ORIGINAL), Validation::Valid);
    assert_eq!(h.check(&REDIRECT), (Validation::Tampered, HookAction::Keep));
    assert_eq!(h.reinstalls(), 0);
    assert_eq!(h.enable(), Ok(()));
    assert_eq!(h.expected(), &REDIRECT.to_vec());
}

#[test]
fn install_that_wrote_nothing_fails() {
    let mut h = HookDescriptor::new(0x10, 2, CallingConvention::Thiscall, ORIGINAL.to_vec());
    assert_eq!(h.install(ORIGINAL.to_vec()), Err(HookError::HookInstallFailed));
    assert_eq!(h.install(vec![0xe9]), Err(HookError::HookInstallFailed));
    assert_eq!(h.state(), HookState::Uninstalled);
    assert_eq!(h.install(REDIRECT.to_vec()), Ok(()));
    assert_eq!(h.install(REDIRECT.to_vec()), Err(HookError::AlreadyInstalled));
    assert_eq!(h.convention(), CallingConvention::Thiscall);
    assert_eq!(h.callback(), 2);
    assert_eq!(h.target(), 0x10);
}

#[test]
fn lifecycle_ends_in_uninstalled() {
    let mut h = installed();
    assert_eq!(h.uninstall(), Ok(()));
    assert_eq!(h.state(), HookState::Uninstalled);
    assert_eq!(h.uninstall(), Err(HookError::NotInstalled));
    assert_eq!(h.enable(), Err(HookError::NotInstalled));
    assert_eq!(h.disable(), Err(HookError::NotInstalled));
    assert_eq!(h.original(), &ORIGINAL.to_vec());
}

#[test]
fn byte_comparison() {
    assert!(bytes_equal(&[1, 2, 3], &[1, 2, 3]));
    assert!(!bytes_equal(&[1, 2, 3], &[1, 2]));
    assert!(!bytes_equal(&[1, 2, 3], &[1, 2, 4]));
    assert!(bytes_equal(&[], &[]));
}
