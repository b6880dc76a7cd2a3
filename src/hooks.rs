//! Inline hooks: what is known about each hook site and how the live bytes
//! there are judged.
use vstd::prelude::*;

verus! {

/// How the hooked function takes its arguments and returns its result.
/// Declared by the caller for every hook site, never inferred.
#[derive(Clone, Copy, Debug, PartialEq, Eq, Structural)]
pub enum CallingConvention {
    Win64,
    Cdecl,
    Stdcall,
    Thiscall,
    Fastcall,
}

#[derive(Clone, Copy, Debug, PartialEq, Eq, Structural)]
pub enum HookState {
    Uninstalled,
    Enabled,
    Disabled,
}

/// The verdict on the live bytes of a hook site.
#[derive(Clone, Copy, Debug, PartialEq, Eq, Structural)]
pub enum Validation {
    Valid,
    Tampered,
}

/// What the owner of a hook must do after a check.
#[derive(Clone, Copy, Debug, PartialEq, Eq, Structural)]
pub enum HookAction {
    Keep,
    /// Disable the hook, then enable it again.
    Reinstall,
}

#[derive(Clone, Copy, Debug, PartialEq, Eq, Structural)]
pub enum HookError {
    /// The redirect was not written: the bytes after installing are those
    /// of before, or of another length.
    HookInstallFailed,
    AlreadyInstalled,
    NotInstalled,
}

/// The bytes a hook site holds while the hook is in `state`.
pub open spec fn expected_bytes(state: HookState, original: Seq<u8>, patched: Seq<u8>) -> Seq<u8> {
    if state == HookState::Enabled {
        patched
    } else {
        original
    }
}

/// The verdict on `live` bytes and what to do about it: an enabled hook
/// whose bytes differ from the redirect is reinstalled.
pub open spec fn check_outcome(state: HookState, original: Seq<u8>, patched: Seq<u8>, live: Seq<u8>) -> (Validation, HookAction) {
    if live == expected_bytes(state, original, patched) {
        (Validation::Valid, HookAction::Keep)
    } else if state == HookState::Enabled {
        (Validation::Tampered, HookAction::Reinstall)
    } else {
        (Validation::Tampered, HookAction::Keep)
    }
}

/// A hook site: its address, the callback it leads to, the calling
/// convention, the bytes before and after the redirect, and its state.
pub struct HookDescriptor {
    target: u64,
    callback: u32,
    convention: CallingConvention,
    original: Vec<u8>,
    patched: Vec<u8>,
    state: HookState,
    reinstalls: u64,
}

/// Are `a` and `b` the same bytes?
pub fn bytes_equal(a: &[u8], b: &[u8]) -> (r: bool)
    ensures
        r == (a@ == b@),
{
    if a.len() != b.len() {
        return false;
    }
    let mut i: usize = 0;
    while i < a.len()
        invariant
            a@.len() == b@.len(),
            i <= a@.len(),
            forall|j: int| 0 <= j < i ==> a@[j] == b@[j],
        decreases a@.len() - i,
    {
        if a[i] != b[i] {
            return false;
        }
        i = i + 1;
    }
    assert(a@ =~= b@);
    true
}

impl HookDescriptor {
    /// An installed hook's redirect is as long as the bytes it replaced
    /// and differs from them.
    #[verifier::type_invariant]
    spec fn well_formed(&self) -> bool {
        self.state != HookState::Uninstalled ==> self.patched@.len() == self.original@.len()
            && self.patched@ != self.original@
    }

    pub closed spec fn target_view(&self) -> u64 {
        self.target
    }

    pub closed spec fn callback_view(&self) -> u32 {
        self.callback
    }

    pub closed spec fn convention_view(&self) -> CallingConvention {
        self.convention
    }

    pub closed spec fn original_view(&self) -> Seq<u8> {
        self.original@
    }

    pub closed spec fn patched_view(&self) -> Seq<u8> {
        self.patched@
    }

    pub closed spec fn state_view(&self) -> HookState {
        self.state
    }

    pub closed spec fn reinstalls_view(&self) -> u64 {
        self.reinstalls
    }

    /// A hook site not yet hooked, with the bytes it held before.
    pub fn new(target: u64, callback: u32, convention: CallingConvention, original: Vec<u8>) -> (r: HookDescriptor)
        ensures
            r.target_view() == target,
            r.callback_view() == callback,
            r.convention_view() == convention,
            r.original_view() == original@,
            r.patched_view().len() == 0,
            r.state_view() == HookState::Uninstalled,
            r.reinstalls_view() == 0,
    {
        HookDescriptor {
            target,
            callback,
            convention,
            original,
            patched: Vec::new(),
            state: HookState::Uninstalled,
            reinstalls: 0,
        }
    }

    pub fn target(&self) -> (r: u64)
        ensures
            r == self.target_view(),
    {
        self.target
    }

    pub fn callback(&self) -> (r: u32)
        ensures
            r == self.callback_view(),
    {
        self.callback
    }

    pub fn convention(&self) -> (r: CallingConvention)
        ensures
            r == self.convention_view(),
    {
        self.convention
    }

    pub fn state(&self) -> (r: HookState)
        ensures
            r == self.state_view(),
    {
        self.state
    }

    pub fn reinstalls(&self) -> (r: u64)
        ensures
            r == self.reinstalls_view(),
    {
        self.reinstalls
    }

    pub fn original(&self) -> (r: &Vec<u8>)
        ensures
            r@ == self.original_view(),
    {
        &self.original
    }

    /// Records the bytes read at the site after the redirect was written.
    /// Fails unless the hook is uninstalled and `patched` is a redirect:
    /// as long as the bytes it replaced and different from them.
    pub fn install(&mut self, patched: Vec<u8>) -> (r: Result<(), HookError>)
        ensures
            old(self).state_view() != HookState::Uninstalled ==> r == Err::<(), HookError>(HookError::AlreadyInstalled),
            old(self).state_view() == HookState::Uninstalled ==> (r is Ok <==> (patched@.len()
                == old(self).original_view().len() && patched@ != old(self).original_view())),
            old(self).state_view() == HookState::Uninstalled && r is Err ==> r == Err::<(), HookError>(HookError::HookInstallFailed),
            r is Ok ==> final(self).state_view() == HookState::Enabled && final(self).patched_view() == patched@,
            r is Err ==> final(self).state_view() == old(self).state_view() && final(self).patched_view() == old(self).patched_view(),
            final(self).target_view() == old(self).target_view(),
            final(self).callback_view() == old(self).callback_view(),
            final(self).convention_view() == old(self).convention_view(),
            final(self).original_view() == old(self).original_view(),
            final(self).reinstalls_view() == old(self).reinstalls_view(),
    {
        if self.state != HookState::Uninstalled {
            return Err(HookError::AlreadyInstalled);
        }
        if patched.len() != self.original.len() || bytes_equal(patched.as_slice(), self.original.as_slice()) {
            return Err(HookError::HookInstallFailed);
        }
        self.patched = patched;
        self.state = HookState::Enabled;
        Ok(())
    }

    /// Marks an installed hook enabled.
    pub fn enable(&mut self) -> (r: Result<(), HookError>)
        ensures
            r is Ok <==> old(self).state_view() != HookState::Uninstalled,
            r is Err ==> r == Err::<(), HookError>(HookError::NotInstalled) && final(self).state_view() == old(self).state_view(),
            r is Ok ==> final(self).state_view() == HookState::Enabled,
            final(self).original_view() == old(self).original_view(),
            final(self).patched_view() == old(self).patched_view(),
            final(self).target_view() == old(self).target_view(),
            final(self).reinstalls_view() == old(self).reinstalls_view(),
    {
        proof {
            use_type_invariant(&*self);
        }
        if self.state == HookState::Uninstalled {
            return Err(HookError::NotInstalled);
        }
        self.state = HookState::Enabled;
        Ok(())
    }

    /// Marks an installed hook disabled: its site holds the bytes from before.
    pub fn disable(&mut self) -> (r: Result<(), HookError>)
        ensures
            r is Ok <==> old(self).state_view() != HookState::Uninstalled,
            r is Err ==> r == Err::<(), HookError>(HookError::NotInstalled) && final(self).state_view() == old(self).state_view(),
            r is Ok ==> final(self).state_view() == HookState::Disabled,
            final(self).original_view() == old(self).original_view(),
            final(self).patched_view() == old(self).patched_view(),
            final(self).target_view() == old(self).target_view(),
            final(self).reinstalls_view() == old(self).reinstalls_view(),
    {
        proof {
            use_type_invariant(&*self);
        }
        if self.state == HookState::Uninstalled {
            return Err(HookError::NotInstalled);
        }
        self.state = HookState::Disabled;
        Ok(())
    }

    /// Marks the hook removed, once the bytes from before are written back.
    pub fn uninstall(&mut self) -> (r: Result<(), HookError>)
        ensures
            r is Ok <==> old(self).state_view() != HookState::Uninstalled,
            r is Err ==> r == Err::<(), HookError>(HookError::NotInstalled),
            final(self).state_view() == HookState::Uninstalled,
            final(self).original_view() == old(self).original_view(),
            final(self).target_view() == old(self).target_view(),
            final(self).reinstalls_view() == old(self).reinstalls_view(),
    {
        if self.state == HookState::Uninstalled {
            return Err(HookError::NotInstalled);
        }
        self.state = HookState::Uninstalled;
        Ok(())
    }

    /// The bytes the site should hold now.
    pub fn expected(&self) -> (r: &Vec<u8>)
        ensures
            r@ == expected_bytes(self.state_view(), self.original_view(), self.patched_view()),
    {
        match self.state {
            HookState::Enabled => &self.patched,
            _ => &self.original,
        }
    }

    /// Judges the live bytes of the site against those the hook predicts.
    pub fn validate(&self, live: &[u8]) -> (r: Validation)
        ensures
            r == check_outcome(self.state_view(), self.original_view(), self.patched_view(), live@).0,
    {
        if bytes_equal(live, self.expected().as_slice()) {
            Validation::Valid
        } else {
            Validation::Tampered
        }
    }

    /// Validates the live bytes and says whether to reinstall; counts each
    /// reinstall asked for.
    pub fn check(&mut self, live: &[u8]) -> (r: (Validation, HookAction))
        ensures
            r == check_outcome(old(self).state_view(), old(self).original_view(), old(self).patched_view(), live@),
            final(self).reinstalls_view() == (if r.1 == HookAction::Reinstall && old(self).reinstalls_view() < u64::MAX {
                (old(self).reinstalls_view() + 1) as u64
            } else {
                old(self).reinstalls_view()
            }),
            final(self).state_view() == old(self).state_view(),
            final(self).original_view() == old(self).original_view(),
            final(self).patched_view() == old(self).patched_view(),
            final(self).target_view() == old(self).target_view(),
            final(self).callback_view() == old(self).callback_view(),
            final(self).convention_view() == old(self).convention_view(),
    {
        proof {
            use_type_invariant(&*self);
        }
        let v = self.validate(live);
        if v == Validation::Tampered && self.state == HookState::Enabled {
            if self.reinstalls < u64::MAX {
                self.reinstalls = self.reinstalls + 1;
            }
            (v, HookAction::Reinstall)
        } else {
            (v, HookAction::Keep)
        }
    }
}

/// How many of the checks of live bytes `lives`, in order, ask for a
/// reinstall of a hook in `state` (checks leave the state as it is).
pub open spec fn reinstalls_asked(state: HookState, original: Seq<u8>, patched: Seq<u8>, lives: Seq<Seq<u8>>) -> nat
    decreases lives.len(),
{
    if lives.len() == 0 {
        0
    } else {
        reinstalls_asked(state, original, patched, lives.drop_last()) + if check_outcome(
            state,
            original,
            patched,
            lives.last(),
        ).1 == HookAction::Reinstall {
            1nat
        } else {
            0nat
        }
    }
}

/// `k` copies of `b`.
pub open spec fn repeated(b: Seq<u8>, k: nat) -> Seq<Seq<u8>> {
    Seq::new(k, |i: int| b)
}

proof fn lemma_healed_checks_ask_nothing(original: Seq<u8>, patched: Seq<u8>, first: Seq<Seq<u8>>, k: nat)
    ensures
        reinstalls_asked(HookState::Enabled, original, patched, first + repeated(patched, k))
            == reinstalls_asked(HookState::Enabled, original, patched, first),
    decreases k,
{
    let lives = first + repeated(patched, k);
    if k == 0 {
        assert(lives =~= first);
    } else {
        lemma_healed_checks_ask_nothing(original, patched, first, (k - 1) as nat);
        assert(lives.drop_last() =~= first + repeated(patched, (k - 1) as nat));
        assert(lives.last() == patched);
    }
}

/// An enabled hook whose site was restored to the bytes from before the
/// hook is found tampered and reinstalled once; once the redirect is back,
/// any number of later checks find it valid and ask for no reinstall.
pub proof fn lemma_restored_site_heals_once(original: Seq<u8>, patched: Seq<u8>, later_checks: nat)
    requires
        original != patched,
    ensures
        check_outcome(HookState::Enabled, original, patched, original) == (Validation::Tampered, HookAction::Reinstall),
        check_outcome(HookState::Enabled, original, patched, patched) == (Validation::Valid, HookAction::Keep),
        reinstalls_asked(
            HookState::Enabled,
            original,
            patched,
            seq![original] + repeated(patched, later_checks),
        ) == 1,
{
    lemma_healed_checks_ask_nothing(original, patched, seq![original], later_checks);
    let one = seq![original];
    assert(one.drop_last() =~= Seq::<Seq<u8>>::empty());
    assert(reinstalls_asked(HookState::Enabled, original, patched, Seq::<Seq<u8>>::empty()) == 0);
    assert(reinstalls_asked(HookState::Enabled, original, patched, one) == 1);
}

} // verus!
