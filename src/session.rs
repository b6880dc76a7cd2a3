//! The attach lifecycle: a session with a named process, the addresses
//! resolved in it and the hooks installed in it.
use vstd::prelude::*;
use crate::pattern::{ScanError, ScanPattern, resolve_spec};
use crate::pointer::{PointerChain, PointerWidth};
use crate::hooks::{HookAction, HookDescriptor, Validation, check_outcome};

verus! {

/// Where the target's main module lies, as found on attaching.
#[derive(Clone, Copy, Debug, PartialEq, Eq, Structural)]
pub struct ModuleInfo {
    pub base: u64,
    pub size: u64,
    pub width: PointerWidth,
}

#[derive(Clone, Copy, Debug, PartialEq, Eq, Structural)]
pub enum SessionError {
    /// No running process has the target's name.
    ProcessNotFound,
    /// The attached process has exited; the session is detached.
    ProcessExited,
    /// A pattern did not resolve; the attach attempt was abandoned.
    Scan(ScanError),
    /// No hook has that index.
    UnknownHook,
}

/// What the owner must do on this tick.
#[derive(Clone, Copy, Debug, PartialEq, Eq, Structural)]
pub enum RefreshAction {
    /// Look for the process; on success hand over its main module.
    Discover,
    /// Check every hook site, then whether the process is still alive.
    Revalidate,
}

/// The addresses that `patterns` resolve to, or the error of the first
/// that does not resolve.
pub open spec fn resolve_all(module: Seq<u8>, base: int, patterns: Seq<ScanPattern>) -> Result<Seq<int>, ScanError>
    decreases patterns.len(),
{
    if patterns.len() == 0 {
        Ok(Seq::empty())
    } else {
        match resolve_all(module, base, patterns.drop_last()) {
            Err(e) => Err(e),
            Ok(s) => match resolve_spec(module, base, patterns.last().bytes@, patterns.last().mode) {
                Err(e) => Err(e),
                Ok(a) => Ok(s.push(a)),
            },
        }
    }
}

/// A session with one target process: attachment, the pointer chains
/// resolved for it, and its hooks. Everything derived is dropped when the
/// session detaches.
pub struct GameSession {
    name: String,
    module: Option<ModuleInfo>,
    patterns: Vec<ScanPattern>,
    chains: Vec<PointerChain>,
    hooks: Vec<HookDescriptor>,
}

/// Do `chains` hold the addresses `addrs` with the offsets of `patterns`?
pub open spec fn chains_match(chains: Seq<PointerChain>, addrs: Seq<int>, patterns: Seq<ScanPattern>, width: PointerWidth) -> bool {
    &&& chains.len() == addrs.len() == patterns.len()
    &&& forall|i: int|
        0 <= i < chains.len() ==> (#[trigger] chains[i]).base == addrs[i] && chains[i].offsets@
            == patterns[i].offsets@ && chains[i].width == width
}

impl GameSession {
    /// Well-formed: a detached session holds nothing derived; an attached
    /// one holds a chain for every pattern.
    pub closed spec fn wf(&self) -> bool {
        &&& self.module is None ==> self.chains@.len() == 0 && self.hooks@.len() == 0
        &&& self.module is Some ==> self.chains@.len() == self.patterns@.len()
    }

    pub closed spec fn name_view(&self) -> Seq<char> {
        self.name@
    }

    pub closed spec fn module_view(&self) -> Option<ModuleInfo> {
        self.module
    }

    pub closed spec fn patterns_view(&self) -> Seq<ScanPattern> {
        self.patterns@
    }

    pub closed spec fn chains_view(&self) -> Seq<PointerChain> {
        self.chains@
    }

    pub closed spec fn hooks_view(&self) -> Seq<HookDescriptor> {
        self.hooks@
    }

    /// A detached session for the process called `name`, which resolves
    /// `patterns` on every attach.
    pub fn new(name: String, patterns: Vec<ScanPattern>) -> (r: GameSession)
        ensures
            r.name_view() == name@,
            r.patterns_view() == patterns@,
            r.module_view() is None,
            r.chains_view().len() == 0,
            r.hooks_view().len() == 0,
            r.wf(),
    {
        GameSession { name, module: None, patterns, chains: Vec::new(), hooks: Vec::new() }
    }

    pub fn name(&self) -> (r: &String)
        ensures
            r@ == self.name_view(),
    {
        &self.name
    }

    pub fn is_attached(&self) -> (r: bool)
        ensures
            r == self.module_view() is Some,
    {
        self.module.is_some()
    }

    pub fn module(&self) -> (r: Option<ModuleInfo>)
        ensures
            r == self.module_view(),
    {
        self.module
    }

    /// What this tick must do: discover while detached, revalidate while
    /// attached.
    pub fn plan(&self) -> (r: RefreshAction)
        ensures
            r == (if self.module_view() is Some {
                RefreshAction::Revalidate
            } else {
                RefreshAction::Discover
            }),
    {
        if self.module.is_some() {
            RefreshAction::Revalidate
        } else {
            RefreshAction::Discover
        }
    }

    /// The chain resolved for pattern `i`.
    pub fn chain(&self, i: usize) -> (r: Option<&PointerChain>)
        ensures
            i < self.chains_view().len() ==> r == Some(&self.chains_view()[i as int]),
            i >= self.chains_view().len() ==> r is None,
    {
        if i < self.chains.len() {
            Some(&self.chains[i])
        } else {
            None
        }
    }

    pub fn hook(&self, i: usize) -> (r: Option<&HookDescriptor>)
        ensures
            i < self.hooks_view().len() ==> r == Some(&self.hooks_view()[i as int]),
            i >= self.hooks_view().len() ==> r is None,
    {
        if i < self.hooks.len() {
            Some(&self.hooks[i])
        } else {
            None
        }
    }

    pub fn hook_count(&self) -> (r: usize)
        ensures
            r == self.hooks_view().len(),
    {
        self.hooks.len()
    }

    /// Drops the attachment and everything derived from it.
    pub fn detach(&mut self)
        ensures
            final(self).wf(),
            final(self).module_view() is None,
            final(self).chains_view().len() == 0,
            final(self).hooks_view().len() == 0,
            final(self).name_view() == old(self).name_view(),
            final(self).patterns_view() == old(self).patterns_view(),
    {
        self.module = None;
        self.chains = Vec::new();
        self.hooks = Vec::new();
    }

    /// Attaches to the process found (if any) and resolves every pattern
    /// against its main module, `module` being that module's bytes. A
    /// pattern that does not resolve abandons the attempt.
    /// Any earlier attachment is dropped first.
    pub fn discover(&mut self, found: Option<ModuleInfo>, module: &[u8]) -> (r: Result<(), SessionError>)
        ensures
            final(self).wf(),
            final(self).name_view() == old(self).name_view(),
            final(self).patterns_view() == old(self).patterns_view(),
            final(self).hooks_view().len() == 0,
            found is None ==> r == Err::<(), SessionError>(SessionError::ProcessNotFound),
            found matches Some(m) ==> match resolve_all(module@, m.base as int, old(self).patterns_view()) {
                Ok(addrs) => r is Ok && final(self).module_view() == found && chains_match(
                    final(self).chains_view(),
                    addrs,
                    old(self).patterns_view(),
                    m.width,
                ),
                Err(e) => r == Err::<(), SessionError>(SessionError::Scan(e)),
            },
            r is Err ==> final(self).module_view() is None && final(self).chains_view().len() == 0,
    {
        self.detach();
        let m = match found {
            None => {
                return Err(SessionError::ProcessNotFound);
            },
            Some(m) => m,
        };
        let mut chains: Vec<PointerChain> = Vec::new();
        let mut i: usize = 0;
        let ghost pats = self.patterns@;
        let ghost name0 = self.name@;
        assert(pats.subrange(0, 0) =~= Seq::<ScanPattern>::empty());
        while i < self.patterns.len()
            invariant
                pats == self.patterns@,
                pats == old(self).patterns_view(),
                name0 == self.name@,
                name0 == old(self).name_view(),
                found == Some(m),
                self.module is None,
                self.hooks@.len() == 0,
                i <= pats.len(),
                resolve_all(module@, m.base as int, pats.subrange(0, i as int)) matches Ok(addrs) && chains_match(
                    chains@,
                    addrs,
                    pats.subrange(0, i as int),
                    m.width,
                ),
            decreases pats.len() - i,
        {
            let ghost prefix = pats.subrange(0, i as int + 1);
            assert(prefix.drop_last() =~= pats.subrange(0, i as int));
            assert(prefix.last() == pats[i as int]);
            match self.patterns[i].resolve(module, m.base, m.width) {
                Ok(c) => {
                    let ghost addrs = resolve_all(module@, m.base as int, pats.subrange(0, i as int))->Ok_0;
                    chains.push(c);
                    assert(chains_match(chains@, addrs.push(c.base as int), prefix, m.width));
                },
                Err(e) => {
                    proof {
                        lemma_resolve_all_error_stays(module@, m.base as int, pats, i as int + 1);
                    }
                    self.chains = Vec::new();
                    return Err(SessionError::Scan(e));
                },
            }
            i = i + 1;
        }
        assert(pats.subrange(0, i as int) =~= pats);
        assert(chains@.len() == pats.len());
        self.chains = chains;
        self.module = Some(m);
        Ok(())
    }

    /// Records a hook installed at one of this session's sites; a
    /// detached session has no sites and refuses it.
    pub fn add_hook(&mut self, hook: HookDescriptor) -> (r: bool)
        ensures
            r == old(self).module_view() is Some,
            r ==> final(self).hooks_view() == old(self).hooks_view().push(hook),
            !r ==> final(self).hooks_view() == old(self).hooks_view(),
            old(self).wf() ==> final(self).wf(),
            final(self).module_view() == old(self).module_view(),
            final(self).chains_view() == old(self).chains_view(),
            final(self).name_view() == old(self).name_view(),
            final(self).patterns_view() == old(self).patterns_view(),
    {
        if self.module.is_none() {
            return false;
        }
        self.hooks.push(hook);
        true
    }

    /// Checks the live bytes of hook `i`; says whether to reinstall it.
    pub fn check_hook(&mut self, i: usize, live: &[u8]) -> (r: Result<(Validation, HookAction), SessionError>)
        ensures
            i >= old(self).hooks_view().len() ==> r == Err::<(Validation, HookAction), SessionError>(SessionError::UnknownHook)
                && final(self).hooks_view() == old(self).hooks_view(),
            i < old(self).hooks_view().len() ==> ({
                let h = old(self).hooks_view()[i as int];
                &&& r == Ok::<(Validation, HookAction), SessionError>(
                    check_outcome(h.state_view(), h.original_view(), h.patched_view(), live@),
                )
                &&& final(self).hooks_view().len() == old(self).hooks_view().len()
                &&& forall|j: int| 0 <= j < old(self).hooks_view().len() && j != i
                    ==> final(self).hooks_view()[j] == old(self).hooks_view()[j]
                &&& final(self).hooks_view()[i as int].state_view() == h.state_view()
                &&& final(self).hooks_view()[i as int].original_view() == h.original_view()
                &&& final(self).hooks_view()[i as int].patched_view() == h.patched_view()
            }),
            final(self).module_view() == old(self).module_view(),
            final(self).chains_view() == old(self).chains_view(),
            final(self).name_view() == old(self).name_view(),
            final(self).patterns_view() == old(self).patterns_view(),
            old(self).wf() ==> final(self).wf(),
    {
        if i >= self.hooks.len() {
            return Err(SessionError::UnknownHook);
        }
        let mut h = self.hooks.remove(i);
        let r = h.check(live);
        self.hooks.insert(i, h);
        Ok(r)
    }

    /// Takes note of whether the attached process still runs. An exit
    /// detaches the session and drops everything derived from it.
    pub fn check_liveness(&mut self, alive: bool) -> (r: Result<(), SessionError>)
        ensures
            old(self).wf() ==> final(self).wf(),
            old(self).module_view() is Some && !alive ==> r == Err::<(), SessionError>(SessionError::ProcessExited)
                && final(self).module_view() is None && final(self).chains_view().len() == 0
                && final(self).hooks_view().len() == 0,
            old(self).module_view() is Some && alive ==> r is Ok && final(self).module_view() == old(self).module_view()
                && final(self).chains_view() == old(self).chains_view()
                && final(self).hooks_view() == old(self).hooks_view(),
            old(self).module_view() is None ==> r == Err::<(), SessionError>(SessionError::ProcessNotFound)
                && final(self).module_view() is None,
            final(self).name_view() == old(self).name_view(),
            final(self).patterns_view() == old(self).patterns_view(),
    {
        if self.module.is_none() {
            return Err(SessionError::ProcessNotFound);
        }
        if !alive {
            self.detach();
            return Err(SessionError::ProcessExited);
        }
        Ok(())
    }
}

/// Once a prefix of the patterns fails to resolve, so do all longer ones,
/// with the same error.
proof fn lemma_resolve_all_error_stays(module: Seq<u8>, base: int, pats: Seq<ScanPattern>, k: int)
    requires
        0 < k <= pats.len(),
        resolve_all(module, base, pats.subrange(0, k)) is Err,
    ensures
        resolve_all(module, base, pats) == resolve_all(module, base, pats.subrange(0, k)),
    decreases pats.len() - k,
{
    if k == pats.len() {
        assert(pats.subrange(0, k) =~= pats);
    } else {
        let p = pats.subrange(0, k + 1);
        assert(p.drop_last() =~= pats.subrange(0, k));
        lemma_resolve_all_error_stays(module, base, pats, k + 1);
    }
}

} // verus!
