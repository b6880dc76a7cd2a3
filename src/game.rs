//! The supported titles, chosen by process name, and a mock title that
//! raises event flags on request.
use vstd::prelude::*;
use vstd::string::*;
use crate::events::{EventBuffer, EventFlag, is_edge, push_effect};

verus! {

/// The graphics API a title renders with; it decides the overlay backend.
#[derive(Clone, Copy, Debug, PartialEq, Eq, Structural)]
pub enum DxVersion {
    Dx9,
    Dx11,
    Dx12,
}

/// The closed set of supported titles.
#[derive(Clone, Copy, Debug, PartialEq, Eq, Structural)]
pub enum GameKind {
    MockGame,
    DarkSoulsPrepareToDieEdition,
    DarkSoulsRemastered,
    DarkSouls3,
    Sekiro,
    EldenRing,
    ArmoredCore6,
}

/// What `str::to_lowercase` makes of a text.
pub uninterp spec fn lower_of(s: Seq<char>) -> Seq<char>;

/// Relies on `str::to_lowercase`: the lowercase form of `s`, a function of
/// its characters alone.
#[verifier::external_body]
fn to_lowercase(s: &str) -> (r: String)
    ensures
        r@ == lower_of(s@),
{
    s.to_lowercase()
}

/// The title whose executable is called `lower` (already lowercase).
pub open spec fn game_for_lowercase(lower: Seq<char>) -> Option<GameKind> {
    if lower == "mockgame.exe"@ {
        Some(GameKind::MockGame)
    } else if lower == "darksouls.exe"@ {
        Some(GameKind::DarkSoulsPrepareToDieEdition)
    } else if lower == "darksoulsremastered.exe"@ {
        Some(GameKind::DarkSoulsRemastered)
    } else if lower == "darksoulsiii.exe"@ {
        Some(GameKind::DarkSouls3)
    } else if lower == "sekiro.exe"@ {
        Some(GameKind::Sekiro)
    } else if lower == "eldenring.exe"@ {
        Some(GameKind::EldenRing)
    } else if lower == "armoredcore6.exe"@ {
        Some(GameKind::ArmoredCore6)
    } else {
        None
    }
}

/// Do `a` and `b` hold the same characters?
pub fn str_equal(a: &str, b: &str) -> (r: bool)
    ensures
        r == (a@ == b@),
{
    let n = a.unicode_len();
    if n != b.unicode_len() {
        return false;
    }
    let mut i: usize = 0;
    while i < n
        invariant
            n == a@.len() == b@.len(),
            i <= n,
            forall|j: int| 0 <= j < i ==> a@[j] == b@[j],
        decreases n - i,
    {
        if a.get_char(i) != b.get_char(i) {
            return false;
        }
        i = i + 1;
    }
    assert(a@ =~= b@);
    true
}

/// The title whose executable is called `lower`, compared as given.
pub fn game_for_lowercase_name(lower: &str) -> (r: Option<GameKind>)
    ensures
        r == game_for_lowercase(lower@),
{
    if str_equal(lower, "mockgame.exe") {
        Some(GameKind::MockGame)
    } else if str_equal(lower, "darksouls.exe") {
        Some(GameKind::DarkSoulsPrepareToDieEdition)
    } else if str_equal(lower, "darksoulsremastered.exe") {
        Some(GameKind::DarkSoulsRemastered)
    } else if str_equal(lower, "darksoulsiii.exe") {
        Some(GameKind::DarkSouls3)
    } else if str_equal(lower, "sekiro.exe") {
        Some(GameKind::Sekiro)
    } else if str_equal(lower, "eldenring.exe") {
        Some(GameKind::EldenRing)
    } else if str_equal(lower, "armoredcore6.exe") {
        Some(GameKind::ArmoredCore6)
    } else {
        None
    }
}

/// The title whose executable is called `name`, in any case.
pub fn game_for_process(name: &str) -> (r: Option<GameKind>)
    ensures
        r == game_for_lowercase(lower_of(name@)),
{
    let lower = to_lowercase(name);
    game_for_lowercase_name(lower.as_str())
}

impl GameKind {
    pub open spec fn dx_version_spec(self) -> DxVersion {
        match self {
            GameKind::MockGame => DxVersion::Dx11,
            GameKind::DarkSoulsPrepareToDieEdition => DxVersion::Dx9,
            GameKind::DarkSoulsRemastered => DxVersion::Dx11,
            GameKind::DarkSouls3 => DxVersion::Dx11,
            GameKind::Sekiro => DxVersion::Dx11,
            GameKind::EldenRing => DxVersion::Dx12,
            GameKind::ArmoredCore6 => DxVersion::Dx12,
        }
    }

    pub fn get_dx_version(&self) -> (r: DxVersion)
        ensures
            r == self.dx_version_spec(),
    {
        match self {
            GameKind::MockGame => DxVersion::Dx11,
            GameKind::DarkSoulsPrepareToDieEdition => DxVersion::Dx9,
            GameKind::DarkSoulsRemastered => DxVersion::Dx11,
            GameKind::DarkSouls3 => DxVersion::Dx11,
            GameKind::Sekiro => DxVersion::Dx11,
            GameKind::EldenRing => DxVersion::Dx12,
            GameKind::ArmoredCore6 => DxVersion::Dx12,
        }
    }
}

/// A stand-in title with no process behind it: event flags change when
/// asked to, and are buffered like those of a hooked title.
pub struct MockGame {
    events: EventBuffer,
}

impl MockGame {
    pub closed spec fn pending_view(&self) -> Seq<EventFlag> {
        self.events.pending_view()
    }

    pub closed spec fn states_view(&self) -> Map<u32, bool> {
        self.events.last_view()
    }

    pub fn new() -> (r: MockGame)
        ensures
            r.pending_view().len() == 0,
            r.states_view() == Map::<u32, bool>::empty(),
    {
        MockGame { events: EventBuffer::new() }
    }

    /// Sets `flag` to `state` at `time`, recording the change if it is one.
    pub fn raise_event_flag_at(&mut self, flag: u32, state: bool, time: i64) -> (r: bool)
        ensures
            r == is_edge(old(self).states_view(), flag, state),
            (final(self).pending_view(), final(self).states_view()) == push_effect(
                old(self).pending_view(),
                old(self).states_view(),
                flag,
                state,
                time,
            ),
    {
        self.events.push_at(flag, state, time)
    }

    /// Sets `flag` to `state` now, recording the change if it is one.
    pub fn raise_event_flag(&mut self, flag: u32, state: bool) -> (r: bool)
        ensures
            r == is_edge(old(self).states_view(), flag, state),
            exists|time: i64|
                (final(self).pending_view(), final(self).states_view()) == push_effect(
                    old(self).pending_view(),
                    old(self).states_view(),
                    flag,
                    state,
                    time,
                ),
    {
        let time = crate::events::now_millis();
        self.raise_event_flag_at(flag, state, time)
    }

    /// The current state of `flag`; a flag never raised is off.
    pub fn get_event_flag_state(&self, flag: u32) -> (r: bool)
        ensures
            r == (self.states_view().contains_key(flag) && self.states_view()[flag]),
    {
        match self.events.last_state(flag) {
            Some(v) => v,
            None => false,
        }
    }

    /// Takes the changes recorded since the last call, oldest first.
    pub fn get_buffered_flags(&mut self) -> (r: Vec<EventFlag>)
        ensures
            r@ == old(self).pending_view(),
            final(self).pending_view().len() == 0,
            final(self).states_view() == old(self).states_view(),
    {
        self.events.drain()
    }
}

} // verus!
