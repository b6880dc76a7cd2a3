//! State and rules of the overlay's panels; drawing them is left to the
//! overlay itself.
use vstd::prelude::*;
use vstd::string::*;
use crate::events::EventFlag;

verus! {

/// Most records the event log keeps; older ones are dropped first.
pub const LOG_CAPACITY: usize = 100;

/// Value of a decimal digit.
pub open spec fn digit_value(c: char) -> nat {
    (c as u32 - '0' as u32) as nat
}

pub open spec fn is_digit(c: char) -> bool {
    '0' <= c && c <= '9'
}

/// The number that the decimal digits `s` spell.
pub open spec fn digits_value(s: Seq<char>) -> nat
    decreases s.len(),
{
    if s.len() == 0 {
        0
    } else {
        digits_value(s.drop_last()) * 10 + digit_value(s.last())
    }
}

/// The digits of a typed flag id: the text without a leading `+`.
pub open spec fn flag_digits(s: Seq<char>) -> Seq<char> {
    if s.len() > 0 && s[0] == '+' {
        s.drop_first()
    } else {
        s
    }
}

/// A flag id typed by the user: decimal digits, optionally after a `+`,
/// whose value fits in 32 bits.
pub open spec fn parse_flag_spec(s: Seq<char>) -> Option<u32> {
    let d = flag_digits(s);
    if d.len() > 0 && (forall|i: int| 0 <= i < d.len() ==> is_digit(#[trigger] d[i])) && digits_value(d)
        <= u32::MAX {
        Some(digits_value(d) as u32)
    } else {
        None
    }
}

proof fn lemma_digits_value_grows(s: Seq<char>, k: int)
    requires
        0 <= k <= s.len(),
    ensures
        digits_value(s.subrange(0, k)) <= digits_value(s),
    decreases s.len() - k,
{
    if k < s.len() {
        lemma_digits_value_grows(s, k + 1);
        assert(s.subrange(0, k + 1).drop_last() =~= s.subrange(0, k));
    } else {
        assert(s.subrange(0, k) =~= s);
    }
}

/// Parses a flag id typed by the user.
pub fn parse_flag(text: &str) -> (r: Option<u32>)
    ensures
        r == parse_flag_spec(text@),
{
    let n = text.unicode_len();
    let ghost s = text@;
    let start: usize = if n > 0 && text.get_char(0) == '+' {
        1
    } else {
        0
    };
    let ghost d = s.subrange(start as int, n as int);
    assert(d =~= flag_digits(s));
    if start == n {
        return None;
    }
    let mut acc: u64 = 0;
    let mut i: usize = start;
    assert(d.subrange(0, 0) =~= Seq::<char>::empty());
    while i < n
        invariant
            n == s.len(),
            s == text@,
            start <= i <= n,
            d == s.subrange(start as int, n as int),
            d == flag_digits(s),
            forall|j: int| 0 <= j < i - start ==> is_digit(#[trigger] d[j]),
            acc as nat == digits_value(d.subrange(0, i - start)),
            acc <= u32::MAX,
        decreases n - i,
    {
        let c = text.get_char(i);
        if c < '0' || c > '9' {
            assert(!is_digit(d[i - start]));
            return None;
        }
        let ghost pre = d.subrange(0, i - start + 1);
        assert(pre.drop_last() =~= d.subrange(0, i - start));
        assert(pre.last() == c);
        acc = acc * 10 + (c as u32 - '0' as u32) as u64;
        if acc > u32::MAX as u64 {
            proof {
                lemma_digits_value_grows(d, i - start + 1);
            }
            return None;
        }
        i = i + 1;
    }
    assert(d.subrange(0, i - start) =~= d);
    Some(acc as u32)
}

/// Which records of the event flag stream the log shows.
#[derive(Clone, Copy, Debug, PartialEq, Eq, Structural)]
pub enum LogMode {
    /// Every record.
    All,
    /// The first record of each flag, until the list of seen flags is cleared.
    Unique,
    /// Every record of a flag not on the exclusion list.
    Exclusions,
}

pub open spec fn has_flag(fs: Seq<EventFlag>, flag: u32) -> bool {
    exists|i: int| 0 <= i < fs.len() && (#[trigger] fs[i]).flag == flag
}

/// The seen-flags list and the log after one incoming record.
pub open spec fn log_step(mode: LogMode, seen: Seq<EventFlag>, log: Seq<EventFlag>, excluded: Seq<u32>, f: EventFlag) -> (Seq<EventFlag>, Seq<EventFlag>) {
    match mode {
        LogMode::All => (seen, log.push(f)),
        LogMode::Unique => if has_flag(seen, f.flag) {
            (seen, log)
        } else {
            (seen.push(f), log.push(f))
        },
        LogMode::Exclusions => if excluded.contains(f.flag) {
            (seen, log)
        } else {
            (seen, log.push(f))
        },
    }
}

/// The seen-flags list and the log after incoming records `fs`, in order.
pub open spec fn log_all(mode: LogMode, seen: Seq<EventFlag>, log: Seq<EventFlag>, excluded: Seq<u32>, fs: Seq<EventFlag>) -> (Seq<EventFlag>, Seq<EventFlag>)
    decreases fs.len(),
{
    if fs.len() == 0 {
        (seen, log)
    } else {
        let (s, l) = log_all(mode, seen, log, excluded, fs.drop_last());
        log_step(mode, s, l, excluded, fs.last())
    }
}

/// The newest `LOG_CAPACITY` records of `log`.
pub open spec fn cap_log(log: Seq<EventFlag>) -> Seq<EventFlag> {
    if log.len() > LOG_CAPACITY {
        log.subrange(log.len() - LOG_CAPACITY, log.len() as int)
    } else {
        log
    }
}

fn has_flag_exec(fs: &Vec<EventFlag>, flag: u32) -> (r: bool)
    ensures
        r == has_flag(fs@, flag),
{
    let mut i: usize = 0;
    while i < fs.len()
        invariant
            i <= fs@.len(),
            forall|j: int| 0 <= j < i ==> (#[trigger] fs@[j]).flag != flag,
        decreases fs@.len() - i,
    {
        if fs[i].flag == flag {
            return true;
        }
        i = i + 1;
    }
    false
}

fn contains_id(v: &Vec<u32>, x: u32) -> (r: bool)
    ensures
        r == v@.contains(x),
{
    let mut i: usize = 0;
    while i < v.len()
        invariant
            i <= v@.len(),
            forall|j: int| 0 <= j < i ==> v@[j] != x,
        decreases v@.len() - i,
    {
        if v[i] == x {
            return true;
        }
        i = i + 1;
    }
    false
}

/// Parses `input`; on success appends the id to `ids` and empties `input`.
pub fn flag_input_to_vec(input: &mut String, ids: &mut Vec<u32>) -> (r: bool)
    ensures
        r == parse_flag_spec(old(input)@) is Some,
        r ==> final(ids)@ == old(ids)@.push(parse_flag_spec(old(input)@)->0) && final(input)@.len() == 0,
        !r ==> final(ids)@ == old(ids)@ && final(input)@ == old(input)@,
{
    match parse_flag(input.as_str()) {
        Some(id) => {
            ids.push(id);
            *input = String::new();
            true
        },
        None => false,
    }
}

/// The event flag panel: the log of incoming records, the mode that
/// filters it, and the lists of excluded and watched flags.
pub struct EventFlagWidget {
    mode: LogMode,
    unique_event_flags: Vec<EventFlag>,
    event_flags: Vec<EventFlag>,
    excluded_flags: Vec<u32>,
    exclusion_flag_input: String,
    watched_flags: Vec<u32>,
    watch_flag_input: String,
}

impl EventFlagWidget {
    pub closed spec fn mode_view(&self) -> LogMode {
        self.mode
    }

    pub closed spec fn seen_view(&self) -> Seq<EventFlag> {
        self.unique_event_flags@
    }

    pub closed spec fn log_view(&self) -> Seq<EventFlag> {
        self.event_flags@
    }

    pub closed spec fn excluded_view(&self) -> Seq<u32> {
        self.excluded_flags@
    }

    pub closed spec fn watched_view(&self) -> Seq<u32> {
        self.watched_flags@
    }

    pub closed spec fn exclusion_input_view(&self) -> Seq<char> {
        self.exclusion_flag_input@
    }

    pub closed spec fn watch_input_view(&self) -> Seq<char> {
        self.watch_flag_input@
    }

    /// An empty panel that logs the first record of each flag.
    pub fn new() -> (r: EventFlagWidget)
        ensures
            r.mode_view() == LogMode::Unique,
            r.seen_view().len() == 0,
            r.log_view().len() == 0,
            r.excluded_view().len() == 0,
            r.watched_view().len() == 0,
            r.exclusion_input_view().len() == 0,
            r.watch_input_view().len() == 0,
    {
        EventFlagWidget {
            mode: LogMode::Unique,
            unique_event_flags: Vec::new(),
            event_flags: Vec::new(),
            excluded_flags: Vec::new(),
            exclusion_flag_input: String::new(),
            watched_flags: Vec::new(),
            watch_flag_input: String::new(),
        }
    }

    /// Takes in new records: each is logged or not as the mode says, then
    /// the log is cut to its newest `LOG_CAPACITY` records.
    pub fn ingest(&mut self, new_flags: Vec<EventFlag>)
        ensures
            ({
                let (s, l) = log_all(
                    old(self).mode_view(),
                    old(self).seen_view(),
                    old(self).log_view(),
                    old(self).excluded_view(),
                    new_flags@,
                );
                &&& final(self).seen_view() == s
                &&& final(self).log_view() == cap_log(l)
            }),
            final(self).mode_view() == old(self).mode_view(),
            final(self).excluded_view() == old(self).excluded_view(),
            final(self).watched_view() == old(self).watched_view(),
            final(self).exclusion_input_view() == old(self).exclusion_input_view(),
            final(self).watch_input_view() == old(self).watch_input_view(),
    {
        let ghost fs = new_flags@;
        let ghost seen0 = self.unique_event_flags@;
        let ghost log0 = self.event_flags@;
        let mut i: usize = 0;
        assert(fs.subrange(0, 0) =~= Seq::<EventFlag>::empty());
        while i < new_flags.len()
            invariant
                fs == new_flags@,
                i <= fs.len(),
                self.mode == old(self).mode_view(),
                self.excluded_flags@ == old(self).excluded_view(),
                self.watched_flags@ == old(self).watched_view(),
                self.exclusion_flag_input@ == old(self).exclusion_input_view(),
                self.watch_flag_input@ == old(self).watch_input_view(),
                seen0 == old(self).seen_view(),
                log0 == old(self).log_view(),
                (self.unique_event_flags@, self.event_flags@) == log_all(
                    self.mode,
                    seen0,
                    log0,
                    self.excluded_flags@,
                    fs.subrange(0, i as int),
                ),
            decreases fs.len() - i,
        {
            let f = new_flags[i];
            let ghost pre = fs.subrange(0, i as int + 1);
            assert(pre.drop_last() =~= fs.subrange(0, i as int));
            assert(pre.last() == f);
            match self.mode {
                LogMode::All => {
                    self.event_flags.push(f);
                },
                LogMode::Unique => {
                    if !has_flag_exec(&self.unique_event_flags, f.flag) {
                        self.unique_event_flags.push(f);
                        self.event_flags.push(f);
                    }
                },
                LogMode::Exclusions => {
                    if !contains_id(&self.excluded_flags, f.flag) {
                        self.event_flags.push(f);
                    }
                },
            }
            i = i + 1;
        }
        assert(fs.subrange(0, i as int) =~= fs);
        if self.event_flags.len() > LOG_CAPACITY {
            let cut = self.event_flags.len() - LOG_CAPACITY;
            let newest = self.event_flags.split_off(cut);
            self.event_flags = newest;
        }
    }

    pub fn mode(&self) -> (r: LogMode)
        ensures
            r == self.mode_view(),
    {
        self.mode
    }

    pub fn set_mode(&mut self, mode: LogMode)
        ensures
            final(self).mode_view() == mode,
            final(self).seen_view() == old(self).seen_view(),
            final(self).log_view() == old(self).log_view(),
            final(self).excluded_view() == old(self).excluded_view(),
            final(self).watched_view() == old(self).watched_view(),
    {
        self.mode = mode;
    }

    pub fn event_flags(&self) -> (r: &Vec<EventFlag>)
        ensures
            r@ == self.log_view(),
    {
        &self.event_flags
    }

    pub fn excluded_flags(&self) -> (r: &Vec<u32>)
        ensures
            r@ == self.excluded_view(),
    {
        &self.excluded_flags
    }

    pub fn watched_flags(&self) -> (r: &Vec<u32>)
        ensures
            r@ == self.watched_view(),
    {
        &self.watched_flags
    }

    /// Empties the log.
    pub fn clear_log(&mut self)
        ensures
            final(self).log_view().len() == 0,
            final(self).seen_view() == old(self).seen_view(),
            final(self).mode_view() == old(self).mode_view(),
            final(self).excluded_view() == old(self).excluded_view(),
            final(self).watched_view() == old(self).watched_view(),
    {
        self.event_flags = Vec::new();
    }

    /// Forgets which flags were seen, so that each is logged once more.
    pub fn clear_unique(&mut self)
        ensures
            final(self).seen_view().len() == 0,
            final(self).log_view() == old(self).log_view(),
            final(self).mode_view() == old(self).mode_view(),
            final(self).excluded_view() == old(self).excluded_view(),
            final(self).watched_view() == old(self).watched_view(),
    {
        self.unique_event_flags = Vec::new();
    }

    pub fn exclusion_input(&self) -> (r: &String)
        ensures
            r@ == self.exclusion_input_view(),
    {
        &self.exclusion_flag_input
    }

    pub fn set_exclusion_input(&mut self, text: String)
        ensures
            final(self).exclusion_input_view() == text@,
            final(self).excluded_view() == old(self).excluded_view(),
            final(self).watched_view() == old(self).watched_view(),
            final(self).log_view() == old(self).log_view(),
    {
        self.exclusion_flag_input = text;
    }

    pub fn watch_input(&self) -> (r: &String)
        ensures
            r@ == self.watch_input_view(),
    {
        &self.watch_flag_input
    }

    pub fn set_watch_input(&mut self, text: String)
        ensures
            final(self).watch_input_view() == text@,
            final(self).excluded_view() == old(self).excluded_view(),
            final(self).watched_view() == old(self).watched_view(),
            final(self).log_view() == old(self).log_view(),
    {
        self.watch_flag_input = text;
    }

    /// Adds the typed exclusion, if it is a flag id; empties the input then.
    pub fn add_exclusion(&mut self) -> (r: bool)
        ensures
            r == parse_flag_spec(old(self).exclusion_input_view()) is Some,
            r ==> final(self).excluded_view() == old(self).excluded_view().push(
                parse_flag_spec(old(self).exclusion_input_view())->0,
            ) && final(self).exclusion_input_view().len() == 0,
            !r ==> final(self).excluded_view() == old(self).excluded_view()
                && final(self).exclusion_input_view() == old(self).exclusion_input_view(),
            final(self).watched_view() == old(self).watched_view(),
            final(self).log_view() == old(self).log_view(),
            final(self).mode_view() == old(self).mode_view(),
    {
        flag_input_to_vec(&mut self.exclusion_flag_input, &mut self.excluded_flags)
    }

    /// Adds the typed flag to the watch list, if it is a flag id; empties
    /// the input then.
    pub fn add_watch(&mut self) -> (r: bool)
        ensures
            r == parse_flag_spec(old(self).watch_input_view()) is Some,
            r ==> final(self).watched_view() == old(self).watched_view().push(
                parse_flag_spec(old(self).watch_input_view())->0,
            ) && final(self).watch_input_view().len() == 0,
            !r ==> final(self).watched_view() == old(self).watched_view()
                && final(self).watch_input_view() == old(self).watch_input_view(),
            final(self).excluded_view() == old(self).excluded_view(),
            final(self).log_view() == old(self).log_view(),
            final(self).mode_view() == old(self).mode_view(),
    {
        flag_input_to_vec(&mut self.watch_flag_input, &mut self.watched_flags)
    }

    /// Removes the exclusion at `index`, if there is one.
    pub fn remove_exclusion(&mut self, index: usize)
        ensures
            index < old(self).excluded_view().len() ==> final(self).excluded_view() == old(self).excluded_view().remove(index as int),
            index >= old(self).excluded_view().len() ==> final(self).excluded_view() == old(self).excluded_view(),
            final(self).watched_view() == old(self).watched_view(),
            final(self).log_view() == old(self).log_view(),
    {
        if index < self.excluded_flags.len() {
            self.excluded_flags.remove(index);
        }
    }

    /// Removes the watched flag at `index`, if there is one.
    pub fn remove_watch(&mut self, index: usize)
        ensures
            index < old(self).watched_view().len() ==> final(self).watched_view() == old(self).watched_view().remove(index as int),
            index >= old(self).watched_view().len() ==> final(self).watched_view() == old(self).watched_view(),
            final(self).excluded_view() == old(self).excluded_view(),
            final(self).log_view() == old(self).log_view(),
    {
        if index < self.watched_flags.len() {
            self.watched_flags.remove(index);
        }
    }
}

/// A character debug flag as a title reports it: id, label, state.
pub type ChrDbgFlag = (u32, String, bool);

/// The character debug flags panel: the flags read once from the title,
/// each shown as a checkbox.
pub struct ChrDbgFlagsWidget {
    flags: Vec<ChrDbgFlag>,
    init: bool,
}

impl ChrDbgFlagsWidget {
    pub closed spec fn flags_view(&self) -> Seq<ChrDbgFlag> {
        self.flags@
    }

    pub closed spec fn loaded_view(&self) -> bool {
        self.init
    }

    pub fn new() -> (r: ChrDbgFlagsWidget)
        ensures
            r.flags_view().len() == 0,
            !r.loaded_view(),
    {
        ChrDbgFlagsWidget { flags: Vec::new(), init: false }
    }

    pub fn is_loaded(&self) -> (r: bool)
        ensures
            r == self.loaded_view(),
    {
        self.init
    }

    /// Takes the title's flags the first time; later calls change nothing.
    /// Returns whether the flags were taken.
    pub fn load(&mut self, flags: Vec<ChrDbgFlag>) -> (r: bool)
        ensures
            r == !old(self).loaded_view(),
            final(self).loaded_view(),
            r ==> final(self).flags_view() == flags@,
            !r ==> final(self).flags_view() == old(self).flags_view(),
    {
        if self.init {
            return false;
        }
        self.flags = flags;
        self.init = true;
        true
    }

    pub fn flags(&self) -> (r: &Vec<ChrDbgFlag>)
        ensures
            r@ == self.flags_view(),
    {
        &self.flags
    }

    /// Sets the checkbox at `index`; gives the flag id and state that the
    /// title must be told, or `None` where there is no such checkbox.
    pub fn set_checked(&mut self, index: usize, value: bool) -> (r: Option<(u32, bool)>)
        ensures
            index < old(self).flags_view().len() ==> r == Some((old(self).flags_view()[index as int].0, value))
                && final(self).flags_view() == old(self).flags_view().update(
                index as int,
                (old(self).flags_view()[index as int].0, old(self).flags_view()[index as int].1, value),
            ),
            index >= old(self).flags_view().len() ==> r is None && final(self).flags_view() == old(self).flags_view(),
            final(self).loaded_view() == old(self).loaded_view(),
    {
        if index >= self.flags.len() {
            return None;
        }
        let (id, label, _) = self.flags.remove(index);
        self.flags.insert(index, (id, label, value));
        proof {
            assert(self.flags@ =~= old(self).flags_view().update(
                index as int,
                (old(self).flags_view()[index as int].0, old(self).flags_view()[index as int].1, value),
            ));
        }
        Some((id, value))
    }
}

/// The miscellaneous panel.
pub struct MiscWidget {}

impl MiscWidget {
    pub fn new() -> (r: MiscWidget) {
        MiscWidget {}
    }

    /// A quit-out is asked for by its button or by its hotkey held down.
    pub fn quitout_requested(&self, button_clicked: bool, hotkey_down: bool) -> (r: bool)
        ensures
            r == (button_clicked || hotkey_down),
    {
        button_clicked || hotkey_down
    }
}

} // verus!
