//! Recognising the Hearts of Iron IV process and its `-debug` launch flag,
//! the cached status that the rest of the app reads, and the polling rule
//! that decides when a status report is sent.
use vstd::prelude::*;
use crate::text::{
    ascii_lower, chars_of, is_unicode_whitespace, lower_equals, lower_seq, trim_chars,
    trim_end_seq, trim_seq, trim_start_seq,
};

verus! {

pub open spec fn hoi4_exe_name() -> Seq<char> {
    seq!['h', 'o', 'i', '4', '.', 'e', 'x', 'e']
}

pub open spec fn hoi4_bare_name() -> Seq<char> {
    seq!['h', 'o', 'i', '4']
}

pub open spec fn single_dash_debug() -> Seq<char> {
    seq!['-', 'd', 'e', 'b', 'u', 'g']
}

pub open spec fn double_dash_debug() -> Seq<char> {
    seq!['-', '-', 'd', 'e', 'b', 'u', 'g']
}

/// A process name names the game when, trimmed of white space and compared
/// without regard to case, it is `hoi4.exe` or `hoi4`.
///
/// Folding only ASCII letters gives the same answer as full Unicode lower-casing
/// here: the only characters outside ASCII whose lower case contains an ASCII
/// letter are KELVIN SIGN (to `k`) and LATIN CAPITAL LETTER I WITH DOT ABOVE (to
/// `i` followed by a combining dot, two characters), and neither can complete
/// one of the two names.
pub open spec fn is_hoi4_name(s: Seq<char>) -> bool {
    let t = lower_seq(trim_seq(s));
    t == hoi4_exe_name() || t == hoi4_bare_name()
}

/// A command-line argument is the debug flag when, trimmed and compared without
/// regard to case, it is `-debug` or `--debug`.
pub open spec fn is_debug_flag(s: Seq<char>) -> bool {
    let t = lower_seq(trim_seq(s));
    t == single_dash_debug() || t == double_dash_debug()
}

pub open spec fn any_debug_flag(args: Seq<Seq<char>>) -> bool {
    exists|i: int| 0 <= i < args.len() && #[trigger] is_debug_flag(args[i])
}

pub open spec fn str_views(args: Seq<&str>) -> Seq<Seq<char>> {
    args.map_values(|a: &str| a@)
}

pub open spec fn string_views(args: Seq<String>) -> Seq<Seq<char>> {
    args.map_values(|a: String| a@)
}

pub fn is_hoi4_process_name(name: &str) -> (r: bool)
    ensures
        r == is_hoi4_name(name@),
{
    let chars = chars_of(name);
    let trimmed = trim_chars(&chars);
    let a = lower_equals(&trimmed, &['h', 'o', 'i', '4', '.', 'e', 'x', 'e']);
    let b = lower_equals(&trimmed, &['h', 'o', 'i', '4']);
    a || b
}

fn is_debug_flag_arg(arg: &str) -> (r: bool)
    ensures
        r == is_debug_flag(arg@),
{
    let chars = chars_of(arg);
    let trimmed = trim_chars(&chars);
    let a = lower_equals(&trimmed, &['-', 'd', 'e', 'b', 'u', 'g']);
    let b = lower_equals(&trimmed, &['-', '-', 'd', 'e', 'b', 'u', 'g']);
    a || b
}

/// Whether any argument is the debug flag.
pub fn parse_has_debug_flag(args: &[&str]) -> (r: bool)
    ensures
        r == any_debug_flag(str_views(args@)),
{
    let n = args.len();
    let mut i: usize = 0;
    while i < n
        invariant
            i <= n,
            n == args@.len(),
            forall|k: int| 0 <= k < i ==> !is_debug_flag(#[trigger] str_views(args@)[k]),
        decreases n - i,
    {
        if is_debug_flag_arg(args[i]) {
            assert(is_debug_flag(str_views(args@)[i as int]));
            return true;
        }
        i = i + 1;
    }
    false
}

/// Whether any argument of a command line is the debug flag.
pub fn command_has_debug_flag(args: &Vec<String>) -> (r: bool)
    ensures
        r == any_debug_flag(string_views(args@)),
{
    let n = args.len();
    let mut i: usize = 0;
    while i < n
        invariant
            i <= n,
            n == args@.len(),
            forall|k: int| 0 <= k < i ==> !is_debug_flag(#[trigger] string_views(args@)[k]),
        decreases n - i,
    {
        if is_debug_flag_arg(args[i].as_str()) {
            assert(is_debug_flag(string_views(args@)[i as int]));
            return true;
        }
        i = i + 1;
    }
    false
}

/// One entry of the system's process table: its name and, where it was read,
/// its command line.
pub struct ProcessSnapshot {
    pub name: String,
    pub cmd: Vec<String>,
}

/// Some process is the game.
pub open spec fn game_running(procs: Seq<ProcessSnapshot>) -> bool {
    exists|i: int| 0 <= i < procs.len() && is_hoi4_name(#[trigger] procs[i].name@)
}

/// Some process that is the game was started with the debug flag.
pub open spec fn game_debugged(procs: Seq<ProcessSnapshot>) -> bool {
    exists|i: int|
        0 <= i < procs.len() && is_hoi4_name(#[trigger] procs[i].name@) && any_debug_flag(
            string_views(procs[i].cmd@),
        )
}

/// The remembered result of the last scan of the process table.
pub struct ProcessStatusCache {
    pub is_running: bool,
    pub has_debug_flag: bool,
}

pub open spec fn cached_status(c: ProcessStatusCache) -> (bool, bool) {
    (c.is_running, c.has_debug_flag)
}

pub open spec fn cache_after_update(
    c: ProcessStatusCache,
    is_running: bool,
    has_debug: bool,
) -> ProcessStatusCache {
    ProcessStatusCache { is_running, has_debug_flag: has_debug }
}

impl ProcessStatusCache {
    /// Nothing has been seen yet: the game is taken to be not running.
    pub fn new() -> (c: Self)
        ensures
            cached_status(c) == (false, false),
    {
        ProcessStatusCache { is_running: false, has_debug_flag: false }
    }
}

pub fn get_cached_hoi4_process_status(cache: &ProcessStatusCache) -> (r: (bool, bool))
    ensures
        r == cached_status(*cache),
{
    (cache.is_running, cache.has_debug_flag)
}

pub fn update_cached_hoi4_process_status(
    cache: &mut ProcessStatusCache,
    is_running: bool,
    has_debug: bool,
)
    ensures
        *final(cache) == cache_after_update(*old(cache), is_running, has_debug),
{
    cache.is_running = is_running;
    cache.has_debug_flag = has_debug;
}

/// Law: reading the cache gives back what the last update stored.
pub proof fn law_cache_reads_last_update(c: ProcessStatusCache, is_running: bool, has_debug: bool)
    ensures
        cached_status(cache_after_update(c, is_running, has_debug)) == (is_running, has_debug),
{
}

/// The decision of `check_hoi4_process` on a process table: whether the game
/// runs and whether a running game carries the debug flag. The result is
/// stored in the cache and returned.
pub fn scan_hoi4_processes(cache: &mut ProcessStatusCache, procs: &Vec<ProcessSnapshot>) -> (r: (
    bool,
    bool,
))
    ensures
        r == (game_running(procs@), game_debugged(procs@)),
        *final(cache) == cache_after_update(*old(cache), r.0, r.1),
{
    let n = procs.len();
    let mut running = false;
    let mut debug = false;
    let mut i: usize = 0;
    while i < n
        invariant
            i <= n,
            n == procs@.len(),
            running == exists|k: int| 0 <= k < i && is_hoi4_name(#[trigger] procs@[k].name@),
            debug == exists|k: int|
                0 <= k < i && is_hoi4_name(#[trigger] procs@[k].name@) && any_debug_flag(
                    string_views(procs@[k].cmd@),
                ),
        decreases n - i,
    {
        let p = &procs[i];
        if is_hoi4_process_name(p.name.as_str()) {
            running = true;
            if command_has_debug_flag(&p.cmd) {
                debug = true;
            }
        }
        i = i + 1;
    }
    update_cached_hoi4_process_status(cache, running, debug);
    (running, debug)
}

/// State of the background loop that reports the game's status: the last
/// status reported and a tick counter that wraps around.
pub struct ProcessPoller {
    pub last_state: Option<(bool, bool)>,
    pub tick_count: u32,
}

/// What one observation leads to: whether a report is sent, and whether the
/// status differs from the last one reported.
pub struct PollDecision {
    pub emit: bool,
    pub state_changed: bool,
}

pub open spec fn wrapping_next(t: u32) -> u32 {
    if t == u32::MAX {
        0
    } else {
        (t + 1) as u32
    }
}

/// One step of the reporting loop: the counter advances; a report goes out when
/// the status changed or the counter is a multiple of five, and the status then
/// becomes the last one reported.
pub open spec fn poll_step(p: ProcessPoller, current: (bool, bool)) -> (ProcessPoller, PollDecision) {
    let tick = wrapping_next(p.tick_count);
    let changed = p.last_state != Some(current);
    let emit = changed || tick % 5 == 0;
    (
        ProcessPoller { last_state: if emit { Some(current) } else { p.last_state }, tick_count: tick },
        PollDecision { emit, state_changed: changed },
    )
}

impl ProcessPoller {
    pub fn new() -> (p: Self)
        ensures
            p.last_state is None,
            p.tick_count == 0,
    {
        ProcessPoller { last_state: None, tick_count: 0 }
    }

    pub fn observe(&mut self, current: (bool, bool)) -> (d: PollDecision)
        ensures
            (*final(self), d) == poll_step(*old(self), current),
    {
        let tick = self.tick_count.wrapping_add(1);
        self.tick_count = tick;
        let changed = match self.last_state {
            Some(s) => !(s.0 == current.0 && s.1 == current.1),
            None => true,
        };
        let emit = changed || tick % 5 == 0;
        if emit {
            self.last_state = Some(current);
        }
        PollDecision { emit, state_changed: changed }
    }
}

/// Law: every change of status is reported at once, and is then the status last
/// reported.
pub proof fn law_poller_reports_changes(p: ProcessPoller, current: (bool, bool))
    requires
        p.last_state != Some(current),
    ensures
        poll_step(p, current).1.emit,
        poll_step(p, current).1.state_changed,
        poll_step(p, current).0.last_state == Some(current),
{
}

/// The reports of a run of observations, one per observation.
pub open spec fn poll_run(p: ProcessPoller, seen: Seq<(bool, bool)>) -> Seq<bool>
    decreases seen.len(),
{
    if seen.len() == 0 {
        Seq::empty()
    } else {
        let (q, d) = poll_step(p, seen[0]);
        seq![d.emit] + poll_run(q, seen.drop_first())
    }
}

pub open spec fn wrap_add(t: u32, k: int) -> int {
    (t + k) % 0x1_0000_0000
}

proof fn lemma_poll_run_len(p: ProcessPoller, seen: Seq<(bool, bool)>)
    ensures
        poll_run(p, seen).len() == seen.len(),
    decreases seen.len(),
{
    if seen.len() > 0 {
        let (q, d) = poll_step(p, seen[0]);
        lemma_poll_run_len(q, seen.drop_first());
    }
}

proof fn lemma_run_emits_on_multiple(p: ProcessPoller, seen: Seq<(bool, bool)>, j: int)
    requires
        0 <= j < seen.len(),
        seen.len() <= 5,
        wrap_add(p.tick_count, j + 1) % 5 == 0,
    ensures
        poll_run(p, seen)[j],
    decreases seen.len(),
{
    let (q, d) = poll_step(p, seen[0]);
    lemma_poll_run_len(q, seen.drop_first());
    assert(q.tick_count == wrap_add(p.tick_count, 1));
    if j == 0 {
        assert(d.emit);
        assert(poll_run(p, seen)[0] == d.emit);
    } else {
        assert(wrap_add(q.tick_count, j) == wrap_add(p.tick_count, j + 1));
        lemma_run_emits_on_multiple(q, seen.drop_first(), j - 1);
        assert(poll_run(p, seen)[j] == poll_run(q, seen.drop_first())[j - 1]);
    }
}

/// Law: the status is reported at least once in any five consecutive
/// observations, whatever they are (a heartbeat).
pub proof fn law_poller_heartbeat(p: ProcessPoller, seen: Seq<(bool, bool)>)
    requires
        seen.len() == 5,
    ensures
        exists|k: int| 0 <= k < 5 && #[trigger] poll_run(p, seen)[k],
{
    let t = p.tick_count;
    let k: int = if t >= 0x1_0000_0000 - 5 {
        0x1_0000_0000 - t
    } else {
        5 - (t % 5)
    };
    assert(1 <= k <= 5);
    assert(wrap_add(t, k) % 5 == 0);
    lemma_run_emits_on_multiple(p, seen, k - 1);
    assert(poll_run(p, seen)[k - 1]);
}

/// Law: a name that is taken for the game is, once trimmed, 4 or 8
/// characters long, begins with `hoi4` in some mix of cases, and where it is 8
/// long ends with `.exe`; and the verdict ignores surrounding white space.
pub proof fn law_game_name_shape(s: Seq<char>)
    ensures
        is_hoi4_name(s) ==> (trim_seq(s).len() == 4 || trim_seq(s).len() == 8),
        is_hoi4_name(s) ==> lower_seq(trim_seq(s)).subrange(0, 4) == seq!['h', 'o', 'i', '4'],
        is_hoi4_name(s) && trim_seq(s).len() == 8 ==> lower_seq(trim_seq(s)).subrange(4, 8)
            == seq!['.', 'e', 'x', 'e'],
        is_hoi4_name(s) == is_hoi4_name(trim_seq(s)),
{
    lemma_trim_idempotent(s);
    if is_hoi4_name(s) {
        let t = lower_seq(trim_seq(s));
        assert(t.len() == trim_seq(s).len());
        if t == hoi4_exe_name() {
            assert(t.subrange(0, 4) =~= seq!['h', 'o', 'i', '4']);
            assert(t.subrange(4, 8) =~= seq!['.', 'e', 'x', 'e']);
        } else {
            assert(t.subrange(0, 4) =~= seq!['h', 'o', 'i', '4']);
        }
    }
}

/// Law: an argument that is taken for the debug flag is, once trimmed, 6 or
/// 7 characters long, starts with `-` and ends with `debug` in some mix of
/// cases; and the verdict ignores surrounding white space.
pub proof fn law_debug_flag_shape(s: Seq<char>)
    ensures
        is_debug_flag(s) ==> (trim_seq(s).len() == 6 || trim_seq(s).len() == 7),
        is_debug_flag(s) ==> trim_seq(s)[0] == '-',
        is_debug_flag(s) ==> lower_seq(trim_seq(s)).subrange(
            trim_seq(s).len() - 5,
            trim_seq(s).len() as int,
        ) == seq!['d', 'e', 'b', 'u', 'g'],
        is_debug_flag(s) == is_debug_flag(trim_seq(s)),
{
    lemma_trim_idempotent(s);
    if is_debug_flag(s) {
        let t = lower_seq(trim_seq(s));
        assert(t.len() == trim_seq(s).len());
        assert(t[0] == '-');
        if t == single_dash_debug() {
            assert(t.subrange(1, 6) =~= seq!['d', 'e', 'b', 'u', 'g']);
        } else {
            assert(t.subrange(2, 7) =~= seq!['d', 'e', 'b', 'u', 'g']);
        }
        assert(ascii_lower(trim_seq(s)[0]) == '-');
    }
}

proof fn lemma_trim_start_idempotent(s: Seq<char>)
    ensures
        trim_start_seq(trim_start_seq(s)) == trim_start_seq(s),
        trim_start_seq(s).len() > 0 ==> !is_unicode_whitespace(trim_start_seq(s)[0]),
    decreases s.len(),
{
    if s.len() > 0 && is_unicode_whitespace(s[0]) {
        lemma_trim_start_idempotent(s.drop_first());
    }
}

proof fn lemma_trim_end_keeps_start(s: Seq<char>)
    requires
        s.len() > 0 ==> !is_unicode_whitespace(s[0]),
    ensures
        trim_end_seq(s).len() > 0 ==> !is_unicode_whitespace(trim_end_seq(s)[0]),
        trim_end_seq(s).len() > 0 ==> trim_end_seq(s)[0] == s[0],
        trim_end_seq(trim_end_seq(s)) == trim_end_seq(s),
        trim_end_seq(s).len() > 0 ==> !is_unicode_whitespace(trim_end_seq(s).last()),
    decreases s.len(),
{
    if s.len() > 0 && is_unicode_whitespace(s.last()) {
        let d = s.drop_last();
        lemma_trim_end_keeps_start(d);
    }
}

proof fn lemma_trim_idempotent(s: Seq<char>)
    ensures
        trim_seq(trim_seq(s)) == trim_seq(s),
{
    lemma_trim_start_idempotent(s);
    let a = trim_start_seq(s);
    lemma_trim_end_keeps_start(a);
    let t = trim_end_seq(a);
    if t.len() > 0 {
        assert(trim_start_seq(t) == t);
    } else {
        assert(trim_start_seq(t) == t);
    }
    lemma_trim_end_keeps_start(t);
}

} // verus!
