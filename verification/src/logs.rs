//! System log panel and chat panel of the voice chat screens: bounded log
//! and chat histories, level, node and search filters, the displayed and
//! copied texts, the display throttle, and timestamp formatting.

use vstd::prelude::*;
use vstd::string::*;
use crate::text::{
    str_eq, lowercase_of, contains_seq, str_contains, str_to_lowercase, joined, views_of,
    join_strings, decimal, decimal_string, two_digits, push_two_digits,
};
use crate::metrics::unix_ms;

verus! {

/// Maximum number of log entries kept in memory (oldest entries are pruned).
pub const MAX_LOG_ENTRIES: usize = 5000;

/// Maximum number of log entries displayed.
pub const MAX_DISPLAY_ENTRIES: usize = 200;

/// Minimum time between two display updates, in milliseconds.
pub const LOG_UPDATE_THROTTLE_MS: u64 = 200;

/// Which app's log panel: their node filters differ.
#[derive(Debug, Clone, Copy, PartialEq, Eq, Structural)]
pub enum LogPanelKind {
    /// Voice chat: 1 = ASR, 2 = TTS, 3 = LLM, 4 = Bridge, 5 = Monitor, 6 = App.
    Fm,
    /// Speech recognition: 1 = ASR, 2 = Mic, 3 = Bridge.
    Asr,
}

/// The tag matched by a level filter (0 = all, 1 = DEBUG, 2 = INFO,
/// 3 = WARN, 4 = ERROR; other values match everything).
pub open spec fn level_tag(level: usize) -> Option<Seq<char>> {
    if level == 1 {
        Some("[DEBUG]"@)
    } else if level == 2 {
        Some("[INFO]"@)
    } else if level == 3 {
        Some("[WARN]"@)
    } else if level == 4 {
        Some("[ERROR]"@)
    } else {
        None
    }
}

/// The three words matched by a node filter (0 and unknown values match everything).
pub open spec fn node_words(kind: LogPanelKind, node: usize) -> Option<
    (Seq<char>, Seq<char>, Seq<char>),
> {
    match kind {
        LogPanelKind::Fm => if node == 1 {
            Some(("[ASR]"@, "asr"@, "ASR"@))
        } else if node == 2 {
            Some(("[TTS]"@, "tts"@, "TTS"@))
        } else if node == 3 {
            Some(("[LLM]"@, "llm"@, "LLM"@))
        } else if node == 4 {
            Some(("[Bridge]"@, "bridge"@, "Bridge"@))
        } else if node == 5 {
            Some(("[Monitor]"@, "monitor"@, "Monitor"@))
        } else if node == 6 {
            Some(("[App]"@, "app"@, "App"@))
        } else {
            None
        },
        LogPanelKind::Asr => if node == 1 {
            Some(("[ASR]"@, "asr"@, "ASR"@))
        } else if node == 2 {
            Some(("[Mic]"@, "mic"@, "Mic"@))
        } else if node == 3 {
            Some(("[Bridge]"@, "bridge"@, "Bridge"@))
        } else {
            None
        },
    }
}

/// An entry passes the level, node and search filters. `search` is the
/// lowercased search text; an empty search matches everything.
pub open spec fn entry_passes(
    e: Seq<char>,
    kind: LogPanelKind,
    level: usize,
    node: usize,
    search: Seq<char>,
) -> bool {
    &&& match level_tag(level) {
        Some(t) => contains_seq(e, t),
        None => true,
    }
    &&& match node_words(kind, node) {
        Some(w) => contains_seq(e, w.0) || contains_seq(e, w.1) || contains_seq(e, w.2),
        None => true,
    }
    &&& (search.len() == 0 || contains_seq(lowercase_of(e), search))
}

/// The entries that pass the filters, in order.
pub open spec fn filtered(
    es: Seq<Seq<char>>,
    kind: LogPanelKind,
    level: usize,
    node: usize,
    search: Seq<char>,
) -> Seq<Seq<char>> {
    es.filter(|e: Seq<char>| entry_passes(e, kind, level, node, search))
}

/// Level filters 1 to 4 keep exactly the entries that contain `[DEBUG]`,
/// `[INFO]`, `[WARN]` and `[ERROR]` respectively (the node and search
/// filters applying as well); level 0 keeps every level.
pub proof fn lemma_level_filter_tags(
    e: Seq<char>,
    kind: LogPanelKind,
    level: usize,
    node: usize,
    search: Seq<char>,
)
    ensures
        level == 1 ==> (entry_passes(e, kind, level, node, search) <==> contains_seq(e, "[DEBUG]"@)
            && entry_passes(e, kind, 0, node, search)),
        level == 2 ==> (entry_passes(e, kind, level, node, search) <==> contains_seq(e, "[INFO]"@)
            && entry_passes(e, kind, 0, node, search)),
        level == 3 ==> (entry_passes(e, kind, level, node, search) <==> contains_seq(e, "[WARN]"@)
            && entry_passes(e, kind, 0, node, search)),
        level == 4 ==> (entry_passes(e, kind, level, node, search) <==> contains_seq(e, "[ERROR]"@)
            && entry_passes(e, kind, 0, node, search)),
{
}

/// With no node filter and no search, level 4 shows exactly the entries
/// containing `[ERROR]`, in order.
pub proof fn lemma_error_level_shows_errors(es: Seq<Seq<char>>, kind: LogPanelKind)
    ensures
        filtered(es, kind, 4, 0, Seq::empty()) == es.filter(|e: Seq<char>| contains_seq(e, "[ERROR]"@)),
{
    let p = |e: Seq<char>| entry_passes(e, kind, 4, 0, Seq::empty());
    let q = |e: Seq<char>| contains_seq(e, "[ERROR]"@);
    assert(p =~= q);
}

/// Whether the entry passes the level filter.
fn level_matches(entry: &str, level: usize) -> (r: bool)
    ensures
        r == match level_tag(level) {
            Some(t) => contains_seq(entry@, t),
            None => true,
        },
{
    if level == 1 {
        str_contains(entry, "[DEBUG]")
    } else if level == 2 {
        str_contains(entry, "[INFO]")
    } else if level == 3 {
        str_contains(entry, "[WARN]")
    } else if level == 4 {
        str_contains(entry, "[ERROR]")
    } else {
        true
    }
}

/// Whether the entry contains one of three words.
fn any_of(entry: &str, a: &str, b: &str, c: &str) -> (r: bool)
    ensures
        r == (contains_seq(entry@, a@) || contains_seq(entry@, b@) || contains_seq(entry@, c@)),
{
    str_contains(entry, a) || str_contains(entry, b) || str_contains(entry, c)
}

/// Whether the entry passes the node filter.
fn node_matches(entry: &str, kind: LogPanelKind, node: usize) -> (r: bool)
    ensures
        r == match node_words(kind, node) {
            Some(w) => contains_seq(entry@, w.0) || contains_seq(entry@, w.1) || contains_seq(
                entry@,
                w.2,
            ),
            None => true,
        },
{
    match kind {
        LogPanelKind::Fm => if node == 1 {
            any_of(entry, "[ASR]", "asr", "ASR")
        } else if node == 2 {
            any_of(entry, "[TTS]", "tts", "TTS")
        } else if node == 3 {
            any_of(entry, "[LLM]", "llm", "LLM")
        } else if node == 4 {
            any_of(entry, "[Bridge]", "bridge", "Bridge")
        } else if node == 5 {
            any_of(entry, "[Monitor]", "monitor", "Monitor")
        } else if node == 6 {
            any_of(entry, "[App]", "app", "App")
        } else {
            true
        },
        LogPanelKind::Asr => if node == 1 {
            any_of(entry, "[ASR]", "asr", "ASR")
        } else if node == 2 {
            any_of(entry, "[Mic]", "mic", "Mic")
        } else if node == 3 {
            any_of(entry, "[Bridge]", "bridge", "Bridge")
        } else {
            true
        },
    }
}

/// Whether one entry passes the filters (`search` already lowercased).
pub fn entry_matches(
    entry: &str,
    kind: LogPanelKind,
    level: usize,
    node: usize,
    search: &str,
) -> (r: bool)
    ensures
        r == entry_passes(entry@, kind, level, node, search@),
{
    if !level_matches(entry, level) {
        return false;
    }
    if !node_matches(entry, kind, node) {
        return false;
    }
    if search.unicode_len() > 0 {
        let lower = str_to_lowercase(entry);
        if !str_contains(lower.as_str(), search) {
            return false;
        }
    }
    true
}

/// The log entries that pass the level, node and search filters, in order.
/// The search text is matched without regard to case.
pub fn filter_logs(
    entries: &Vec<String>,
    kind: LogPanelKind,
    level: usize,
    node: usize,
    search_text: &str,
) -> (r: Vec<String>)
    ensures
        views_of(r@) == filtered(views_of(entries@), kind, level, node, lowercase_of(search_text@)),
{
    let search = str_to_lowercase(search_text);
    let ghost es = views_of(entries@);
    let ghost q = search@;
    let mut r: Vec<String> = Vec::new();
    let mut i: usize = 0;
    assert(es.take(0) =~= Seq::<Seq<char>>::empty());
    while i < entries.len()
        invariant
            es == views_of(entries@),
            q == search@,
            i <= entries.len(),
            views_of(r@) == filtered(es.take(i as int), kind, level, node, q),
        decreases entries.len() - i,
    {
        reveal_with_fuel(Seq::filter, 1);
        assert(es.take(i + 1).drop_last() =~= es.take(i as int));
        assert(es.take(i + 1).last() == entries@[i as int]@);
        if entry_matches(entries[i].as_str(), kind, level, node, search.as_str()) {
            let ghost r0 = r@;
            r.push(entries[i].clone());
            assert(views_of(r@) =~= views_of(r0).push(entries@[i as int]@));
        }
        i = i + 1;
    }
    assert(es.take(entries.len() as int) =~= es);
    r
}

/// The text shown in the log panel for the filtered entries: the last
/// entries up to the display limit, one per line, preceded by a count of the
/// hidden older ones.
pub open spec fn display_text(f: Seq<Seq<char>>) -> Seq<char> {
    if f.len() == 0 {
        "No log entries"@
    } else if f.len() > MAX_DISPLAY_ENTRIES {
        "... ("@ + decimal((f.len() - MAX_DISPLAY_ENTRIES) as nat) + " older entries hidden) ...\n"@
            + joined(f.skip(f.len() - MAX_DISPLAY_ENTRIES), "\n"@)
    } else {
        joined(f, "\n"@)
    }
}

/// The text copied to the clipboard for the filtered entries.
pub open spec fn copy_text(f: Seq<Seq<char>>) -> Seq<char> {
    if f.len() == 0 {
        "No log entries"@
    } else {
        joined(f, "\n"@)
    }
}

/// The log panel text for filtered entries.
pub fn log_display_text(filtered_logs: &Vec<String>) -> (r: String)
    ensures
        r@ == display_text(views_of(filtered_logs@)),
{
    let total = filtered_logs.len();
    if total == 0 {
        return "No log entries".to_owned();
    }
    if total > MAX_DISPLAY_ENTRIES {
        let hidden = total - MAX_DISPLAY_ENTRIES;
        let mut shown: Vec<String> = Vec::new();
        let mut i: usize = hidden;
        while i < total
            invariant
                total == filtered_logs@.len(),
                hidden <= i <= total,
                views_of(shown@) == views_of(filtered_logs@).subrange(hidden as int, i as int),
            decreases total - i,
        {
            let ghost s0 = shown@;
            shown.push(filtered_logs[i].clone());
            assert(views_of(shown@) =~= views_of(s0).push(filtered_logs@[i as int]@));
            assert(views_of(filtered_logs@).subrange(hidden as int, i + 1) =~= views_of(
                filtered_logs@,
            ).subrange(hidden as int, i as int).push(filtered_logs@[i as int]@));
            i = i + 1;
        }
        assert(views_of(filtered_logs@).subrange(hidden as int, total as int) =~= views_of(
            filtered_logs@,
        ).skip(hidden as int));
        let mut r = "... (".to_owned();
        let count = decimal_string(hidden as u64);
        r.append(count.as_str());
        r.append(" older entries hidden) ...\n");
        let body = join_strings(&shown, "\n");
        r.append(body.as_str());
        r
    } else {
        join_strings(filtered_logs, "\n")
    }
}

/// The clipboard text for filtered entries.
pub fn log_copy_text(filtered_logs: &Vec<String>) -> (r: String)
    ensures
        r@ == copy_text(views_of(filtered_logs@)),
{
    if filtered_logs.len() == 0 {
        "No log entries".to_owned()
    } else {
        join_strings(filtered_logs, "\n")
    }
}

/// Bounded log history.
#[derive(Debug)]
pub struct LogBuffer {
    entries: Vec<String>,
}

impl View for LogBuffer {
    type V = Seq<Seq<char>>;

    closed spec fn view(&self) -> Seq<Seq<char>> {
        views_of(self.entries@)
    }
}

/// The last `n` elements of `s` (all of them when there are fewer).
pub open spec fn keep_newest(s: Seq<Seq<char>>, n: int) -> Seq<Seq<char>> {
    if s.len() <= n {
        s
    } else {
        s.skip(s.len() - n)
    }
}

impl LogBuffer {
    pub fn new() -> (r: Self)
        ensures
            r@ == Seq::<Seq<char>>::empty(),
    {
        let r = LogBuffer { entries: Vec::new() };
        assert(r@ =~= Seq::<Seq<char>>::empty());
        r
    }

    /// The entries, oldest first.
    pub fn entries(&self) -> (r: &Vec<String>)
        ensures
            views_of(r@) == self@,
    {
        &self.entries
    }

    /// Drops the oldest entries beyond the limit.
    fn prune(&mut self)
        ensures
            final(self)@ == keep_newest(old(self)@, MAX_LOG_ENTRIES as int),
    {
        let ghost s0 = self@;
        let ghost excess: int = if s0.len() > MAX_LOG_ENTRIES { s0.len() - MAX_LOG_ENTRIES } else { 0 };
        let mut dropped: usize = 0;
        let n0 = self.entries.len();
        assert(s0.len() == n0);
        while self.entries.len() > MAX_LOG_ENTRIES
            invariant
                self@ == s0.skip(dropped as int),
                dropped <= excess,
                excess == if s0.len() > MAX_LOG_ENTRIES { s0.len() - MAX_LOG_ENTRIES } else { 0int },
                self.entries@.len() == s0.len() - dropped,
                s0.len() <= usize::MAX,
            decreases self.entries.len(),
        {
            let ghost before = self@;
            self.entries.remove(0);
            assert(self@ =~= before.drop_first());
            assert(s0.skip(dropped as int).drop_first() =~= s0.skip(dropped + 1));
            dropped = dropped + 1;
        }
        proof {
            assert(dropped == excess);
            if s0.len() <= MAX_LOG_ENTRIES {
                assert(s0.skip(0) =~= s0);
            }
        }
    }

    /// Adds an entry, pruning the oldest beyond the limit.
    pub fn add_log(&mut self, entry: &str)
        ensures
            final(self)@ == keep_newest(old(self)@.push(entry@), MAX_LOG_ENTRIES as int),
    {
        let ghost s0 = self@;
        self.entries.push(entry.to_owned());
        assert(self@ =~= s0.push(entry@));
        self.prune();
    }

    /// Adds several entries, then prunes the oldest beyond the limit.
    pub fn add_logs(&mut self, new_entries: Vec<String>)
        ensures
            final(self)@ == keep_newest(old(self)@ + views_of(new_entries@), MAX_LOG_ENTRIES as int),
    {
        let ghost s0 = self@;
        let ghost ns = views_of(new_entries@);
        let mut i: usize = 0;
        while i < new_entries.len()
            invariant
                i <= new_entries.len(),
                ns == views_of(new_entries@),
                self@ == s0 + ns.take(i as int),
            decreases new_entries.len() - i,
        {
            let ghost before = self@;
            self.entries.push(new_entries[i].clone());
            assert(self@ =~= before.push(new_entries@[i as int]@));
            assert(s0 + ns.take(i + 1) =~= (s0 + ns.take(i as int)).push(ns[i as int]));
            i = i + 1;
        }
        assert(ns.take(new_entries.len() as int) =~= ns);
        self.prune();
    }

    /// Removes every entry.
    pub fn clear(&mut self)
        ensures
            final(self)@ == Seq::<Seq<char>>::empty(),
    {
        self.entries.clear();
        assert(self@ =~= Seq::<Seq<char>>::empty());
    }
}

/// The history never holds more than the limit, and its newest entry is
/// the one just added.
pub proof fn lemma_add_log_bounded(s: Seq<Seq<char>>, e: Seq<char>)
    ensures
        keep_newest(s.push(e), MAX_LOG_ENTRIES as int).len() <= MAX_LOG_ENTRIES,
        keep_newest(s.push(e), MAX_LOG_ENTRIES as int).last() == e,
{
}

/// The display throttle of a log panel.
#[derive(Debug)]
pub struct LogDisplayThrottle {
    pub dirty: bool,
    pub collapsed: bool,
    pub last_update_ms: Option<u64>,
    /// The level filter, node filter and lowercased search text of the last refresh.
    pub filter_cache: (usize, usize, String),
}

/// The filter key of a refresh: the search text is compared lowercased.
pub open spec fn filter_key(level: usize, node: usize, search: Seq<char>) -> (usize, usize, Seq<char>) {
    (level, node, lowercase_of(search))
}

impl LogDisplayThrottle {
    /// The cached filter key.
    pub open spec fn cache_view(&self) -> (usize, usize, Seq<char>) {
        (self.filter_cache.0, self.filter_cache.1, self.filter_cache.2@)
    }

    /// A panel that has never been refreshed, with no filter.
    pub fn new(collapsed: bool) -> (r: Self)
        ensures
            !r.dirty,
            r.collapsed == collapsed,
            r.last_update_ms is None,
            r.cache_view() == (0usize, 0usize, Seq::<char>::empty()),
    {
        let r = LogDisplayThrottle {
            dirty: false,
            collapsed,
            last_update_ms: None,
            filter_cache: (0, 0, String::new()),
        };
        r
    }

    /// Records the filter of a refresh of the display.
    pub fn record_filter(&mut self, level: usize, node: usize, search: &str)
        ensures
            final(self).cache_view() == filter_key(level, node, search@),
            final(self).dirty == old(self).dirty,
            final(self).collapsed == old(self).collapsed,
            final(self).last_update_ms == old(self).last_update_ms,
    {
        self.filter_cache = (level, node, str_to_lowercase(search));
    }

    /// Whether the filter differs from the one of the last refresh, in which
    /// case the display is refreshed at once.
    pub fn filter_changed(&self, level: usize, node: usize, search: &str) -> (r: bool)
        ensures
            r == (filter_key(level, node, search@) != self.cache_view()),
    {
        let lowered = str_to_lowercase(search);
        !(level == self.filter_cache.0 && node == self.filter_cache.1 && str_eq(
            lowered.as_str(),
            self.filter_cache.2.as_str(),
        ))
    }

    /// Opens or closes the panel at `now_ms`; returns whether the display
    /// must be refreshed (always on opening: logs may have accumulated).
    pub fn toggle(&mut self, now_ms: u64) -> (refresh: bool)
        ensures
            final(self).collapsed == !old(self).collapsed,
            refresh == !final(self).collapsed,
            refresh ==> !final(self).dirty && final(self).last_update_ms == Some(now_ms),
            !refresh ==> final(self).dirty == old(self).dirty && final(self).last_update_ms == old(
                self,
            ).last_update_ms,
            final(self).cache_view() == old(self).cache_view(),
    {
        self.collapsed = !self.collapsed;
        if self.collapsed {
            false
        } else {
            self.dirty = false;
            self.last_update_ms = Some(now_ms);
            true
        }
    }

    /// The log was cleared: the display is refreshed at once.
    pub fn clear(&mut self)
        ensures
            !final(self).dirty,
            final(self).collapsed == old(self).collapsed,
            final(self).last_update_ms == old(self).last_update_ms,
            final(self).cache_view() == old(self).cache_view(),
    {
        self.dirty = false;
    }

    /// New log content arrived at `now_ms`: returns whether the display must
    /// be refreshed now. A collapsed panel only remembers that it is stale;
    /// an open one refreshes at most once per throttle interval.
    pub fn mark_dirty(&mut self, now_ms: u64) -> (refresh: bool)
        ensures
            final(self).collapsed == old(self).collapsed,
            refresh == (!old(self).collapsed && match old(self).last_update_ms {
                None => true,
                Some(t) => now_ms >= t && now_ms - t >= LOG_UPDATE_THROTTLE_MS,
            }),
            final(self).dirty == !refresh,
            final(self).last_update_ms == if refresh {
                Some(now_ms)
            } else {
                old(self).last_update_ms
            },
    {
        self.dirty = true;
        if self.collapsed {
            return false;
        }
        let due = match self.last_update_ms {
            None => true,
            Some(t) => now_ms >= t && now_ms - t >= LOG_UPDATE_THROTTLE_MS,
        };
        if due {
            self.dirty = false;
            self.last_update_ms = Some(now_ms);
        }
        due
    }
}

/// `HH:MM:SS` (UTC time of day) of a Unix timestamp in milliseconds.
pub open spec fn timestamp_text(ms: u64) -> Seq<char> {
    let secs: int = (ms / 1000) as int % 86400;
    two_digits(secs / 3600) + ":"@ + two_digits((secs % 3600) / 60) + ":"@ + two_digits(secs % 60)
}

/// Formats a Unix timestamp (milliseconds) as `HH:MM:SS`.
pub fn format_timestamp(timestamp_ms: u64) -> (r: String)
    ensures
        r@ == timestamp_text(timestamp_ms),
{
    let total_secs = timestamp_ms / 1000;
    let secs_in_day = total_secs % 86400;
    let hours = secs_in_day / 3600;
    let minutes = (secs_in_day % 3600) / 60;
    let seconds = secs_in_day % 60;
    let mut r = String::new();
    push_two_digits(&mut r, hours);
    r.append(":");
    push_two_digits(&mut r, minutes);
    r.append(":");
    push_two_digits(&mut r, seconds);
    r
}

/// Chat message entry for display.
#[derive(Debug)]
pub struct ChatMessageEntry {
    pub sender: String,
    pub content: String,
    pub timestamp: u64,
    pub is_streaming: bool,
    pub session_id: Option<String>,
}

impl ChatMessageEntry {
    /// A finished message stamped with the current time.
    pub fn new(sender: String, content: String) -> (r: Self)
        ensures
            r.sender@ == sender@,
            r.content@ == content@,
            !r.is_streaming,
            r.session_id is None,
    {
        ChatMessageEntry { sender, content, timestamp: unix_ms(), is_streaming: false, session_id: None }
    }
}

/// `[sender] content` of each message, separated by blank lines.
pub open spec fn chat_copy_text(ms: Seq<(Seq<char>, Seq<char>)>) -> Seq<char> {
    if ms.len() == 0 {
        "No chat messages"@
    } else {
        joined(ms.map_values(|m: (Seq<char>, Seq<char>)| "["@ + m.0 + "] "@ + m.1), "\n\n"@)
    }
}

/// The sender and content of each message.
pub open spec fn entries_view(v: Seq<ChatMessageEntry>) -> Seq<(Seq<char>, Seq<char>)> {
    v.map_values(|m: ChatMessageEntry| (m.sender@, m.content@))
}

/// The clipboard text of a chat transcript.
pub fn chat_transcript_text(messages: &Vec<ChatMessageEntry>) -> (r: String)
    ensures
        r@ == chat_copy_text(entries_view(messages@)),
{
    if messages.len() == 0 {
        return "No chat messages".to_owned();
    }
    let mut lines: Vec<String> = Vec::new();
    let mut i: usize = 0;
    let ghost target = entries_view(messages@).map_values(
        |m: (Seq<char>, Seq<char>)| "["@ + m.0 + "] "@ + m.1,
    );
    while i < messages.len()
        invariant
            i <= messages.len(),
            target == entries_view(messages@).map_values(
                |m: (Seq<char>, Seq<char>)| "["@ + m.0 + "] "@ + m.1,
            ),
            views_of(lines@) == target.take(i as int),
        decreases messages.len() - i,
    {
        let mut line = "[".to_owned();
        line.append(messages[i].sender.as_str());
        line.append("] ");
        line.append(messages[i].content.as_str());
        let ghost l0 = lines@;
        lines.push(line);
        assert(views_of(lines@) =~= views_of(l0).push(target[i as int]));
        assert(target.take(i + 1) =~= target.take(i as int).push(target[i as int]));
        i = i + 1;
    }
    assert(target.take(messages.len() as int) =~= target);
    join_strings(&lines, "\n\n")
}

/// Maximum number of chat messages kept for display (the oldest is dropped).
pub const MAX_CHAT_MESSAGES: usize = 500;

/// The prompt sent when the prompt input is left empty ("let's begin").
pub open spec fn default_prompt() -> Seq<char> {
    "\u{5f00}\u{59cb}\u{5427}"@
}

/// The prompt to send: the input, or the default prompt when it is empty.
pub fn prompt_or_default(input: String) -> (r: String)
    ensures
        r@ == if input@.len() == 0 {
            default_prompt()
        } else {
            input@
        },
{
    if input.as_str().unicode_len() == 0 {
        "\u{5f00}\u{59cb}\u{5427}".to_owned()
    } else {
        input
    }
}

/// The chat history after adding a message: the oldest message is dropped
/// when the history would exceed its bound.
pub open spec fn bounded_push<T>(s: Seq<T>, m: T) -> Seq<T> {
    if s.len() + 1 > MAX_CHAT_MESSAGES {
        s.push(m).drop_first()
    } else {
        s.push(m)
    }
}

/// A history within its bound stays within it, and always ends with the
/// newest message.
pub proof fn lemma_chat_history_bounded<T>(s: Seq<T>, m: T)
    requires
        s.len() <= MAX_CHAT_MESSAGES,
    ensures
        bounded_push(s, m).len() <= MAX_CHAT_MESSAGES,
        bounded_push(s, m).last() == m,
{
}

/// Adds a message to the chat history, keeping it bounded.
pub fn push_chat_message(messages: &mut Vec<ChatMessageEntry>, m: ChatMessageEntry)
    ensures
        final(messages)@ == bounded_push(old(messages)@, m),
{
    messages.push(m);
    if messages.len() > MAX_CHAT_MESSAGES {
        messages.remove(0);
    }
}

/// One message as the chat panel shows it: bold sender, an hourglass while
/// the message is still streaming, the time of day, then the content.
pub open spec fn chat_entry_display(
    sender: Seq<char>,
    content: Seq<char>,
    timestamp: u64,
    streaming: bool,
) -> Seq<char> {
    "**"@ + sender + "**"@ + (if streaming {
        " \u{231b}"@
    } else {
        ""@
    }) + " ("@ + timestamp_text(timestamp) + "):  \n"@ + content
}

/// The displayed form of each message.
pub open spec fn display_entries(v: Seq<ChatMessageEntry>) -> Seq<Seq<char>> {
    v.map_values(
        |m: ChatMessageEntry| chat_entry_display(m.sender@, m.content@, m.timestamp, m.is_streaming),
    )
}

/// The chat panel text: a waiting line when empty, otherwise the messages
/// separated by horizontal rules.
pub open spec fn chat_display(v: Seq<ChatMessageEntry>) -> Seq<char> {
    if v.len() == 0 {
        "Waiting for conversation..."@
    } else {
        joined(display_entries(v), "\n\n---\n\n"@)
    }
}

/// The text shown in the chat panel for the current messages.
pub fn chat_display_text(messages: &Vec<ChatMessageEntry>) -> (r: String)
    ensures
        r@ == chat_display(messages@),
{
    if messages.len() == 0 {
        return "Waiting for conversation...".to_owned();
    }
    let ghost target = display_entries(messages@);
    let mut lines: Vec<String> = Vec::new();
    let mut i: usize = 0;
    while i < messages.len()
        invariant
            i <= messages.len(),
            target == display_entries(messages@),
            views_of(lines@) == target.take(i as int),
        decreases messages.len() - i,
    {
        let m = &messages[i];
        let mut line = "**".to_owned();
        line.append(m.sender.as_str());
        line.append("**");
        if m.is_streaming {
            line.append(" \u{231b}");
        }
        line.append(" (");
        let ts = format_timestamp(m.timestamp);
        line.append(ts.as_str());
        line.append("):  \n");
        line.append(m.content.as_str());
        proof {
            reveal_strlit("");
            let head = "**"@ + m.sender@ + "**"@;
            assert(head + ""@ =~= head);
        }
        assert(line@ =~= chat_entry_display(m.sender@, m.content@, m.timestamp, m.is_streaming));
        let ghost l0 = lines@;
        lines.push(line);
        assert(views_of(lines@) =~= views_of(l0).push(target[i as int]));
        assert(target.take(i + 1) =~= target.take(i as int).push(target[i as int]));
        i = i + 1;
    }
    assert(target.take(messages.len() as int) =~= target);
    join_strings(&lines, "\n\n---\n\n")
}

/// Whether a chat view must scroll to its newest message: only when the
/// message count grew since the last scroll, which then records the count.
pub fn scroll_for_new_messages(last_count: &mut usize, count: usize) -> (scroll: bool)
    ensures
        scroll == (count > *old(last_count)),
        *final(last_count) == if scroll {
            count
        } else {
            *old(last_count)
        },
{
    if count > *last_count {
        *last_count = count;
        true
    } else {
        false
    }
}

} // verus!
