//! Guards at the door of a channel: messages from before the channel was
//! started are dropped, and so is a message that was seen a moment ago.

use crate::chars::{str_eq, trim, trim_exec};
use crate::parse::{parse_i64, parsed_int};
use vstd::prelude::*;
use vstd::string::*;

verus! {

/// For how many milliseconds a message counts as seen a moment ago.
pub const RECENT_DUPLICATE_TTL_MS: i64 = 600000;

/// How many messages are remembered for one channel before the old ones
/// are forgotten.
pub const RECENT_DUPLICATE_MAX_IDS_PER_CHANNEL: usize = 20000;

/// `chrono::Utc::now` and `DateTime::timestamp_millis`: the present
/// moment in milliseconds since the epoch. The result depends on the
/// clock, so nothing is claimed of it.
#[verifier::external_body]
fn now_millis() -> i64 {
    chrono::Utc::now().timestamp_millis()
}

/// The integer `n` brought into the range of a signed 64-bit integer.
pub open spec fn clamped(n: int) -> int {
    if n > i64::MAX {
        i64::MAX as int
    } else if n < i64::MIN {
        i64::MIN as int
    } else {
        n
    }
}

fn saturating_sub(a: i64, b: i64) -> (r: i64)
    ensures
        r == clamped(a - b),
{
    let d: i128 = a as i128 - b as i128;
    if d > i64::MAX as i128 {
        i64::MAX
    } else if d < i64::MIN as i128 {
        i64::MIN
    } else {
        d as i64
    }
}

fn saturating_thousandfold(a: i64) -> (r: i64)
    ensures
        r == clamped(a * 1000),
{
    let d: i128 = a as i128 * 1000;
    if d > i64::MAX as i128 {
        i64::MAX
    } else if d < i64::MIN as i128 {
        i64::MIN
    } else {
        d as i64
    }
}

/// When a channel was started.
#[derive(Debug)]
pub struct ChannelStart {
    channel: String,
    started_ms: i64,
}

/// View of a [`ChannelStart`].
pub struct StartView {
    pub channel: Seq<char>,
    pub started_ms: i64,
}

/// A message that was seen on a channel.
#[derive(Debug)]
pub struct RecentMessage {
    channel: String,
    message_id: String,
    seen_ms: i64,
}

/// View of a [`RecentMessage`].
pub struct RecentView {
    pub channel: Seq<char>,
    pub message_id: Seq<char>,
    pub seen_ms: i64,
}

/// What the guards remember.
#[derive(Debug)]
pub struct StartupGuard {
    starts: Vec<ChannelStart>,
    recent: Vec<RecentMessage>,
}

/// View of a [`StartupGuard`].
pub struct GuardView {
    pub starts: Seq<StartView>,
    pub recent: Seq<RecentView>,
}

impl View for ChannelStart {
    type V = StartView;

    closed spec fn view(&self) -> StartView {
        StartView { channel: self.channel@, started_ms: self.started_ms }
    }
}

impl View for RecentMessage {
    type V = RecentView;

    closed spec fn view(&self) -> RecentView {
        RecentView { channel: self.channel@, message_id: self.message_id@, seen_ms: self.seen_ms }
    }
}

spec fn start_views(s: Seq<ChannelStart>) -> Seq<StartView> {
    Seq::new(s.len(), |i: int| s[i]@)
}

spec fn recent_views(s: Seq<RecentMessage>) -> Seq<RecentView> {
    Seq::new(s.len(), |i: int| s[i]@)
}

impl View for StartupGuard {
    type V = GuardView;

    closed spec fn view(&self) -> GuardView {
        GuardView { starts: start_views(self.starts@), recent: recent_views(self.recent@) }
    }
}

/// When the channel was started, as far as is remembered.
pub open spec fn start_of(starts: Seq<StartView>, channel: Seq<char>) -> Option<i64>
    decreases starts.len(),
{
    if starts.len() == 0 {
        None
    } else if starts.last().channel == channel {
        Some(starts.last().started_ms)
    } else {
        start_of(starts.drop_last(), channel)
    }
}

/// The starts of all other channels.
pub open spec fn other_starts(starts: Seq<StartView>, channel: Seq<char>) -> Seq<StartView>
    decreases starts.len(),
{
    if starts.len() == 0 {
        Seq::empty()
    } else if starts.last().channel == channel {
        other_starts(starts.drop_last(), channel)
    } else {
        other_starts(starts.drop_last(), channel).push(starts.last())
    }
}

/// What is remembered once the channel was started at `now_ms`.
pub open spec fn started_at(starts: Seq<StartView>, channel: Seq<char>, now_ms: i64) -> Seq<
    StartView,
> {
    other_starts(starts, channel).push(StartView { channel, started_ms: now_ms })
}

/// Whether a message from the time `message_time_ms` is from before the
/// channel was started. A message without a time is not, and neither is
/// one on a channel of which no start is remembered.
pub open spec fn is_pre_start(
    starts: Seq<StartView>,
    channel: Seq<char>,
    message_time_ms: Option<i64>,
) -> bool {
    match (message_time_ms, start_of(starts, channel)) {
        (Some(message_ms), Some(start_ms)) => message_ms < start_ms,
        _ => false,
    }
}

/// When the message was last seen on the channel, as far as is remembered.
pub open spec fn seen_at(recent: Seq<RecentView>, channel: Seq<char>, id: Seq<char>) -> Option<i64>
    decreases recent.len(),
{
    if recent.len() == 0 {
        None
    } else if recent.last().channel == channel && recent.last().message_id == id {
        Some(recent.last().seen_ms)
    } else {
        seen_at(recent.drop_last(), channel, id)
    }
}

/// Whether what was seen at `seen_ms` still counts as seen a moment ago.
pub open spec fn still_fresh(now_ms: i64, seen_ms: i64) -> bool {
    clamped(now_ms - seen_ms) <= RECENT_DUPLICATE_TTL_MS
}

/// What is remembered without the message.
pub open spec fn without_message(recent: Seq<RecentView>, channel: Seq<char>, id: Seq<char>) -> Seq<
    RecentView,
>
    decreases recent.len(),
{
    if recent.len() == 0 {
        Seq::empty()
    } else if recent.last().channel == channel && recent.last().message_id == id {
        without_message(recent.drop_last(), channel, id)
    } else {
        without_message(recent.drop_last(), channel, id).push(recent.last())
    }
}

/// How many messages are remembered for the channel.
pub open spec fn count_on(recent: Seq<RecentView>, channel: Seq<char>) -> nat
    decreases recent.len(),
{
    if recent.len() == 0 {
        0
    } else if recent.last().channel == channel {
        count_on(recent.drop_last(), channel) + 1
    } else {
        count_on(recent.drop_last(), channel)
    }
}

/// What is remembered once the channel's messages that no longer count as
/// seen a moment ago are forgotten.
pub open spec fn only_fresh(recent: Seq<RecentView>, channel: Seq<char>, now_ms: i64) -> Seq<
    RecentView,
>
    decreases recent.len(),
{
    if recent.len() == 0 {
        Seq::empty()
    } else if recent.last().channel == channel && !still_fresh(now_ms, recent.last().seen_ms) {
        only_fresh(recent.drop_last(), channel, now_ms)
    } else {
        only_fresh(recent.drop_last(), channel, now_ms).push(recent.last())
    }
}

/// What is remembered once the message was seen at `now_ms`; where the
/// channel then has more messages than the bound allows, its old ones are
/// forgotten.
pub open spec fn remembered(
    recent: Seq<RecentView>,
    channel: Seq<char>,
    id: Seq<char>,
    now_ms: i64,
) -> Seq<RecentView> {
    let added = without_message(recent, channel, id).push(
        RecentView { channel, message_id: id, seen_ms: now_ms },
    );
    if count_on(added, channel) > RECENT_DUPLICATE_MAX_IDS_PER_CHANNEL {
        only_fresh(added, channel, now_ms)
    } else {
        added
    }
}

/// Whether the message, seen now, is one that was seen a moment ago.
pub open spec fn is_recent_duplicate(
    recent: Seq<RecentView>,
    channel: Seq<char>,
    raw_id: Seq<char>,
    now_ms: i64,
) -> bool {
    trim(raw_id).len() > 0 && match seen_at(recent, channel, trim(raw_id)) {
        Some(last) => still_fresh(now_ms, last),
        None => false,
    }
}

/// What is remembered after the message was looked at: nothing new for a
/// message without an id or one that is dropped.
pub open spec fn after_duplicate_check(
    recent: Seq<RecentView>,
    channel: Seq<char>,
    raw_id: Seq<char>,
    now_ms: i64,
) -> Seq<RecentView> {
    if trim(raw_id).len() == 0 || is_recent_duplicate(recent, channel, raw_id, now_ms) {
        recent
    } else {
        remembered(recent, channel, trim(raw_id), now_ms)
    }
}

/// No channel has more than one start.
pub open spec fn unique_starts(starts: Seq<StartView>) -> bool
    decreases starts.len(),
{
    starts.len() == 0 || (unique_starts(starts.drop_last()) && start_of(
        starts.drop_last(),
        starts.last().channel,
    ) is None)
}

/// No message of a channel is remembered more than once.
pub open spec fn unique_recent(recent: Seq<RecentView>) -> bool
    decreases recent.len(),
{
    recent.len() == 0 || (unique_recent(recent.drop_last()) && seen_at(
        recent.drop_last(),
        recent.last().channel,
        recent.last().message_id,
    ) is None)
}

/// Among the starts of the other channels there is none of the channel
/// itself, the others are as before, and no channel has gained a start.
pub proof fn lemma_other_starts(starts: Seq<StartView>, channel: Seq<char>, other: Seq<char>)
    ensures
        start_of(other_starts(starts, channel), channel) is None,
        other != channel ==> start_of(other_starts(starts, channel), other) == start_of(
            starts,
            other,
        ),
        unique_starts(starts) ==> unique_starts(other_starts(starts, channel)),
    decreases starts.len(),
{
    if starts.len() > 0 {
        let init = starts.drop_last();
        lemma_other_starts(init, channel, other);
        lemma_other_starts(init, channel, starts.last().channel);
        if starts.last().channel != channel {
            let kept = other_starts(init, channel);
            assert(kept.push(starts.last()).drop_last() =~= kept);
        }
    }
}

/// Marking a channel as started leaves every channel with one start.
pub proof fn lemma_started_at_keeps_unique(starts: Seq<StartView>, channel: Seq<char>, now_ms: i64)
    requires
        unique_starts(starts),
    ensures
        unique_starts(started_at(starts, channel, now_ms)),
        start_of(started_at(starts, channel, now_ms), channel) == Some(now_ms),
{
    lemma_other_starts(starts, channel, channel);
    let kept = other_starts(starts, channel);
    let entry = StartView { channel, started_ms: now_ms };
    assert(kept.push(entry).drop_last() =~= kept);
}

/// What is left once a message is taken out holds it no more, holds every
/// other message as before, and holds none twice that was not held twice.
pub proof fn lemma_without_message(
    recent: Seq<RecentView>,
    channel: Seq<char>,
    id: Seq<char>,
    other_channel: Seq<char>,
    other_id: Seq<char>,
)
    ensures
        seen_at(without_message(recent, channel, id), channel, id) is None,
        (other_channel != channel || other_id != id) ==> seen_at(
            without_message(recent, channel, id),
            other_channel,
            other_id,
        ) == seen_at(recent, other_channel, other_id),
        unique_recent(recent) ==> unique_recent(without_message(recent, channel, id)),
    decreases recent.len(),
{
    if recent.len() > 0 {
        let init = recent.drop_last();
        let last = recent.last();
        lemma_without_message(init, channel, id, other_channel, other_id);
        lemma_without_message(init, channel, id, last.channel, last.message_id);
        if !(last.channel == channel && last.message_id == id) {
            let kept = without_message(init, channel, id);
            assert(kept.push(last).drop_last() =~= kept);
        }
    }
}

/// Forgetting old messages brings none back and leaves none held twice
/// that was not held twice.
pub proof fn lemma_only_fresh(
    recent: Seq<RecentView>,
    channel: Seq<char>,
    now_ms: i64,
    other_channel: Seq<char>,
    other_id: Seq<char>,
)
    ensures
        seen_at(recent, other_channel, other_id) is None ==> seen_at(
            only_fresh(recent, channel, now_ms),
            other_channel,
            other_id,
        ) is None,
        unique_recent(recent) ==> unique_recent(only_fresh(recent, channel, now_ms)),
    decreases recent.len(),
{
    if recent.len() > 0 {
        let init = recent.drop_last();
        let last = recent.last();
        lemma_only_fresh(init, channel, now_ms, other_channel, other_id);
        lemma_only_fresh(init, channel, now_ms, last.channel, last.message_id);
        if !(last.channel == channel && !still_fresh(now_ms, last.seen_ms)) {
            let kept = only_fresh(init, channel, now_ms);
            assert(kept.push(last).drop_last() =~= kept);
        }
    }
}

/// Remembering a message leaves no message remembered twice.
pub proof fn lemma_remembered_keeps_unique(
    recent: Seq<RecentView>,
    channel: Seq<char>,
    id: Seq<char>,
    now_ms: i64,
)
    requires
        unique_recent(recent),
    ensures
        unique_recent(remembered(recent, channel, id, now_ms)),
{
    lemma_without_message(recent, channel, id, channel, id);
    let kept = without_message(recent, channel, id);
    let entry = RecentView { channel, message_id: id, seen_ms: now_ms };
    let added = kept.push(entry);
    assert(added.drop_last() =~= kept);
    assert(unique_recent(added));
    lemma_only_fresh(added, channel, now_ms, channel, id);
}

impl StartupGuard {
    /// What holds of all that the guards remember: one start for each
    /// channel at most, and no message of a channel twice.
    pub open spec fn well_formed(&self) -> bool {
        unique_starts(self@.starts) && unique_recent(self@.recent)
    }

    /// Guards that remember nothing.
    pub fn new() -> (r: StartupGuard)
        ensures
            r@.starts == Seq::<StartView>::empty(),
            r@.recent == Seq::<RecentView>::empty(),
            r.well_formed(),
    {
        let r = StartupGuard { starts: Vec::new(), recent: Vec::new() };
        assert(r@.starts =~= Seq::<StartView>::empty());
        assert(r@.recent =~= Seq::<RecentView>::empty());
        r
    }

    fn find_start(&self, channel: &str) -> (r: Option<i64>)
        ensures
            r == start_of(self@.starts, channel@),
    {
        let mut i: usize = self.starts.len();
        assert(self@.starts.take(i as int) =~= self@.starts);
        while i > 0
            invariant
                i <= self.starts.len(),
                start_of(self@.starts, channel@) == start_of(self@.starts.take(i as int), channel@),
            decreases i,
        {
            let e = &self.starts[i - 1];
            proof {
                assert(self@.starts.take(i as int).drop_last() =~= self@.starts.take(i - 1));
                assert(self@.starts.take(i as int).last() == e@);
            }
            if str_eq(e.channel.as_str(), channel) {
                return Some(e.started_ms);
            }
            i -= 1;
        }
        None
    }

    fn find_seen(&self, channel: &str, id: &str) -> (r: Option<i64>)
        ensures
            r == seen_at(self@.recent, channel@, id@),
    {
        let mut i: usize = self.recent.len();
        assert(self@.recent.take(i as int) =~= self@.recent);
        while i > 0
            invariant
                i <= self.recent.len(),
                seen_at(self@.recent, channel@, id@) == seen_at(
                    self@.recent.take(i as int),
                    channel@,
                    id@,
                ),
            decreases i,
        {
            let e = &self.recent[i - 1];
            proof {
                assert(self@.recent.take(i as int).drop_last() =~= self@.recent.take(i - 1));
                assert(self@.recent.take(i as int).last() == e@);
            }
            if str_eq(e.channel.as_str(), channel) && str_eq(e.message_id.as_str(), id) {
                return Some(e.seen_ms);
            }
            i -= 1;
        }
        None
    }

    fn remember(&mut self, channel: &str, id: &str, now_ms: i64)
        ensures
            final(self)@.starts == old(self)@.starts,
            final(self)@.recent == remembered(old(self)@.recent, channel@, id@, now_ms),
    {
        let (mut added, on_channel) = copy_without(&self.recent, channel, id);
        let ghost kept = recent_views(added@);
        let entry = RecentMessage {
            channel: channel.to_owned(),
            message_id: id.to_owned(),
            seen_ms: now_ms,
        };
        added.push(entry);
        assert(recent_views(added@) =~= kept.push(entry@));
        assert(kept.push(entry@).drop_last() =~= kept);
        if on_channel >= RECENT_DUPLICATE_MAX_IDS_PER_CHANNEL {
            self.recent = copy_fresh(&added, channel, now_ms);
        } else {
            self.recent = added;
        }
    }
}

fn copy_recent(e: &RecentMessage) -> (r: RecentMessage)
    ensures
        r@ == e@,
{
    RecentMessage {
        channel: e.channel.clone(),
        message_id: e.message_id.clone(),
        seen_ms: e.seen_ms,
    }
}

fn copy_without(recent: &Vec<RecentMessage>, channel: &str, id: &str) -> (r: (
    Vec<RecentMessage>,
    usize,
))
    ensures
        recent_views(r.0@) == without_message(recent_views(recent@), channel@, id@),
        r.1 == count_on(without_message(recent_views(recent@), channel@, id@), channel@),
{
    let ghost start = recent_views(recent@);
    let mut added: Vec<RecentMessage> = Vec::new();
    let mut on_channel: usize = 0;
    let mut i: usize = 0;
    assert(recent_views(added@) =~= Seq::<RecentView>::empty());
    while i < recent.len()
        invariant
            i <= recent.len(),
            start == recent_views(recent@),
            on_channel <= i,
            recent_views(added@) == without_message(start.take(i as int), channel@, id@),
            on_channel == count_on(recent_views(added@), channel@),
        decreases recent.len() - i,
    {
        let e = &recent[i];
        proof {
            assert(start.take(i + 1).drop_last() =~= start.take(i as int));
            assert(start.take(i + 1).last() == e@);
        }
        let ghost before = recent_views(added@);
        let same_channel = str_eq(e.channel.as_str(), channel);
        if !(same_channel && str_eq(e.message_id.as_str(), id)) {
            let copy = copy_recent(e);
            added.push(copy);
            assert(recent_views(added@) =~= before.push(e@));
            assert(before.push(e@).drop_last() =~= before);
            if same_channel {
                on_channel += 1;
            }
        }
        i += 1;
    }
    assert(start.take(recent.len() as int) =~= start);
    (added, on_channel)
}

fn copy_fresh(recent: &Vec<RecentMessage>, channel: &str, now_ms: i64) -> (r: Vec<RecentMessage>)
    ensures
        recent_views(r@) == only_fresh(recent_views(recent@), channel@, now_ms),
{
    let ghost all = recent_views(recent@);
    let mut fresh: Vec<RecentMessage> = Vec::new();
    let mut j: usize = 0;
    assert(recent_views(fresh@) =~= Seq::<RecentView>::empty());
    while j < recent.len()
        invariant
            j <= recent.len(),
            all == recent_views(recent@),
            recent_views(fresh@) == only_fresh(all.take(j as int), channel@, now_ms),
        decreases recent.len() - j,
    {
        let e = &recent[j];
        proof {
            assert(all.take(j + 1).drop_last() =~= all.take(j as int));
            assert(all.take(j + 1).last() == e@);
        }
        let ghost before = recent_views(fresh@);
        let stale = str_eq(e.channel.as_str(), channel) && saturating_sub(now_ms, e.seen_ms)
            > RECENT_DUPLICATE_TTL_MS;
        if !stale {
            let copy = copy_recent(e);
            fresh.push(copy);
            assert(recent_views(fresh@) =~= before.push(e@));
        }
        j += 1;
    }
    assert(all.take(recent.len() as int) =~= all);
    fresh
}

/// Remembers that the channel was started at `now_ms`.
pub fn mark_channel_started_at(guard: &mut StartupGuard, channel_name: &str, now_ms: i64)
    ensures
        final(guard)@.recent == old(guard)@.recent,
        final(guard)@.starts == started_at(old(guard)@.starts, channel_name@, now_ms),
        old(guard).well_formed() ==> final(guard).well_formed(),
{
    proof {
        if guard.well_formed() {
            lemma_started_at_keeps_unique(guard@.starts, channel_name@, now_ms);
        }
    }
    let ghost start = guard@.starts;
    let mut kept: Vec<ChannelStart> = Vec::new();
    let mut i: usize = 0;
    assert(start_views(kept@) =~= Seq::<StartView>::empty());
    while i < guard.starts.len()
        invariant
            i <= guard.starts.len(),
            start == guard@.starts,
            guard@.recent == old(guard)@.recent,
            start_views(kept@) == other_starts(start.take(i as int), channel_name@),
        decreases guard.starts.len() - i,
    {
        let e = &guard.starts[i];
        proof {
            assert(start.take(i + 1).drop_last() =~= start.take(i as int));
            assert(start.take(i + 1).last() == e@);
        }
        let ghost before = start_views(kept@);
        if !str_eq(e.channel.as_str(), channel_name) {
            let copy = ChannelStart { channel: e.channel.clone(), started_ms: e.started_ms };
            kept.push(copy);
            assert(start_views(kept@) =~= before.push(e@));
        }
        i += 1;
    }
    assert(start.take(guard.starts.len() as int) =~= start);
    let ghost others = start_views(kept@);
    let entry = ChannelStart { channel: channel_name.to_owned(), started_ms: now_ms };
    kept.push(entry);
    assert(start_views(kept@) =~= others.push(entry@));
    guard.starts = kept;
}

/// Remembers that the channel was started at the present moment.
pub fn mark_channel_started(guard: &mut StartupGuard, channel_name: &str)
    ensures
        final(guard)@.recent == old(guard)@.recent,
        exists|now_ms: i64|
            final(guard)@.starts == started_at(old(guard)@.starts, channel_name@, now_ms),
        old(guard).well_formed() ==> final(guard).well_formed(),
{
    let now_ms = now_millis();
    mark_channel_started_at(guard, channel_name, now_ms);
}

/// Whether a message is to be dropped because it is from before the
/// channel was started.
pub fn should_drop_pre_start_message(
    guard: &StartupGuard,
    channel_name: &str,
    message_id: &str,
    message_time_ms: Option<i64>,
) -> (r: bool)
    ensures
        r == is_pre_start(guard@.starts, channel_name@, message_time_ms),
{
    let message_ms = match message_time_ms {
        Some(m) => m,
        None => {
            return false;
        },
    };
    match guard.find_start(channel_name) {
        Some(start_ms) => message_ms < start_ms,
        None => false,
    }
}

/// Whether a message that arrives at `now_ms` is to be dropped because it
/// was seen on the channel a moment ago. A message that is not dropped is
/// remembered; one without an id is neither dropped nor remembered.
pub fn should_drop_recent_duplicate_message_at(
    guard: &mut StartupGuard,
    channel_name: &str,
    message_id: &str,
    now_ms: i64,
) -> (r: bool)
    ensures
        r == is_recent_duplicate(old(guard)@.recent, channel_name@, message_id@, now_ms),
        final(guard)@.starts == old(guard)@.starts,
        final(guard)@.recent == after_duplicate_check(
            old(guard)@.recent,
            channel_name@,
            message_id@,
            now_ms,
        ),
        old(guard).well_formed() ==> final(guard).well_formed(),
{
    proof {
        if guard.well_formed() {
            lemma_remembered_keeps_unique(guard@.recent, channel_name@, trim(message_id@), now_ms);
        }
    }
    let id = trim_exec(message_id);
    if id.as_str().is_empty() {
        return false;
    }
    match guard.find_seen(channel_name, id.as_str()) {
        Some(last) => {
            if saturating_sub(now_ms, last) <= RECENT_DUPLICATE_TTL_MS {
                return true;
            }
        },
        None => {},
    }
    guard.remember(channel_name, id.as_str(), now_ms);
    false
}

/// Whether a message that arrives now is to be dropped because it was
/// seen on the channel a moment ago.
pub fn should_drop_recent_duplicate_message(
    guard: &mut StartupGuard,
    channel_name: &str,
    message_id: &str,
) -> (r: bool)
    ensures
        final(guard)@.starts == old(guard)@.starts,
        exists|now_ms: i64|
            r == is_recent_duplicate(old(guard)@.recent, channel_name@, message_id@, now_ms)
                && final(guard)@.recent == after_duplicate_check(
                old(guard)@.recent,
                channel_name@,
                message_id@,
                now_ms,
            ),
        old(guard).well_formed() ==> final(guard).well_formed(),
{
    let now_ms = now_millis();
    should_drop_recent_duplicate_message_at(guard, channel_name, message_id, now_ms)
}

/// The time in milliseconds that a text of digits stands for, white space
/// around it aside.
pub fn parse_epoch_ms_from_str(raw: &str) -> (r: Option<i64>)
    ensures
        match r {
            Some(n) => parsed_int(trim(raw@), i64::MIN as int, i64::MAX as int) == Some(n as int),
            None => parsed_int(trim(raw@), i64::MIN as int, i64::MAX as int) is None,
        },
{
    let trimmed = trim_exec(raw);
    parse_i64(trimmed.as_str())
}

/// The time in milliseconds that a text of seconds stands for; a time
/// beyond the range of 64 bits becomes the nearest end of the range.
pub fn parse_epoch_ms_from_seconds_str(raw: &str) -> (r: Option<i64>)
    ensures
        match r {
            Some(n) => parsed_int(trim(raw@), i64::MIN as int, i64::MAX as int) is Some && n
                == clamped(parsed_int(trim(raw@), i64::MIN as int, i64::MAX as int)->Some_0 * 1000),
            None => parsed_int(trim(raw@), i64::MIN as int, i64::MAX as int) is None,
        },
{
    match parse_epoch_ms_from_str(raw) {
        Some(secs) => Some(saturating_thousandfold(secs)),
        None => None,
    }
}

} // verus!
