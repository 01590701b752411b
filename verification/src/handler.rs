//! Decisions the bot makes on each Discord event: which metric a message
//! counts towards, whether its author earns score (at most once every two
//! minutes), who may run admin commands, and how long a command took.

use vstd::prelude::*;
use std::collections::HashMap;
use crate::ids::{MessageId, RoleId, UserId};
use crate::mongo::{score_key, UserConfig};

verus! {

broadcast use vstd::std_specs::hash::group_hash_axioms;

#[verifier::external_type_specification]
#[verifier::external_body]
pub struct ExTm(time::Tm);

/// `time::now_utc`: the current time, broken down in UTC.
#[verifier::external_body]
fn now_utc() -> time::Tm {
    time::now_utc()
}

/// Counters shown by the bot's info command.
pub struct StatsStore {
    pub users: usize,
    pub guilds: usize,
    pub messages: usize,
    /// When the bot started.
    pub start_utc: time::Tm,
}

impl StatsStore {
    /// Counters at zero, started now.
    pub fn new() -> (s: Self)
        ensures
            s.users == 0,
            s.guilds == 0,
            s.messages == 0,
    {
        StatsStore { users: 0, guilds: 0, messages: 0, start_utc: now_utc() }
    }
}

/// Seconds that must pass after a score award before the same user earns
/// score again.
pub const AWARD_INTERVAL: u64 = 120;

/// The score one award adds.
pub const AWARD_SCORE: i64 = 5;

/// When `user` last earned score, 0 if never.
pub open spec fn last_award(m: Map<u64, u64>, user: u64) -> int {
    if m.contains_key(user) { m[user] as int } else { 0 }
}

/// Whether `user` earns score at time `now`: more than `AWARD_INTERVAL`
/// seconds have passed since the last award.
pub open spec fn earns(m: Map<u64, u64>, user: u64, now: u64) -> bool {
    last_award(m, user) + AWARD_INTERVAL < now
}

/// The award times after `user` writes at `now`: the time is recorded when
/// score is earned, and an unknown user is recorded at 0 otherwise.
pub open spec fn after_message(m: Map<u64, u64>, user: u64, now: u64) -> Map<u64, u64> {
    if earns(m, user, now) {
        m.insert(user, now)
    } else {
        m.insert(user, last_award(m, user) as u64)
    }
}

/// A user who earned score earns none again until more than
/// `AWARD_INTERVAL` seconds have passed.
pub proof fn law_award_interval(m: Map<u64, u64>, user: u64, t1: u64, t2: u64)
    requires
        earns(m, user, t1),
        t2 <= t1 + AWARD_INTERVAL,
    ensures
        !earns(after_message(m, user, t1), user, t2),
{
}

/// A user who wrote more than `AWARD_INTERVAL` seconds after their last
/// award earns score.
pub proof fn law_award_after_interval(m: Map<u64, u64>, user: u64, now: u64)
    requires
        last_award(m, user) + AWARD_INTERVAL < now,
    ensures
        earns(m, user, now),
        after_message(m, user, now)[user] == now,
{
}

/// One user's message leaves every other user's award time as it was.
pub proof fn law_award_per_user(m: Map<u64, u64>, user: u64, other: u64, now: u64)
    requires
        user != other,
    ensures
        after_message(m, user, now).contains_key(other) == m.contains_key(other),
        last_award(after_message(m, user, now), other) == last_award(m, other),
{
}

/// The award times after a run of messages, each given as its author and
/// the second it was written, handled one after another from `m`.
pub open spec fn ranks_after(m: Map<u64, u64>, events: Seq<(u64, u64)>) -> Map<u64, u64>
    decreases events.len(),
{
    if events.len() == 0 {
        m
    } else {
        after_message(ranks_after(m, events.drop_last()), events.last().0, events.last().1)
    }
}

/// Whether the `i`-th message of the run earned its author score.
pub open spec fn awarded(m: Map<u64, u64>, events: Seq<(u64, u64)>, i: int) -> bool {
    earns(ranks_after(m, events.take(i)), events[i].0, events[i].1)
}

proof fn lemma_ranks_after_step(m: Map<u64, u64>, events: Seq<(u64, u64)>, k: int)
    requires
        0 <= k < events.len(),
    ensures
        ranks_after(m, events.take(k + 1)) == after_message(
            ranks_after(m, events.take(k)),
            events[k].0,
            events[k].1,
        ),
{
    assert(events.take(k + 1).drop_last() =~= events.take(k));
}

proof fn lemma_last_award_grows(m: Map<u64, u64>, events: Seq<(u64, u64)>, user: u64, k1: int, k2: int)
    requires
        0 <= k1 <= k2 <= events.len(),
    ensures
        last_award(ranks_after(m, events.take(k1)), user) <= last_award(ranks_after(m, events.take(k2)), user),
    decreases k2 - k1,
{
    if k1 < k2 {
        lemma_last_award_grows(m, events, user, k1, k2 - 1);
        lemma_ranks_after_step(m, events, k2 - 1);
    }
}

/// Over any run of messages, however users and guilds interleave, two
/// awards to the same user are more than `AWARD_INTERVAL` seconds apart.
pub proof fn law_award_run(m: Map<u64, u64>, events: Seq<(u64, u64)>, i: int, j: int)
    requires
        0 <= i < j < events.len(),
        events[i].0 == events[j].0,
        awarded(m, events, i),
        awarded(m, events, j),
    ensures
        events[j].1 > events[i].1 + AWARD_INTERVAL,
{
    lemma_ranks_after_step(m, events, i);
    lemma_last_award_grows(m, events, events[i].0, i + 1, j);
}

/// The last time each user earned score.
pub struct RankLock {
    last: HashMap<u64, u64>,
}

impl View for RankLock {
    type V = Map<u64, u64>;

    closed spec fn view(&self) -> Map<u64, u64> {
        self.last@
    }
}

impl RankLock {
    /// No user has earned score yet.
    pub fn new() -> (r: Self)
        ensures
            r@ == Map::<u64, u64>::empty(),
    {
        RankLock { last: HashMap::new() }
    }

    /// Decides whether `user`, writing at `now` (seconds), earns score, and
    /// records the award.
    pub fn try_award(&mut self, user: UserId, now: u64) -> (earned: bool)
        ensures
            earned == earns(old(self)@, user.0, now),
            final(self)@ == after_message(old(self)@, user.0, now),
    {
        let last: u64 = match self.last.get(&user.0) {
            Some(v) => *v,
            None => 0,
        };
        let earned = match last.checked_add(AWARD_INTERVAL) {
            Some(limit) => limit < now,
            None => false,
        };
        if earned {
            self.last.insert(user.0, now);
        } else {
            self.last.insert(user.0, last);
        }
        earned
    }
}

/// What to do with a message that arrived.
pub struct MessagePlan {
    /// The metric the message counts towards.
    pub metric: &'static str,
    /// Whether the message counts in the statistics (its author is no bot).
    pub counted: bool,
    /// Whether the author earns score for it.
    pub award: bool,
}

/// Handles the bookkeeping of a new message: the bot's own messages count as
/// sent, others as received; messages of bots go no further; any other
/// message is counted and may earn its author score.
pub fn message(
    stats: &mut StatsStore,
    ranks: &mut RankLock,
    own: bool,
    bot: bool,
    author: UserId,
    now: u64,
) -> (plan: MessagePlan)
    requires
        !bot ==> old(stats).messages < usize::MAX,
    ensures
        plan.metric@ == (if own { "messages.sent"@ } else { "messages.received"@ }),
        plan.counted == !bot,
        bot ==> !plan.award && final(ranks)@ == old(ranks)@ && final(stats).messages == old(stats).messages,
        !bot ==> plan.award == earns(old(ranks)@, author.0, now)
            && final(ranks)@ == after_message(old(ranks)@, author.0, now)
            && final(stats).messages == old(stats).messages + 1,
        final(stats).users == old(stats).users,
        final(stats).guilds == old(stats).guilds,
{
    let metric = if own { "messages.sent" } else { "messages.received" };
    if bot {
        return MessagePlan { metric, counted: false, award: false };
    }
    stats.messages = stats.messages + 1;
    let award = ranks.try_award(author, now);
    MessagePlan { metric, counted: true, award }
}

/// Adds one award's worth of score to the user's score in a guild.
pub fn award(user: &mut UserConfig, guild: crate::ids::GuildId)
    requires
        old(user).get_score_spec(guild) <= i64::MAX - AWARD_SCORE,
    ensures
        final(user).user_id == old(user).user_id,
        final(user).scores@ == old(user).scores@.insert(
            score_key(guild),
            (old(user).get_score_spec(guild) + AWARD_SCORE) as i64,
        ),
{
    let score = user.get_score(guild) + AWARD_SCORE;
    user.set_score(guild, score);
}

/// Whether someone may run admin commands: the guild's owner may, and so
/// may anyone holding one of the staff roles.
pub fn admin_check(owner: UserId, author: UserId, staff: &Vec<RoleId>, author_roles: &Vec<RoleId>) -> (allowed: bool)
    ensures
        allowed == (owner == author || exists|i: int, j: int|
            0 <= i < staff@.len() && 0 <= j < author_roles@.len() && #[trigger] staff@[i] == #[trigger] author_roles@[j]),
{
    if owner.0 == author.0 {
        return true;
    }
    let mut i: usize = 0;
    while i < staff.len()
        invariant
            i <= staff@.len(),
            owner != author,
            forall|a: int, b: int| 0 <= a < i && 0 <= b < author_roles@.len() ==> #[trigger] staff@[a] != #[trigger] author_roles@[b],
        decreases staff.len() - i,
    {
        let mut j: usize = 0;
        while j < author_roles.len()
            invariant
                i < staff@.len(),
                j <= author_roles@.len(),
                owner != author,
                forall|a: int, b: int| 0 <= a < i && 0 <= b < author_roles@.len() ==> #[trigger] staff@[a] != #[trigger] author_roles@[b],
                forall|b: int| 0 <= b < j ==> staff@[i as int] != #[trigger] author_roles@[b],
            decreases author_roles.len() - j,
        {
            if staff[i].0 == author_roles[j].0 {
                assert(staff@[i as int] == author_roles@[j as int]);
                return true;
            }
            j = j + 1;
        }
        i = i + 1;
    }
    false
}

/// Milliseconds since the epoch for a time given as seconds and
/// nanoseconds, computed in `usize` as the bot does.
pub fn epoch_millis(sec: i64, nsec: i32) -> (ms: usize)
    requires
        (sec as usize) * 1000 + (nsec as usize) / 1_000_000 <= usize::MAX,
    ensures
        ms == (sec as usize) * 1000 + (nsec as usize) / 1_000_000,
{
    (#[verifier::truncate] (sec as usize)) * 1000usize + (#[verifier::truncate] (nsec as usize)) / 1_000_000usize
}

/// The tag naming the command in command metrics: `command:<name>`.
pub fn command_tag(cmd: &str) -> (tag: String)
    ensures
        tag@ == "command:"@ + cmd@,
{
    crate::text::concat2("command:", cmd)
}

/// When each running command started, in milliseconds, by the id of the
/// message that called it.
pub struct CommandTimers {
    started: HashMap<u64, usize>,
}

impl View for CommandTimers {
    type V = Map<u64, usize>;

    closed spec fn view(&self) -> Map<u64, usize> {
        self.started@
    }
}

impl CommandTimers {
    /// No command is running.
    pub fn new() -> (t: Self)
        ensures
            t@ == Map::<u64, usize>::empty(),
    {
        CommandTimers { started: HashMap::new() }
    }

    /// When the command called by `msg` started.
    pub fn started_at(&self, msg: MessageId) -> (r: Option<usize>)
        ensures
            r == (if self@.contains_key(msg.0) { Some(self@[msg.0]) } else { None }),
    {
        match self.started.get(&msg.0) {
            Some(v) => Some(*v),
            None => None,
        }
    }
}

/// A command that was let run and then finished reports the time between
/// the two, and leaves the timers as they were without its entry.
pub proof fn law_command_timing(m: Map<u64, usize>, msg: u64, start: usize, end: usize)
    requires
        start <= end,
    ensures
        m.insert(msg, start).remove(msg) == m.remove(msg),
        m.insert(msg, start).contains_key(msg),
        end - m.insert(msg, start)[msg] == end - start,
{
    assert(m.insert(msg, start).remove(msg) =~= m.remove(msg));
}

/// Runs before any command: commands outside guilds are refused; otherwise
/// the start time of the command is recorded.
pub fn before(timers: &mut CommandTimers, private: bool, msg: MessageId, now_ms: usize) -> (run: bool)
    ensures
        run == !private,
        private ==> final(timers)@ == old(timers)@,
        !private ==> final(timers)@ == old(timers)@.insert(msg.0, now_ms),
{
    if private {
        return false;
    }
    timers.started.insert(msg.0, now_ms);
    true
}

/// What running a command came to.
pub struct CommandDone {
    /// The metric the run counts towards.
    pub metric: &'static str,
    /// How long the command took in milliseconds, when its start is known.
    pub elapsed: Option<usize>,
}

/// Runs after any command: counts it as an error or an execution, and
/// takes its start time off the timers to report how long it took.
pub fn after(timers: &mut CommandTimers, failed: bool, msg: MessageId, now_ms: usize) -> (done: CommandDone)
    requires
        old(timers)@.contains_key(msg.0) ==> old(timers)@[msg.0] <= now_ms,
    ensures
        done.metric@ == (if failed { "commands.errors"@ } else { "commands.executes"@ }),
        final(timers)@ == old(timers)@.remove(msg.0),
        done.elapsed == (if old(timers)@.contains_key(msg.0) {
            Some((now_ms - old(timers)@[msg.0]) as usize)
        } else {
            None
        }),
{
    let metric = if failed { "commands.errors" } else { "commands.executes" };
    let elapsed = match timers.started.remove(&msg.0) {
        Some(start) => Some(now_ms - start),
        None => None,
    };
    CommandDone { metric, elapsed }
}

} // verus!
