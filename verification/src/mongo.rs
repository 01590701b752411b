//! The documents the bot keeps per guild and per user: a guild's
//! configuration, which its staff can change, and a user's scores in each
//! guild.

use vstd::prelude::*;
use crate::ids::{ChannelId, GuildId, RoleId};
use crate::strmap::StrMap;
use crate::text::{dec_int, i64_to_string};

verus! {

/// The part of a guild configuration that the guild's staff edit.
pub struct Changeable {
    /// The command prefix of the guild.
    pub prefix: Option<String>,
    /// The roles allowed to run admin commands.
    pub staff: Option<Vec<i64>>,
    /// Custom commands: name to reply.
    pub commands: Option<StrMap<String>>,
    /// The channel that log messages go to.
    pub log_channel: Option<i64>,
}

/// A guild's configuration document, keyed by the guild's id.
pub struct GuildConfig {
    pub guild_id: i64,
    pub user: Changeable,
}

impl GuildConfig {
    /// The configuration of a guild that has set nothing.
    pub fn new(id: i64) -> (c: Self)
        ensures
            c.guild_id == id,
            c.user.prefix is None,
            c.user.staff is None,
            c.user.commands is None,
            c.user.log_channel is None,
    {
        GuildConfig {
            guild_id: id,
            user: Changeable { prefix: None, staff: None, commands: None, log_channel: None },
        }
    }

    /// The staff roles, in the order they are configured; none when unset.
    pub fn staff(&self) -> (r: Vec<RoleId>)
        ensures
            match self.user.staff {
                Some(roles) => r@.len() == roles@.len()
                    && forall|i: int| 0 <= i < roles@.len() ==> #[trigger] r@[i] == RoleId(roles@[i] as u64),
                None => r@.len() == 0,
            },
    {
        let mut ret: Vec<RoleId> = Vec::new();
        if let Some(roles) = &self.user.staff {
            let mut i: usize = 0;
            while i < roles.len()
                invariant
                    i <= roles@.len(),
                    ret@.len() == i,
                    forall|j: int| 0 <= j < i ==> #[trigger] ret@[j] == RoleId(roles@[j] as u64),
                decreases roles.len() - i,
            {
                ret.push(RoleId(roles[i] as u64));
                i = i + 1;
            }
        }
        ret
    }

    /// The log channel, when one is configured.
    pub fn log(&self) -> (r: Option<ChannelId>)
        ensures
            r == (match self.user.log_channel {
                Some(v) => Some(ChannelId(v as u64)),
                None => None,
            }),
    {
        match self.user.log_channel {
            Some(v) => Some(ChannelId(v as u64)),
            None => None,
        }
    }
}

/// The key under which a user's score in a guild is stored: the guild id as
/// a signed decimal number.
pub open spec fn score_key(id: GuildId) -> Seq<char> {
    dec_int((id.0 as i64) as int)
}

/// A user's document: the user's id and a score per guild.
pub struct UserConfig {
    pub user_id: i64,
    pub scores: StrMap<i64>,
}

impl UserConfig {
    /// A user with no score anywhere.
    pub fn new(id: i64) -> (u: Self)
        ensures
            u.user_id == id,
            u.scores@ == Map::<Seq<char>, i64>::empty(),
    {
        UserConfig { user_id: id, scores: StrMap::new() }
    }

    /// The user's score in a guild, 0 when there is none.
    pub open spec fn get_score_spec(&self, id: GuildId) -> i64 {
        if self.scores@.contains_key(score_key(id)) {
            self.scores@[score_key(id)]
        } else {
            0
        }
    }

    /// The user's score in a guild, 0 when there is none.
    pub fn get_score(&self, id: GuildId) -> (s: i64)
        ensures
            s == self.get_score_spec(id),
    {
        let key = i64_to_string(id.0 as i64);
        match self.scores.get(&key) {
            Some(v) => *v,
            None => 0,
        }
    }

    /// Sets the user's score in a guild.
    pub fn set_score(&mut self, id: GuildId, score: i64)
        ensures
            final(self).user_id == old(self).user_id,
            final(self).scores@ == old(self).scores@.insert(score_key(id), score),
    {
        let key = i64_to_string(id.0 as i64);
        self.scores.insert(key, score);
    }
}

/// The configuration of a guild as read from the database: the stored one
/// when there is one; otherwise (none stored, or the database failed) a
/// fresh one, which is then to be stored.
pub fn settle_config(found: Option<GuildConfig>, id: i64) -> (r: (GuildConfig, bool))
    ensures
        match found {
            Some(c) => r.0 == c && !r.1,
            None => r.0.guild_id == id && r.0.user.prefix is None && r.0.user.staff is None
                && r.0.user.commands is None && r.0.user.log_channel is None && r.1,
        },
{
    match found {
        Some(c) => (c, false),
        None => (GuildConfig::new(id), true),
    }
}

/// A user as read from the database: the stored document when there is
/// one; otherwise a fresh user without scores, which is then to be stored.
pub fn settle_user(found: Option<UserConfig>, id: i64) -> (r: (UserConfig, bool))
    ensures
        match found {
            Some(u) => r.0 == u && !r.1,
            None => r.0.user_id == id && r.0.scores@ == Map::<Seq<char>, i64>::empty() && r.1,
        },
{
    match found {
        Some(u) => (u, false),
        None => (UserConfig::new(id), true),
    }
}

/// The score set for a guild is the score then read for it.
pub proof fn law_score_read_back(scores: Map<Seq<char>, i64>, guild: GuildId, score: i64)
    ensures
        scores.insert(score_key(guild), score).contains_key(score_key(guild)),
        scores.insert(score_key(guild), score)[score_key(guild)] == score,
{
}

/// Different guilds have different score keys, so setting a score in one
/// guild leaves the score in every other guild as it was.
pub proof fn law_score_per_guild(scores: Map<Seq<char>, i64>, g: GuildId, other: GuildId, score: i64)
    requires
        g.0 != other.0,
    ensures
        scores.insert(score_key(g), score).contains_key(score_key(other)) == scores.contains_key(score_key(other)),
        scores.contains_key(score_key(other)) ==> scores.insert(score_key(g), score)[score_key(other)] == scores[score_key(other)],
{
    let a = g.0;
    let b = other.0;
    assert((a as i64) != (b as i64)) by (bit_vector)
        requires
            a != b,
    ;
    crate::text::lemma_dec_int_injective((g.0 as i64) as int, (other.0 as i64) as int);
}

} // verus!
