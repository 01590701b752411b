//! The messages the bot posts to a guild's log channel when users are
//! banned, unbanned, join or leave, and when messages are deleted or edited.

use vstd::prelude::*;
use crate::ids::{ChannelId, GuildId, MessageId, UserId};
use crate::text::{concat2, dec_nat, u64_to_string};

verus! {

/// What the bot knows of a user.
pub struct UserInfo {
    pub name: String,
    pub discriminator: u16,
    pub id: UserId,
}

/// A titled field of a log message.
pub struct EmbedField {
    pub name: &'static str,
    pub value: String,
}

/// A log message: its title, text and fields.
pub struct LogEmbed {
    pub title: &'static str,
    pub description: String,
    pub fields: Vec<EmbedField>,
}

/// A user event: the metric it counts towards with its tags, and what is
/// posted to the log channel.
pub struct UserEvent {
    pub metric: &'static str,
    pub tags: Vec<String>,
    pub embed: LogEmbed,
}

/// `Name: **<name>#<discriminator>**` and `Snow: **<id>**` on two lines.
pub open spec fn card(name: Seq<char>, discriminator: Seq<char>, id: Seq<char>) -> Seq<char> {
    "Name: **"@ + name + "#"@ + discriminator + "**\nSnow: **"@ + id + "**"@
}

/// The card of a known user.
pub open spec fn user_card(u: UserInfo) -> Seq<char> {
    card(u.name@, dec_nat(u.discriminator as nat), dec_nat(u.id.0 as nat))
}

/// The card of a user that may be unknown; every part of an unknown user
/// reads `<unknown>`.
pub open spec fn author_card(u: Option<UserInfo>) -> Seq<char> {
    match u {
        Some(u) => user_card(u),
        None => card("<unknown>"@, "<unknown>"@, "<unknown>"@),
    }
}

/// `Snow: **<id>**` and `Channel: **<channel name>**` on two lines; an
/// unknown channel reads `<unknown>`.
pub open spec fn place(id: u64, channel_name: Option<String>) -> Seq<char> {
    "Snow: **"@ + dec_nat(id as nat) + "**\nChannel: **"@
        + (match channel_name { Some(n) => n@, None => "<unknown>"@ }) + "**"@
}

fn build_card(name: &str, discriminator: &str, id: &str) -> (s: String)
    ensures
        s@ == card(name@, discriminator@, id@),
{
    let mut s = concat2("Name: **", name);
    s.append("#");
    s.append(discriminator);
    s.append("**\nSnow: **");
    s.append(id);
    s.append("**");
    s
}

fn build_user_card(u: &UserInfo) -> (s: String)
    ensures
        s@ == user_card(*u),
{
    let d = u64_to_string(u.discriminator as u64);
    let i = u64_to_string(u.id.0);
    build_card(u.name.as_str(), d.as_str(), i.as_str())
}

fn build_author_card(u: &Option<UserInfo>) -> (s: String)
    ensures
        s@ == author_card(*u),
{
    match u {
        Some(u) => build_user_card(u),
        None => build_card("<unknown>", "<unknown>", "<unknown>"),
    }
}

fn build_place(id: u64, channel_name: &Option<String>) -> (s: String)
    ensures
        s@ == place(id, *channel_name),
{
    let mut s = concat2("Snow: **", u64_to_string(id).as_str());
    s.append("**\nChannel: **");
    match channel_name {
        Some(n) => s.append(n.as_str()),
        None => s.append("<unknown>"),
    }
    s.append("**");
    s
}

/// The tags `guild:<guild id>` and `user:<user id>` of a user event.
pub open spec fn user_event_tags(guild: GuildId, user: UserId) -> Seq<Seq<char>> {
    seq!["guild:"@ + dec_nat(guild.0 as nat), "user:"@ + dec_nat(user.0 as nat)]
}

fn user_event(metric: &'static str, title: &'static str, guild: GuildId, user: &UserInfo) -> (e: UserEvent)
    ensures
        e.metric == metric,
        e.tags@.map_values(|s: String| s@) == user_event_tags(guild, user.id),
        e.embed.title == title,
        e.embed.description@ == user_card(*user),
        e.embed.fields@.len() == 0,
{
    let mut tags: Vec<String> = Vec::new();
    tags.push(concat2("guild:", u64_to_string(guild.0).as_str()));
    tags.push(concat2("user:", u64_to_string(user.id.0).as_str()));
    assert(tags@.map_values(|s: String| s@) =~= user_event_tags(guild, user.id));
    UserEvent {
        metric,
        tags,
        embed: LogEmbed { title, description: build_user_card(user), fields: Vec::new() },
    }
}

/// A user was banned from a guild.
pub fn banned(guild: GuildId, user: &UserInfo) -> (e: UserEvent)
    ensures
        e.metric@ == "users.banned"@,
        e.tags@.map_values(|s: String| s@) == user_event_tags(guild, user.id),
        e.embed.title@ == "User banned"@,
        e.embed.description@ == user_card(*user),
        e.embed.fields@.len() == 0,
{
    user_event("users.banned", "User banned", guild, user)
}

/// A user was unbanned from a guild.
pub fn unbanned(guild: GuildId, user: &UserInfo) -> (e: UserEvent)
    ensures
        e.metric@ == "users.unbanned"@,
        e.tags@.map_values(|s: String| s@) == user_event_tags(guild, user.id),
        e.embed.title@ == "User unbanned"@,
        e.embed.description@ == user_card(*user),
        e.embed.fields@.len() == 0,
{
    user_event("users.unbanned", "User unbanned", guild, user)
}

/// A user joined a guild.
pub fn user_join(guild: GuildId, user: &UserInfo) -> (e: UserEvent)
    ensures
        e.metric@ == "users.joins"@,
        e.tags@.map_values(|s: String| s@) == user_event_tags(guild, user.id),
        e.embed.title@ == "User joined"@,
        e.embed.description@ == user_card(*user),
        e.embed.fields@.len() == 0,
{
    user_event("users.joins", "User joined", guild, user)
}

/// A user left a guild.
pub fn user_leave(guild: GuildId, user: &UserInfo) -> (e: UserEvent)
    ensures
        e.metric@ == "users.leaves"@,
        e.tags@.map_values(|s: String| s@) == user_event_tags(guild, user.id),
        e.embed.title@ == "User left"@,
        e.embed.description@ == user_card(*user),
        e.embed.fields@.len() == 0,
{
    user_event("users.leaves", "User left", guild, user)
}

/// A message that the bot had stored: its text and what became of looking
/// up its author.
pub struct StoredMessage {
    pub content: String,
    pub author: Option<UserInfo>,
}

/// The text posted for a deleted message the bot had not stored.
pub open spec fn unknown_deleted_text() -> Seq<char> {
    "A message was deleted but unfortunately TofuBot does not know what it was. Sorry about that!"@
}

/// The log message for a deleted message: its stored text with its author
/// and place when the bot has it, an apology with the message id otherwise.
pub fn message_delete(channel: ChannelId, msg: MessageId, stored: &Option<StoredMessage>, channel_name: &Option<String>) -> (e: LogEmbed)
    ensures
        e.title@ == "Message deleted"@,
        match *stored {
            Some(old) => e.description@ == old.content@ && e.fields@.len() == 2
                && e.fields@[0].name@ == "User"@ && e.fields@[0].value@ == author_card(old.author)
                && e.fields@[1].name@ == "Message"@ && e.fields@[1].value@ == place(channel.0, *channel_name),
            None => e.description@ == unknown_deleted_text() && e.fields@.len() == 1
                && e.fields@[0].name@ == "Info"@ && e.fields@[0].value@ == place(msg.0, *channel_name),
        },
{
    let mut fields: Vec<EmbedField> = Vec::new();
    match stored {
        Some(old) => {
            fields.push(EmbedField { name: "User", value: build_author_card(&old.author) });
            fields.push(EmbedField { name: "Message", value: build_place(channel.0, channel_name) });
            LogEmbed { title: "Message deleted", description: old.content.clone(), fields }
        },
        None => {
            fields.push(EmbedField { name: "Info", value: build_place(msg.0, channel_name) });
            LogEmbed {
                title: "Message deleted",
                description: String::from_str(
                    "A message was deleted but unfortunately TofuBot does not know what it was. Sorry about that!",
                ),
                fields,
            }
        },
    }
}

/// The text posted for an edited message: old and new text when the bot
/// had stored the message, an apology and the new text otherwise.
pub open spec fn edited_text(old: Option<Seq<char>>, new: Seq<char>) -> Seq<char> {
    match old {
        Some(o) => "**Old content**\n"@ + o + "\n**New content**\n"@ + new,
        None => "A message was edited but unfortunately TofuBot does not know what it originally was. Sorry about that!\n**New content**\n"@ + new,
    }
}

/// The log message for an edited message; none when the edit carries no
/// new text.
pub fn message_edit(channel: ChannelId, msg: MessageId, new: &Option<String>, stored: &Option<StoredMessage>, channel_name: &Option<String>) -> (r: Option<LogEmbed>)
    ensures
        new is None ==> r is None,
        new is Some ==> r is Some && r->0.title@ == "Message edited"@,
        new is Some ==> match *stored {
            Some(old) => r->0.description@ == edited_text(Some(old.content@), new->0@) && r->0.fields@.len() == 2
                && r->0.fields@[0].name@ == "User"@ && r->0.fields@[0].value@ == author_card(old.author)
                && r->0.fields@[1].name@ == "Message"@ && r->0.fields@[1].value@ == place(channel.0, *channel_name),
            None => r->0.description@ == edited_text(None, new->0@) && r->0.fields@.len() == 1
                && r->0.fields@[0].name@ == "Info"@ && r->0.fields@[0].value@ == place(msg.0, *channel_name),
        },
{
    let new = match new {
        Some(n) => n,
        None => { return None; },
    };
    let mut fields: Vec<EmbedField> = Vec::new();
    match stored {
        Some(old) => {
            fields.push(EmbedField { name: "User", value: build_author_card(&old.author) });
            fields.push(EmbedField { name: "Message", value: build_place(channel.0, channel_name) });
            let mut d = concat2("**Old content**\n", old.content.as_str());
            d.append("\n**New content**\n");
            d.append(new.as_str());
            Some(LogEmbed { title: "Message edited", description: d, fields })
        },
        None => {
            fields.push(EmbedField { name: "Info", value: build_place(msg.0, channel_name) });
            let d = concat2(
                "A message was edited but unfortunately TofuBot does not know what it originally was. Sorry about that!\n**New content**\n",
                new.as_str(),
            );
            Some(LogEmbed { title: "Message edited", description: d, fields })
        },
    }
}

} // verus!
