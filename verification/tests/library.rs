use tofubot::commands::{self, NewCommand};
use tofubot::dog;
use tofubot::handler::{self, CommandTimers, RankLock, StatsStore};
use tofubot::ids::{ChannelId, GuildId, MessageId, RoleId, UserId};
use tofubot::logging::{self, StoredMessage, UserInfo};
use tofubot::mongo::{GuildConfig, UserConfig};
use tofubot::ranks::{calculate_level, LevelProgress, LEVEL_SCORE_LIMIT};
use tofubot::settings;
use tofubot::strmap::StrMap;
use tofubot::text::{i64_to_string, truncate_bytes, u64_to_string};
use tofubot::urban;
use tofubot::utils::{fmt_difference, Duration};

#[test]
fn decimal_rendering() {
    assert_eq!(u64_to_string(0), "0");
    assert_eq!(u64_to_string(7), "7");
    assert_eq!(u64_to_string(10), "10");
    assert_eq!(u64_to_string(322547556211621898), "322547556211621898");
    assert_eq!(u64_to_string(u64::MAX), u64::MAX.to_string());
    assert_eq!(i64_to_string(-1), "-1");
    assert_eq!(i64_to_string(-90), "-90");
    assert_eq!(i64_to_string(i64::MIN), i64::MIN.to_string());
    assert_eq!(i64_to_string(i64::MAX), i64::MAX.to_string());
}

#[test]
fn fmt_difference_example() {
    // 4h 21m 53s
    assert_eq!(fmt_difference(Duration::seconds(4 * 3600 + 21 * 60 + 53)), "0d 4h 21m 53s");
    assert_eq!(fmt_difference(Duration::seconds(90061)), "1d 1h 1m 1s");
    assert_eq!(fmt_difference(Duration::seconds(0)), "0d 0h 0m 0s");
    assert_eq!(fmt_difference(Duration::seconds(3 * 86400)), "3d 0h 0m 0s");
}

#[test]
fn fmt_difference_negative_keeps_sign() {
    // as time's num_* and Rust's % do: every part has the sign of the span
    assert_eq!(fmt_difference(Duration::seconds(-3700)), "0d -1h -1m -40s");
    assert_eq!(fmt_difference(Duration::seconds(-90061)), "-1d -1h -1m -1s");
}

#[test]
fn duration_parts() {
    let d = Duration::seconds(-3599);
    assert_eq!(d.num_seconds(), -3599);
    assert_eq!(d.num_minutes(), -59);
    assert_eq!(d.num_hours(), 0);
    assert_eq!(d.num_days(), 0);
}

#[test]
fn levels() {
    assert_eq!(calculate_level(0), LevelProgress { level: 0, gained: 0, needed: 1 });
    assert_eq!(calculate_level(-5), LevelProgress { level: 0, gained: 0, needed: 1 });
    assert_eq!(calculate_level(8), LevelProgress { level: 0, gained: 8, needed: 9 });
    assert_eq!(calculate_level(9), LevelProgress { level: 1, gained: 0, needed: 27 });
    assert_eq!(calculate_level(100), LevelProgress { level: 3, gained: 19, needed: 63 });
    assert_eq!(calculate_level(35), LevelProgress { level: 1, gained: 26, needed: 27 });
    assert_eq!(calculate_level(36), LevelProgress { level: 2, gained: 0, needed: 45 });
}

#[test]
fn levels_match_square_root_over_three() {
    for score in 1i64..5000 {
        let l = calculate_level(score);
        let expected = ((score as f64).sqrt() / 3f64).floor() as i64;
        assert_eq!(l.level, expected, "score {}", score);
        let progress = l.gained as f64 / l.needed as f64;
        assert!(progress >= 0.0 && progress < 1.0);
    }
}

#[test]
fn levels_near_the_limit() {
    let l = calculate_level(LEVEL_SCORE_LIMIT - 1);
    assert_eq!(l.level, 1012333498);
    assert_eq!(l.needed, 9 * (2 * 1012333498 + 1));
}

#[test]
fn score_award_every_two_minutes() {
    let mut lock = RankLock::new();
    let u = UserId(42);
    assert!(lock.try_award(u, 1000));
    assert!(!lock.try_award(u, 1100));
    assert!(!lock.try_award(u, 1120));
    assert!(lock.try_award(u, 1121));
    // another user is not held back
    assert!(lock.try_award(UserId(7), 1122));
    // a new user too early after the epoch earns nothing
    let mut early = RankLock::new();
    assert!(!early.try_award(u, 120));
    assert!(early.try_award(u, 121));
}

#[test]
fn awards_over_a_run_are_spaced() {
    let mut lock = RankLock::new();
    let events: Vec<(u64, u64)> = vec![
        (1, 130), (2, 131), (1, 200), (1, 250), (2, 252), (1, 251), (2, 400), (1, 380), (1, 500),
    ];
    let mut awards: Vec<(u64, u64)> = Vec::new();
    for (user, now) in events {
        if lock.try_award(UserId(user), now) {
            awards.push((user, now));
        }
    }
    assert_eq!(awards, vec![(1, 130), (2, 131), (2, 252), (1, 251), (2, 400), (1, 380)]);
    for a in 0..awards.len() {
        for b in (a + 1)..awards.len() {
            if awards[a].0 == awards[b].0 {
                assert!(awards[b].1 > awards[a].1 + 120);
            }
        }
    }
}

#[test]
fn message_plan() {
    let mut stats = StatsStore::new();
    let mut lock = RankLock::new();
    let p = handler::message(&mut stats, &mut lock, true, true, UserId(1), 500);
    assert_eq!(p.metric, "messages.sent");
    assert!(!p.counted && !p.award);
    assert_eq!(stats.messages, 0);
    let p = handler::message(&mut stats, &mut lock, false, false, UserId(1), 500);
    assert_eq!(p.metric, "messages.received");
    assert!(p.counted && p.award);
    assert_eq!(stats.messages, 1);
    let p = handler::message(&mut stats, &mut lock, false, false, UserId(1), 560);
    assert!(p.counted && !p.award);
    assert_eq!(stats.messages, 2);
}

#[test]
fn scores_per_guild() {
    let mut user = UserConfig::new(99);
    let g = GuildId(322547556211621898);
    assert_eq!(user.get_score(g), 0);
    handler::award(&mut user, g);
    handler::award(&mut user, g);
    assert_eq!(user.get_score(g), 10);
    user.set_score(GuildId(1), 3);
    assert_eq!(user.get_score(g), 10);
    assert_eq!(user.get_score(GuildId(1)), 3);
    // stored under the guild id in decimal
    assert_eq!(user.scores.get(&"322547556211621898".to_string()), Some(&10));
    // ids above i64::MAX are stored as the signed value
    user.set_score(GuildId(u64::MAX), 4);
    assert_eq!(user.scores.get(&"-1".to_string()), Some(&4));
    assert_eq!(user.user_id, 99);
}

#[test]
fn guild_config() {
    let mut c = GuildConfig::new(5);
    assert_eq!(c.guild_id, 5);
    assert!(c.staff().is_empty());
    assert_eq!(c.log(), None);
    c.user.staff = Some(vec![322547556211621898, 287058382093287437, -1]);
    c.user.log_channel = Some(10221619660849152);
    assert_eq!(
        c.staff(),
        vec![RoleId(322547556211621898), RoleId(287058382093287437), RoleId(u64::MAX)]
    );
    assert_eq!(c.log(), Some(ChannelId(10221619660849152)));
}

#[test]
fn admin_check_owner_or_staff() {
    let staff = vec![RoleId(1), RoleId(2)];
    assert!(handler::admin_check(UserId(5), UserId(5), &vec![], &vec![]));
    assert!(handler::admin_check(UserId(5), UserId(6), &staff, &vec![RoleId(9), RoleId(2)]));
    assert!(!handler::admin_check(UserId(5), UserId(6), &staff, &vec![RoleId(9)]));
    assert!(!handler::admin_check(UserId(5), UserId(6), &vec![], &vec![RoleId(1)]));
}

#[test]
fn command_timing() {
    let mut t = CommandTimers::new();
    assert!(!handler::before(&mut t, true, MessageId(3), 100));
    assert_eq!(t.started_at(MessageId(3)), None);
    assert!(handler::before(&mut t, false, MessageId(3), 100));
    assert_eq!(t.started_at(MessageId(3)), Some(100));
    let done = handler::after(&mut t, false, MessageId(3), 350);
    assert_eq!(done.metric, "commands.executes");
    assert_eq!(done.elapsed, Some(250));
    assert_eq!(t.started_at(MessageId(3)), None);
    let done = handler::after(&mut t, true, MessageId(3), 400);
    assert_eq!(done.metric, "commands.errors");
    assert_eq!(done.elapsed, None);
    assert_eq!(handler::epoch_millis(1_500_000_000, 123_456_789), 1_500_000_000_123);
    assert_eq!(handler::command_tag("urban"), "command:urban");
}

#[test]
fn custom_commands() {
    let mut cmds: StrMap<String> = StrMap::new();
    assert_eq!(commands::new(&mut cmds, "!Tunes", ""), NewCommand::NoContent);
    assert_eq!(cmds.len(), 0);
    assert_eq!(commands::new(&mut cmds, "!Tunes", "https://youtu.be/XfR9iY5y94s"), NewCommand::Added);
    assert_eq!(commands::new(&mut cmds, "!TUNES", "other"), NewCommand::Exists);
    assert_eq!(commands::reply(&cmds, "!tunes"), Some("https://youtu.be/XfR9iY5y94s".to_string()));
    assert_eq!(commands::reply(&cmds, "!TuNeS"), Some("https://youtu.be/XfR9iY5y94s".to_string()));
    assert_eq!(commands::reply(&cmds, "!tunes please"), None);
    assert_eq!(cmds.keys(), vec!["!tunes".to_string()]);
    assert!(!commands::delete(&mut cmds, "!nothing"));
    assert!(commands::delete(&mut cmds, "!TUNES"));
    assert_eq!(commands::reply(&cmds, "!tunes"), None);
    assert_eq!(cmds.len(), 0);
}

#[test]
fn custom_commands_unicode_lowercase() {
    let mut cmds: StrMap<String> = StrMap::new();
    assert_eq!(commands::new(&mut cmds, "ÄÖ", "x"), NewCommand::Added);
    assert_eq!(commands::reply(&cmds, "äö"), Some("x".to_string()));
}

#[test]
fn command_list_pages() {
    let mut cmds: StrMap<String> = StrMap::new();
    let empty = commands::list(&cmds, 1);
    assert_eq!((empty.page, empty.pages, empty.text.as_str()), (1, 1, ""));
    commands::new(&mut cmds, "a", "1");
    commands::new(&mut cmds, "b", "2");
    let l = commands::list(&cmds, 0);
    assert_eq!((l.page, l.pages), (1, 1));
    assert_eq!(l.text, "a\nb\n");
    // a name that would reach 2000 bytes on the page starts the next one
    let long = "x".repeat(1996);
    commands::new(&mut cmds, &long, "3");
    let l = commands::list(&cmds, 2);
    assert_eq!((l.page, l.pages), (2, 2));
    assert_eq!(l.text, format!("{}\n", long));
    let l = commands::list(&cmds, 99);
    assert_eq!(l.page, 2);
    let l = commands::list(&cmds, 1);
    assert_eq!(l.text, "a\nb\n");
}

#[test]
fn command_list_first_page_empty_for_huge_name() {
    let mut cmds: StrMap<String> = StrMap::new();
    let huge = "y".repeat(2000);
    commands::new(&mut cmds, &huge, "z");
    let l = commands::list(&cmds, 1);
    assert_eq!((l.page, l.pages, l.text.as_str()), (1, 2, ""));
    let l = commands::list(&cmds, 2);
    assert_eq!(l.text, format!("{}\n", huge));
}

#[test]
fn strmap_basics() {
    let mut m: StrMap<i64> = StrMap::new();
    assert_eq!(m.insert("a".to_string(), 1), None);
    assert_eq!(m.insert("b".to_string(), 2), None);
    assert_eq!(m.insert("a".to_string(), 3), Some(1));
    assert_eq!(m.keys(), vec!["a".to_string(), "b".to_string()]);
    assert_eq!(m.get(&"a".to_string()), Some(&3));
    assert!(m.contains_key(&"b".to_string()));
    assert_eq!(m.remove(&"a".to_string()), Some(3));
    assert_eq!(m.remove(&"a".to_string()), None);
    assert_eq!(m.keys(), vec!["b".to_string()]);
    assert_eq!(m.len(), 1);
}

fn noxim() -> UserInfo {
    UserInfo { name: "noxim".to_string(), discriminator: 6410, id: UserId(287058382093287437) }
}

#[test]
fn user_events() {
    let e = logging::banned(GuildId(10), &noxim());
    assert_eq!(e.metric, "users.banned");
    assert_eq!(e.tags, vec!["guild:10".to_string(), "user:287058382093287437".to_string()]);
    assert_eq!(e.embed.title, "User banned");
    assert_eq!(e.embed.description, "Name: **noxim#6410**\nSnow: **287058382093287437**");
    assert!(e.embed.fields.is_empty());
    let e = logging::unbanned(GuildId(10), &noxim());
    assert_eq!((e.metric, e.embed.title), ("users.unbanned", "User unbanned"));
    let e = logging::user_join(GuildId(10), &noxim());
    assert_eq!((e.metric, e.embed.title), ("users.joins", "User joined"));
    let e = logging::user_leave(GuildId(10), &noxim());
    assert_eq!((e.metric, e.embed.title), ("users.leaves", "User left"));
    let short = UserInfo { name: "a".to_string(), discriminator: 42, id: UserId(1) };
    assert_eq!(logging::user_leave(GuildId(0), &short).embed.description, "Name: **a#42**\nSnow: **1**");
}

#[test]
fn deleted_message_known() {
    let stored = Some(StoredMessage { content: "hello".to_string(), author: Some(noxim()) });
    let e = logging::message_delete(ChannelId(55), MessageId(66), &stored, &Some("general".to_string()));
    assert_eq!(e.title, "Message deleted");
    assert_eq!(e.description, "hello");
    assert_eq!(e.fields.len(), 2);
    assert_eq!(e.fields[0].name, "User");
    assert_eq!(e.fields[0].value, "Name: **noxim#6410**\nSnow: **287058382093287437**");
    assert_eq!(e.fields[1].name, "Message");
    assert_eq!(e.fields[1].value, "Snow: **55**\nChannel: **general**");
}

#[test]
fn deleted_message_unknown() {
    let stored = Some(StoredMessage { content: "hi".to_string(), author: None });
    let e = logging::message_delete(ChannelId(55), MessageId(66), &stored, &None);
    assert_eq!(e.fields[0].value, "Name: **<unknown>#<unknown>**\nSnow: **<unknown>**");
    assert_eq!(e.fields[1].value, "Snow: **55**\nChannel: **<unknown>**");
    let e = logging::message_delete(ChannelId(55), MessageId(66), &None, &Some("general".to_string()));
    assert_eq!(
        e.description,
        "A message was deleted but unfortunately TofuBot does not know what it was. Sorry about that!"
    );
    assert_eq!(e.fields.len(), 1);
    assert_eq!(e.fields[0].name, "Info");
    assert_eq!(e.fields[0].value, "Snow: **66**\nChannel: **general**");
}

#[test]
fn edited_message() {
    let stored = Some(StoredMessage { content: "old".to_string(), author: Some(noxim()) });
    assert!(logging::message_edit(ChannelId(1), MessageId(2), &None, &stored, &None).is_none());
    let e = logging::message_edit(ChannelId(1), MessageId(2), &Some("new".to_string()), &stored, &None).unwrap();
    assert_eq!(e.title, "Message edited");
    assert_eq!(e.description, "**Old content**\nold\n**New content**\nnew");
    assert_eq!(e.fields[1].value, "Snow: **1**\nChannel: **<unknown>**");
    let e = logging::message_edit(ChannelId(1), MessageId(2), &Some("new".to_string()), &None, &None).unwrap();
    assert_eq!(
        e.description,
        "A message was edited but unfortunately TofuBot does not know what it originally was. Sorry about that!\n**New content**\nnew"
    );
    assert_eq!(e.fields[0].name, "Info");
    assert_eq!(e.fields[0].value, "Snow: **2**\nChannel: **<unknown>**");
}

#[test]
fn settings_preview() {
    assert_eq!(settings::escape("prefix = \"`\""), "prefix = \"\\`\"");
    assert_eq!(settings::preview("prefix = \"+\""), "prefix = \"+\"");
    let long = "a".repeat(1600);
    let p = settings::preview(&long);
    assert_eq!(p, format!("{}\n<preview clipped>", "a".repeat(1500)));
    // escaping counts towards the limit
    let ticks = "`".repeat(750);
    assert_eq!(settings::preview(&ticks), "\\`".repeat(750));
    let ticks = "`".repeat(751);
    assert_eq!(settings::preview(&ticks), format!("{}\n<preview clipped>", "\\`".repeat(750)));
}

#[test]
fn urban_texts() {
    assert_eq!(urban::example_text(""), "<none>");
    assert_eq!(urban::example_text("bodge it"), "bodge it");
    assert_eq!(urban::definition_text("short"), "short");
    assert_eq!(urban::definition_text(&"d".repeat(1801)), "d".repeat(1800));
    assert_eq!(urban::definition_title("bodge"), "Definition of bodge");
    assert_eq!(urban::not_found_title("qwe"), "Could not find \"qwe\"");
    assert_eq!(truncate_bytes("héllo", 3), "hé");
}

#[test]
fn metric_tags() {
    let tags = dog::vec("release", vec!["command:urban".to_string()]);
    assert_eq!(tags, vec!["tofubot".to_string(), "profile:release".to_string(), "command:urban".to_string()]);
    assert_eq!(dog::vec("debug", vec![]), vec!["tofubot".to_string(), "profile:debug".to_string()]);
}

#[test]
fn metric_errors() {
    let ok: Result<(), dogstatsd::DogstatsdError> = Ok(());
    assert!(dog::sent(ok).is_ok());
    let err = dogstatsd::DogstatsdError::from(std::io::Error::new(std::io::ErrorKind::Other, "oh no!"));
    let e = dog::sent(Err(err)).err().unwrap();
    assert_eq!(e.reason, "oh no!");
}

#[test]
fn metrics_go_through_a_client() {
    let opts = dogstatsd::Options::new("127.0.0.1:0", "127.0.0.1:8125", "");
    if let Ok(client) = dogstatsd::Client::new(opts) {
        let d = dog::Dog::new(client, "debug".to_string());
        // sending over UDP to a local port succeeds or reports an error; it never panics
        let _ = dog::incr(&d, "tests.incr", vec![]);
        let _ = dog::decr(&d, "tests.decr", vec![]);
        let _ = dog::set(&d, "tests.gauge", -12, vec![]);
        let _ = dog::timing(&d, "tests.timing", 5, vec![]);
        let _ = dog::event(&d, "title", "text", vec![]);
        let mut ran = false;
        let _ = dog::time(&d, "tests.time", vec![], || { ran = true; });
        assert!(ran);
    }
}
