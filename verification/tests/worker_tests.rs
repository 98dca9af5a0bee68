use feed_relay::commands::{
    channel_ref, check_rights, linked_user, purge_administrators, purge_target, Administrator,
    ChannelRef, LinkChannelError, PurgeError,
};
use feed_relay::entity::post_media::MediaType;
use feed_relay::entity::{author, post, post_media, scheduled_post, telegram_user};
use feed_relay::models::twitterclient::{
    TwitterError, TwitterMedia, TwitterRawTweet, TwitterTimelineIncludes, TwitterTimelineUser,
    TwitterTweet, TwitterUser, TwitterUserTimeline,
};
use feed_relay::entity::follow;
use feed_relay::routes::author::{
    author_key, author_key_from_id, check_add_author, lookup_author, may_add_authors,
    AddAuthorError, AuthorKey,
};
use feed_relay::routes::feed::{
    create_scheduled_post, media_ids_for, read_under, subscribe, unsubscribe, FeedError,
    ScheduleError, MAX_EXCLUDED_MEDIA,
};
use feed_relay::store::{has_id, Store, StoreError};
use feed_relay::workers::PASS_DELAY_SECS;
use feed_relay::workers::posting::{
    escape_html, plan_delivery, plan_jobs, render_message, Delivery, Pass, Reaction, SendOutcome,
};
use feed_relay::workers::twitter::{
    ingest_author, post_from_tweet, posts_from_timeline, posts_to_store, source_url, IngestError,
    NewMedia, NewPost,
};

fn entry(id: i64, user_id: i64, media_ids: &str) -> scheduled_post::Model {
    scheduled_post::Model {
        id,
        user_id,
        media_ids: media_ids.to_string(),
        post_text: "rain & <sun>".to_string(),
        post_source: "Rain <Cat>".to_string(),
        post_source_url: "https://twitter.com/raincat/status/30".to_string(),
    }
}

fn user(id: i64, channel: Option<i64>) -> telegram_user::Model {
    telegram_user::Model { id, channel, power_level: 0, last_feed_id: 0 }
}

fn media_row(id: i64, post_id: i64, kind: MediaType, url: &str) -> post_media::Model {
    post_media::Model { id, post_id, media_type: kind, media_url: url.to_string() }
}

fn profile(id: i64, name: &str, username: &str, avatar: Option<&str>) -> TwitterUser {
    TwitterUser {
        id,
        name: name.to_string(),
        username: username.to_string(),
        profile_image_url: avatar.map(|a| a.to_string()),
    }
}

fn tweet(id: i64, text: &str, media: Vec<TwitterMedia>) -> TwitterTweet {
    TwitterTweet {
        id,
        author_id: 77,
        author_name: "Rain Cat".to_string(),
        author_username: "raincat".to_string(),
        text: text.to_string(),
        media,
    }
}

fn raw(id: &str, text: &str) -> TwitterRawTweet {
    TwitterRawTweet { id: id.to_string(), text: text.to_string(), attachments: None }
}

fn answer(data: Vec<TwitterRawTweet>, user_id: &str) -> TwitterUserTimeline {
    TwitterUserTimeline {
        data,
        includes: TwitterTimelineIncludes {
            media: vec![],
            users: vec![TwitterTimelineUser {
                id: user_id.to_string(),
                name: "Rain Cat".to_string(),
                username: "raincat".to_string(),
            }],
        },
    }
}

const RENDERED: &str = "rain &amp; &lt;sun&gt;\n\n<b><a href=\"https://twitter.com/raincat/status/30\">Rain &lt;Cat&gt;</a></b>";

#[test]
fn escape_html_replaces_the_reserved_characters() {
    assert_eq!(escape_html("<a & b>"), "&lt;a &amp; b&gt;");
    assert_eq!(escape_html("plain"), "plain");
    assert_eq!(escape_html(""), "");
    assert_eq!(escape_html("&amp;"), "&amp;amp;");
    assert_eq!(escape_html("\"quoted\" 'text'"), "\"quoted\" 'text'");
    assert_eq!(escape_html("дождь > ёж"), "дождь &gt; ёж");
}

#[test]
fn render_message_wraps_the_source_in_a_bold_link() {
    assert_eq!(render_message(&entry(1, 2, "")), RENDERED);
}

#[test]
fn entries_without_destination_make_no_job() {
    let entries = vec![
        (entry(1, 10, ""), None),
        (entry(2, 11, "5,9"), Some(user(11, None))),
        (entry(3, 12, "5,x,9"), Some(user(12, Some(-100500)))),
        (entry(4, 13, ""), Some(user(13, Some(42)))),
    ];
    let jobs = plan_jobs(&entries);
    assert_eq!(jobs.len(), 2);
    assert_eq!(jobs[0].entry_id, 3);
    assert_eq!(jobs[0].chat_id, -100500);
    assert_eq!(jobs[0].media_ids, vec![5, 9]);
    assert_eq!(jobs[0].text, RENDERED);
    assert_eq!(jobs[1].entry_id, 4);
    assert_eq!(jobs[1].chat_id, 42);
    assert!(jobs[1].media_ids.is_empty());
}

#[test]
fn a_job_without_media_is_one_message() {
    let jobs = plan_jobs(&vec![(entry(4, 13, ""), Some(user(13, Some(42))))]);
    let table = vec![media_row(5, 1, MediaType::Photo, "https://img/5.jpg")];
    match plan_delivery(&jobs[0], &table) {
        Delivery::Message(text) => assert_eq!(text, RENDERED),
        other => panic!("unexpected {:?}", other),
    }
}

#[test]
fn a_job_with_media_is_a_group_with_the_caption_on_the_first() {
    let jobs = plan_jobs(&vec![(entry(3, 12, "9,5"), Some(user(12, Some(42))))]);
    let table = vec![
        media_row(5, 1, MediaType::Photo, "https://img/5.jpg"),
        media_row(7, 1, MediaType::Photo, "https://img/7.jpg"),
        media_row(9, 1, MediaType::Video, "https://vid/9.mp4"),
    ];
    match plan_delivery(&jobs[0], &table) {
        Delivery::MediaGroup(items) => {
            assert_eq!(items.len(), 2);
            assert_eq!(items[0].kind, MediaType::Photo);
            assert_eq!(items[0].url, "https://img/5.jpg");
            assert_eq!(items[0].caption, Some(RENDERED.to_string()));
            assert!(items[0].html);
            assert_eq!(items[1].kind, MediaType::Video);
            assert_eq!(items[1].url, "https://vid/9.mp4");
            assert_eq!(items[1].caption, None);
            assert!(!items[1].html);
        }
        other => panic!("unexpected {:?}", other),
    }
}

#[test]
fn a_job_whose_media_are_gone_is_one_message() {
    let jobs = plan_jobs(&vec![(entry(3, 12, "5,9"), Some(user(12, Some(42))))]);
    assert_eq!(jobs[0].media_ids, vec![5, 9]);
    match plan_delivery(&jobs[0], &vec![]) {
        Delivery::Message(text) => assert_eq!(text, RENDERED),
        other => panic!("unexpected {:?}", other),
    }
    let others = vec![
        media_row(6, 1, MediaType::Photo, "https://img/6.jpg"),
        media_row(7, 1, MediaType::Video, "https://vid/7.mp4"),
    ];
    match plan_delivery(&jobs[0], &others) {
        Delivery::Message(text) => assert_eq!(text, RENDERED),
        other => panic!("unexpected {:?}", other),
    }
}

#[test]
fn an_entry_whose_media_are_gone_is_sent_as_text_and_removed() {
    let mut store = Store::new();
    store.scheduled.push(entry(1, 13, "5,9"));
    store.scheduled_seq = 1;
    let joined = vec![(store.scheduled[0].clone(), Some(user(13, Some(42))))];
    let mut pass = Pass::start(&joined);
    let mut messages = 0;
    let mut groups = 0;
    while let Some(job) = pass.current() {
        let rows = store.media_by_ids(&job.media_ids);
        match plan_delivery(job, &rows) {
            Delivery::Message(text) => {
                assert_eq!(text, RENDERED);
                messages += 1;
            }
            Delivery::MediaGroup(_) => groups += 1,
        }
        pass.settle(SendOutcome::Sent);
    }
    assert_eq!((messages, groups), (1, 0));
    store.remove_scheduled(&pass.removals());
    assert!(store.scheduled.is_empty());
}

fn publish_one(outcome: SendOutcome) -> (usize, Reaction, Store) {
    let mut store = Store::new();
    store.scheduled.push(entry(1, 13, ""));
    store.scheduled_seq = 1;
    let joined = vec![(store.scheduled[0].clone(), Some(user(13, Some(42))))];
    let mut pass = Pass::start(&joined);
    let mut messages = 0;
    let mut reaction = Reaction::Continue;
    while let Some(job) = pass.current() {
        if let Delivery::Message(text) = plan_delivery(job, &store.media) {
            assert_eq!(text, RENDERED);
            messages += 1;
        }
        reaction = pass.settle(outcome);
    }
    let ids = pass.removals();
    assert_eq!(ids, vec![1]);
    store.remove_scheduled(&ids);
    (messages, reaction, store)
}

#[test]
fn a_text_entry_is_sent_once_and_removed_after_success() {
    let (messages, reaction, store) = publish_one(SendOutcome::Sent);
    assert_eq!(messages, 1);
    assert_eq!(reaction, Reaction::Continue);
    assert!(store.scheduled.is_empty());
}

#[test]
fn a_text_entry_is_sent_once_and_removed_after_failure() {
    let (messages, reaction, store) = publish_one(SendOutcome::Failed);
    assert_eq!(messages, 1);
    assert_eq!(reaction, Reaction::Report);
    assert!(store.scheduled.is_empty());
}

#[test]
fn a_rate_limit_pauses_and_still_removes() {
    let (messages, reaction, store) = publish_one(SendOutcome::RetryAfter(17));
    assert_eq!(messages, 1);
    assert_eq!(reaction, Reaction::Pause(17));
    assert!(store.scheduled.is_empty());
}

#[test]
fn removal_keeps_the_unmarked_entries_in_order() {
    let mut store = Store::new();
    for id in 1..=5 {
        store.scheduled.push(entry(id, 13, ""));
    }
    store.scheduled_seq = 5;
    store.remove_scheduled(&vec![4, 2, 9]);
    assert_eq!(store.scheduled.iter().map(|e| e.id).collect::<Vec<_>>(), vec![1, 3, 5]);
    store.remove_scheduled(&vec![]);
    assert_eq!(store.scheduled.len(), 3);
    assert!(has_id(&vec![4, 2, 9], 2));
    assert!(!has_id(&vec![4, 2, 9], 3));
}

#[test]
fn source_url_is_built_from_handle_and_id() {
    assert_eq!(source_url("raincat", 30), "https://twitter.com/raincat/status/30");
    assert_eq!(
        source_url("a_b", 1588834546283081728),
        "https://twitter.com/a_b/status/1588834546283081728"
    );
}

#[test]
fn post_rows_from_a_tweet() {
    let t = tweet(
        30,
        "look ",
        vec![
            TwitterMedia::Video("https://vid/v.mp4".to_string()),
            TwitterMedia::Photo("https://img/p.jpg".to_string()),
        ],
    );
    let post = post_from_tweet(4, &t);
    assert_eq!(post.platform_id, 30);
    assert_eq!(post.author_id, 4);
    assert_eq!(post.text, "look ");
    assert_eq!(post.source_text, "Rain Cat");
    assert_eq!(post.source_url, "https://twitter.com/raincat/status/30");
    assert_eq!(post.media.len(), 2);
    assert_eq!(post.media[0].media_type, MediaType::Video);
    assert_eq!(post.media[0].media_url, "https://vid/v.mp4");
    assert_eq!(post.media[1].media_type, MediaType::Photo);
    assert_eq!(post.media[1].media_url, "https://img/p.jpg");
    let posts = posts_from_timeline(4, &vec![tweet(31, "b", vec![]), tweet(30, "a", vec![])]);
    assert_eq!(posts.iter().map(|p| p.platform_id).collect::<Vec<_>>(), vec![31, 30]);
}

fn stored_author() -> author::Model {
    author::Model {
        id: 4,
        platform_id: 77,
        name: "Rain Cat".to_string(),
        username: "raincat".to_string(),
        avatar_url: None,
    }
}

#[test]
fn ingestion_stores_nothing_at_or_below_the_cursor() {
    let data = answer(vec![raw("30", "c"), raw("20", "b"), raw("10", "a")], "77");
    let posts = posts_to_store(&stored_author(), Some(20), &data).unwrap();
    assert_eq!(posts.len(), 1);
    assert_eq!(posts[0].platform_id, 30);
    assert_eq!(posts[0].author_id, 4);
    let wrong_author = answer(vec![raw("30", "c")], "78");
    assert!(matches!(
        posts_to_store(&stored_author(), None, &wrong_author),
        Err(TwitterError::APIError)
    ));
}

#[test]
fn ingesting_the_same_answer_again_adds_nothing() {
    let data = answer(vec![raw("30", "c"), raw("20", "b"), raw("10", "a")], "77");
    let mut store = Store::new();
    let who = stored_author();
    assert_eq!(store.last_post_id(who.id), None);
    let first = posts_to_store(&who, store.last_post_id(who.id), &data).unwrap();
    assert_eq!(first.len(), 3);
    for post in &first {
        assert!(store.insert_post(post).is_ok());
    }
    assert_eq!(store.posts.len(), 3);
    assert_eq!(store.last_post_id(who.id), Some(30));
    let second = posts_to_store(&who, store.last_post_id(who.id), &data).unwrap();
    assert!(second.is_empty());
    assert_eq!(store.posts.len(), 3);
}

#[test]
fn the_cursor_is_the_highest_platform_id_of_the_author() {
    let mut store = Store::new();
    for (pid, who) in [(20, 4), (50, 5), (30, 4), (10, 4)] {
        let post = NewPost {
            platform_id: pid,
            author_id: who,
            text: String::new(),
            source_text: String::new(),
            source_url: String::new(),
            media: vec![],
        };
        assert!(store.insert_post(&post).is_ok());
    }
    assert_eq!(store.last_post_id(4), Some(30));
    assert_eq!(store.last_post_id(5), Some(50));
    assert_eq!(store.last_post_id(6), None);
}

#[test]
fn a_post_is_stored_with_its_media() {
    let mut store = Store::new();
    let post = NewPost {
        platform_id: 30,
        author_id: 4,
        text: "look ".to_string(),
        source_text: "Rain Cat".to_string(),
        source_url: "https://twitter.com/raincat/status/30".to_string(),
        media: vec![
            NewMedia { media_type: MediaType::Video, media_url: "B".to_string() },
            NewMedia { media_type: MediaType::Photo, media_url: "P".to_string() },
        ],
    };
    assert_eq!(store.insert_post(&post), Ok(1));
    assert_eq!(store.posts.len(), 1);
    assert_eq!(store.posts[0].id, 1);
    assert_eq!(store.posts[0].platform_id, 30);
    assert_eq!(store.posts[0].author_id, 4);
    assert_eq!(store.posts[0].text, "look ");
    assert_eq!(store.posts[0].source_text, "Rain Cat");
    assert_eq!(store.posts[0].source_url, "https://twitter.com/raincat/status/30");
    assert_eq!(store.media.len(), 2);
    assert_eq!(store.media[0].id, 1);
    assert_eq!(store.media[0].post_id, 1);
    assert_eq!(store.media[0].media_type, MediaType::Video);
    assert_eq!(store.media[0].media_url, "B");
    assert_eq!(store.media[1].id, 2);
    assert_eq!(store.media[1].post_id, 1);
    assert_eq!(store.media[1].media_type, MediaType::Photo);
    assert_eq!(store.insert_post(&post), Err(StoreError::Conflict));
    assert_eq!(store.posts.len(), 1);
    assert_eq!(store.media.len(), 2);
}

#[test]
fn a_full_store_refuses_a_post_whole() {
    let mut store = Store::new();
    store.media_seq = i64::MAX - 1;
    let post = NewPost {
        platform_id: 30,
        author_id: 4,
        text: String::new(),
        source_text: String::new(),
        source_url: String::new(),
        media: vec![
            NewMedia { media_type: MediaType::Photo, media_url: "a".to_string() },
            NewMedia { media_type: MediaType::Photo, media_url: "b".to_string() },
        ],
    };
    assert_eq!(store.insert_post(&post), Err(StoreError::Exhausted));
    assert!(store.posts.is_empty());
    assert!(store.media.is_empty());
    store.media_seq = 0;
    store.post_seq = i64::MAX;
    assert_eq!(store.insert_post(&post), Err(StoreError::Exhausted));
}

#[test]
fn upserting_twice_leaves_one_author_with_the_latest_values() {
    let mut store = Store::new();
    let other = store.upsert_author(&profile(5, "Other", "other", None));
    assert_eq!(other, Some(1));
    let first = store.upsert_author(&profile(77, "Rain Cat", "raincat", None));
    assert_eq!(first, Some(2));
    let second =
        store.upsert_author(&profile(77, "Storm Cat", "stormcat", Some("https://img/a.png")));
    assert_eq!(second, Some(2));
    assert_eq!(store.authors.len(), 2);
    let rows: Vec<&author::Model> = store.authors.iter().filter(|a| a.platform_id == 77).collect();
    assert_eq!(rows.len(), 1);
    assert_eq!(rows[0].id, 2);
    assert_eq!(rows[0].name, "Storm Cat");
    assert_eq!(rows[0].username, "stormcat");
    assert_eq!(rows[0].avatar_url, Some("https://img/a.png".to_string()));
    assert_eq!(store.authors[0].name, "Other");
}

#[test]
fn no_new_author_without_an_id() {
    let mut store = Store::new();
    assert_eq!(store.upsert_author(&profile(77, "Rain Cat", "raincat", None)), Some(1));
    store.author_seq = i64::MAX;
    assert_eq!(store.upsert_author(&profile(78, "New", "new", None)), None);
    assert_eq!(store.authors.len(), 1);
    assert_eq!(store.upsert_author(&profile(77, "Again", "again", None)), Some(1));
    assert_eq!(store.authors[0].name, "Again");
}

fn store_with_post() -> Store {
    let mut store = Store::new();
    store.posts.push(post::Model {
        id: 3,
        platform_id: 30,
        author_id: 4,
        text: "first text".to_string(),
        source_url: "https://twitter.com/raincat/status/30".to_string(),
        source_text: "Rain Cat".to_string(),
    });
    store.posts.push(post::Model {
        id: 8,
        platform_id: 31,
        author_id: 4,
        text: "other".to_string(),
        source_url: String::new(),
        source_text: String::new(),
    });
    store.post_seq = 8;
    store.media.push(media_row(5, 3, MediaType::Photo, "a"));
    store.media.push(media_row(6, 8, MediaType::Photo, "x"));
    store.media.push(media_row(7, 3, MediaType::Video, "b"));
    store.media.push(media_row(9, 3, MediaType::Photo, "c"));
    store.media_seq = 9;
    store
}

#[test]
fn scheduling_leaves_out_the_excluded_media() {
    let mut store = store_with_post();
    assert_eq!(media_ids_for(&store.media, 3, &vec![]), vec![5, 7, 9]);
    let id = create_scheduled_post(&mut store, 13, 3, None, &vec![7]).unwrap();
    assert_eq!(id, 1);
    assert_eq!(store.scheduled.len(), 1);
    let row = &store.scheduled[0];
    assert_eq!(row.id, 1);
    assert_eq!(row.user_id, 13);
    assert_eq!(row.media_ids, "5,9");
    assert_eq!(row.post_text, "first text");
    assert_eq!(row.post_source, "Rain Cat");
    assert_eq!(row.post_source_url, "https://twitter.com/raincat/status/30");
}

#[test]
fn scheduling_takes_the_callers_text() {
    let mut store = store_with_post();
    let id = create_scheduled_post(&mut store, 13, 3, Some("mine".to_string()), &vec![5, 7, 9, 6]);
    assert_eq!(id, Ok(1));
    assert_eq!(store.scheduled[0].post_text, "mine");
    assert_eq!(store.scheduled[0].media_ids, "");
    let next = create_scheduled_post(&mut store, 13, 8, None, &vec![]);
    assert_eq!(next, Ok(2));
    assert_eq!(store.scheduled[1].media_ids, "6");
}

#[test]
fn scheduling_errors() {
    let mut store = store_with_post();
    let nine: Vec<i64> = (1..=9).collect();
    let eight: Vec<i64> = (1..=8).collect();
    assert_eq!(
        create_scheduled_post(&mut store, 13, 99, None, &nine),
        Err(ScheduleError::TooManyExcluded)
    );
    assert_eq!(
        create_scheduled_post(&mut store, 13, 99, None, &eight),
        Err(ScheduleError::PostNotFound)
    );
    assert_eq!(create_scheduled_post(&mut store, 13, 3, None, &eight), Ok(1));
    store.scheduled_seq = i64::MAX;
    assert_eq!(
        create_scheduled_post(&mut store, 13, 3, None, &vec![]),
        Err(ScheduleError::Exhausted)
    );
    assert_eq!(store.scheduled.len(), 1);
}

#[test]
fn author_keys() {
    assert_eq!(author_key("77"), AuthorKey::PlatformId(77));
    assert_eq!(author_key("-4"), AuthorKey::InternalId(4));
    assert_eq!(author_key("0"), AuthorKey::Username);
    assert_eq!(author_key("raincat"), AuthorKey::Username);
    assert_eq!(author_key("-9223372036854775808"), AuthorKey::Username);
}

#[test]
fn only_moderators_add_authors() {
    let mut u = user(1, None);
    assert!(!may_add_authors(&None));
    assert!(!may_add_authors(&Some(u)));
    u.power_level = 49;
    assert!(!may_add_authors(&Some(u)));
    u.power_level = 50;
    assert!(may_add_authors(&Some(u)));
    u.power_level = 100;
    assert!(may_add_authors(&Some(u)));
}

#[test]
fn link_channel_errors_have_codes_and_messages() {
    assert_eq!(LinkChannelError::NotFound.code(), 404);
    assert_eq!(LinkChannelError::InvalidFormat.code(), 400);
    assert_eq!(LinkChannelError::BotNotAdmin.code(), 401);
    assert_eq!(LinkChannelError::UserNoPermissions.code(), 403);
    assert_eq!(LinkChannelError::NotFound.message(), "Channel not found");
    assert_eq!(LinkChannelError::InvalidFormat.message(), "Channel ID has invalid format");
    assert_eq!(LinkChannelError::BotNotAdmin.message(), "Bot is not chat administrator");
    assert_eq!(
        LinkChannelError::UserNoPermissions.message(),
        "You need to be a chat owner or channel administrator to do that"
    );
}

#[test]
fn channel_names() {
    assert_eq!(channel_ref("-1001234"), Ok(ChannelRef::Id(-1001234)));
    assert_eq!(channel_ref("@rain"), Ok(ChannelRef::Name));
    assert_eq!(channel_ref("rain"), Err(LinkChannelError::InvalidFormat));
    assert_eq!(channel_ref(""), Err(LinkChannelError::InvalidFormat));
}

#[test]
fn rights_in_a_channel() {
    let admins = vec![
        Administrator { user_id: 1, can_post_messages: false },
        Administrator { user_id: 2, can_post_messages: true },
        Administrator { user_id: u64::MAX, can_post_messages: true },
    ];
    assert_eq!(check_rights(2, &admins), Ok(()));
    assert_eq!(check_rights(1, &admins), Err(LinkChannelError::UserNoPermissions));
    assert_eq!(check_rights(3, &admins), Err(LinkChannelError::UserNoPermissions));
    assert_eq!(check_rights(-1, &admins), Ok(()));
    assert_eq!(check_rights(2, &vec![]), Err(LinkChannelError::UserNoPermissions));
}

#[test]
fn linking_keeps_what_is_known_of_the_user() {
    let known = telegram_user::Model { id: 13, channel: Some(1), power_level: 50, last_feed_id: 9 };
    let linked = linked_user(Some(known), 13, 42);
    assert_eq!(
        linked,
        telegram_user::Model { id: 13, channel: Some(42), power_level: 50, last_feed_id: 9 }
    );
    let fresh = linked_user(None, 14, 42);
    assert_eq!(
        fresh,
        telegram_user::Model { id: 14, channel: Some(42), power_level: 0, last_feed_id: 0 }
    );
}

#[test]
fn a_pass_over_an_author_stores_only_what_is_new() {
    let mut store = Store::new();
    let who = stored_author();
    let first = answer(vec![raw("20", "b"), raw("10", "a")], "77");
    assert_eq!(ingest_author(&mut store, &who, &first), Ok(2));
    assert_eq!(store.posts.iter().map(|p| p.platform_id).collect::<Vec<_>>(), vec![20, 10]);
    assert_eq!(store.posts.iter().map(|p| p.id).collect::<Vec<_>>(), vec![1, 2]);
    assert_eq!(ingest_author(&mut store, &who, &first), Ok(0));
    assert_eq!(store.posts.len(), 2);
    let later = answer(vec![raw("30", "c"), raw("20", "b"), raw("15", "late")], "77");
    assert_eq!(ingest_author(&mut store, &who, &later), Ok(1));
    assert_eq!(store.posts.iter().map(|p| p.platform_id).collect::<Vec<_>>(), vec![20, 10, 30]);
    assert_eq!(store.posts[2].author_id, 4);
    assert_eq!(store.posts[2].source_text, "Rain Cat");
    assert_eq!(store.posts[2].source_url, "https://twitter.com/raincat/status/30");
}

#[test]
fn a_pass_over_an_author_reports_what_went_wrong() {
    let mut store = Store::new();
    let who = stored_author();
    let malformed = answer(vec![raw("2o", "b")], "77");
    assert_eq!(ingest_author(&mut store, &who, &malformed), Err(IngestError::Source));
    assert!(store.posts.is_empty());
    let twice = answer(vec![raw("20", "b"), raw("20", "b")], "77");
    assert_eq!(
        ingest_author(&mut store, &who, &twice),
        Err(IngestError::Store(StoreError::Conflict))
    );
    assert_eq!(store.posts.len(), 1);
}

#[test]
fn limits() {
    assert_eq!(MAX_EXCLUDED_MEDIA, 8);
    assert_eq!(PASS_DELAY_SECS, 120);
}

#[test]
fn an_entry_is_deleted_only_for_its_user() {
    let mut store = Store::new();
    store.scheduled.push(entry(1, 13, ""));
    store.scheduled.push(entry(2, 14, ""));
    store.scheduled.push(entry(3, 13, ""));
    store.scheduled_seq = 3;
    assert!(!store.delete_scheduled(2, 13));
    assert_eq!(store.scheduled.len(), 3);
    assert!(!store.delete_scheduled(9, 13));
    assert!(store.delete_scheduled(1, 13));
    assert_eq!(store.scheduled.iter().map(|e| e.id).collect::<Vec<_>>(), vec![2, 3]);
    assert!(!store.delete_scheduled(1, 13));
}

#[test]
fn media_are_looked_up_by_membership() {
    let store = store_with_post();
    let rows = store.media_by_ids(&vec![9, 5, 100]);
    assert_eq!(rows.iter().map(|m| m.id).collect::<Vec<_>>(), vec![5, 9]);
    assert_eq!(rows[0].media_url, "a");
    assert_eq!(rows[1].media_url, "c");
    assert_eq!(rows[1].media_type, MediaType::Photo);
    assert!(store.media_by_ids(&vec![]).is_empty());
}

#[test]
fn numbers_in_an_address_name_authors() {
    assert_eq!(author_key_from_id(77), AuthorKey::PlatformId(77));
    assert_eq!(author_key_from_id(0), AuthorKey::PlatformId(0));
    assert_eq!(author_key_from_id(-4), AuthorKey::InternalId(4));
    assert_eq!(author_key_from_id(i64::MIN), AuthorKey::Username);
}

#[test]
fn adding_an_author_needs_a_positive_id_and_power() {
    let mut moderator = user(1, None);
    moderator.power_level = 50;
    assert_eq!(check_add_author(0, &Some(moderator)), Err(AddAuthorError::InvalidId));
    assert_eq!(check_add_author(-5, &None), Err(AddAuthorError::InvalidId));
    assert_eq!(check_add_author(5, &None), Err(AddAuthorError::Forbidden));
    assert_eq!(check_add_author(5, &Some(user(1, None))), Err(AddAuthorError::Forbidden));
    assert_eq!(check_add_author(5, &Some(moderator)), Ok(5));
}

#[test]
fn a_purge_takes_the_link_from_all_but_the_owner() {
    let mut users = vec![
        telegram_user::Model { id: 1, channel: Some(42), power_level: 50, last_feed_id: 3 },
        telegram_user::Model { id: 2, channel: Some(42), power_level: 0, last_feed_id: 7 },
        telegram_user::Model { id: 3, channel: Some(43), power_level: 0, last_feed_id: 0 },
        telegram_user::Model { id: 4, channel: None, power_level: 0, last_feed_id: 0 },
        telegram_user::Model { id: 5, channel: Some(42), power_level: 100, last_feed_id: 9 },
    ];
    assert_eq!(purge_administrators(&mut users, 42, 2), 2);
    assert_eq!(
        users,
        vec![
            telegram_user::Model { id: 1, channel: None, power_level: 50, last_feed_id: 3 },
            telegram_user::Model { id: 2, channel: Some(42), power_level: 0, last_feed_id: 7 },
            telegram_user::Model { id: 3, channel: Some(43), power_level: 0, last_feed_id: 0 },
            telegram_user::Model { id: 4, channel: None, power_level: 0, last_feed_id: 0 },
            telegram_user::Model { id: 5, channel: None, power_level: 100, last_feed_id: 9 },
        ]
    );
    assert_eq!(purge_administrators(&mut users, 42, 2), 0);
    assert_eq!(purge_target(&None), Err(PurgeError::NoLinkedChannel));
    assert_eq!(purge_target(&Some(users[3])), Err(PurgeError::NoLinkedChannel));
    assert_eq!(purge_target(&Some(users[1])), Ok(42));
}

fn store_with_authors() -> Store {
    let mut store = Store::new();
    assert_eq!(store.upsert_author(&profile(77, "Rain Cat", "raincat", None)), Some(1));
    assert_eq!(store.upsert_author(&profile(78, "Storm", "storm", None)), Some(2));
    assert_eq!(store.upsert_author(&profile(2, "Two", "77", None)), Some(3));
    store
}

#[test]
fn authors_are_looked_up_by_key() {
    let store = store_with_authors();
    assert_eq!(lookup_author(&store.authors, AuthorKey::PlatformId(78), "78"), Some(1));
    assert_eq!(lookup_author(&store.authors, AuthorKey::PlatformId(1), "1"), None);
    assert_eq!(lookup_author(&store.authors, AuthorKey::InternalId(3), "-3"), Some(2));
    assert_eq!(lookup_author(&store.authors, AuthorKey::InternalId(9), "-9"), None);
    assert_eq!(lookup_author(&store.authors, AuthorKey::Username, "storm"), Some(1));
    assert_eq!(lookup_author(&store.authors, AuthorKey::Username, "nobody"), None);
}

#[test]
fn subscribing_to_an_unknown_author_is_refused() {
    let mut store = store_with_authors();
    assert_eq!(subscribe(&mut store, 13, "999"), Err(FeedError::AuthorNotFound));
    assert_eq!(subscribe(&mut store, 13, "nobody"), Err(FeedError::AuthorNotFound));
    assert_eq!(subscribe(&mut store, 13, "-9"), Err(FeedError::AuthorNotFound));
    assert_eq!(unsubscribe(&mut store, 13, "nobody"), Err(FeedError::AuthorNotFound));
    assert!(store.follows.is_empty());
    assert_eq!(FeedError::AuthorNotFound.code(), 404);
    assert_eq!(FeedError::AuthorNotFound.message(), "Author does not exists");
    assert_eq!(FeedError::InvalidOperation.code(), 400);
    assert_eq!(FeedError::InvalidOperation.message(), "Invalid operation");
}

#[test]
fn subscriptions_come_and_go() {
    let mut store = store_with_authors();
    assert_eq!(subscribe(&mut store, 13, "77"), Ok(()));
    assert_eq!(subscribe(&mut store, 13, "storm"), Ok(()));
    assert_eq!(subscribe(&mut store, 14, "-1"), Ok(()));
    assert_eq!(
        store.follows,
        vec![
            follow::Model { user_id: 13, author_id: 1 },
            follow::Model { user_id: 13, author_id: 2 },
            follow::Model { user_id: 14, author_id: 1 },
        ]
    );
    assert_eq!(subscribe(&mut store, 13, "raincat"), Err(FeedError::InvalidOperation));
    assert_eq!(store.follows.len(), 3);
    assert_eq!(unsubscribe(&mut store, 13, "-1"), Ok(()));
    assert_eq!(
        store.follows,
        vec![
            follow::Model { user_id: 13, author_id: 2 },
            follow::Model { user_id: 14, author_id: 1 },
        ]
    );
    assert_eq!(unsubscribe(&mut store, 13, "-1"), Ok(()));
    assert_eq!(store.follows.len(), 2);
}

#[test]
fn the_feed_position_never_goes_down() {
    let known = telegram_user::Model { id: 13, channel: Some(42), power_level: 50, last_feed_id: 9 };
    assert_eq!(
        read_under(Some(known), 13, 12),
        telegram_user::Model { id: 13, channel: Some(42), power_level: 50, last_feed_id: 12 }
    );
    assert_eq!(read_under(Some(known), 13, 4), known);
    assert_eq!(read_under(Some(known), 13, 9), known);
    assert_eq!(
        read_under(None, 14, 7),
        telegram_user::Model { id: 14, channel: None, power_level: 0, last_feed_id: 7 }
    );
    assert_eq!(
        read_under(None, 14, -7),
        telegram_user::Model { id: 14, channel: None, power_level: 0, last_feed_id: 0 }
    );
}

#[test]
fn scheduling_names_no_attachment_twice() {
    let mut store = Store::new();
    let post = NewPost {
        platform_id: 30,
        author_id: 4,
        text: String::new(),
        source_text: String::new(),
        source_url: String::new(),
        media: vec![
            NewMedia { media_type: MediaType::Photo, media_url: "a".to_string() },
            NewMedia { media_type: MediaType::Photo, media_url: "a".to_string() },
            NewMedia { media_type: MediaType::Video, media_url: "b".to_string() },
        ],
    };
    assert_eq!(store.insert_post(&post), Ok(1));
    assert_eq!(create_scheduled_post(&mut store, 13, 1, None, &vec![]), Ok(1));
    assert_eq!(store.scheduled[0].media_ids, "1,2,3");
}

#[test]
fn a_pass_stops_where_the_ids_run_out() {
    let mut store = Store::new();
    let who = stored_author();
    let data = answer(vec![raw("20", "b"), raw("10", "a")], "77");
    store.post_seq = i64::MAX - 1;
    assert_eq!(
        ingest_author(&mut store, &who, &data),
        Err(IngestError::Store(StoreError::Exhausted))
    );
    assert_eq!(store.posts.len(), 1);
    assert_eq!(store.posts[0].platform_id, 20);
    assert_eq!(store.posts[0].id, i64::MAX);
    assert_eq!(store.post_seq, i64::MAX);
}
