use feed_relay::entity::post_media::MediaType;
use feed_relay::models::twitterclient::{
    find_author, find_media, pick_variant, resolve_all, resolve_media, sanitize_text,
    TwitterClient, TwitterError, TwitterMedia, TwitterRawTweet, TwitterRawTweetAttachments,
    TwitterTimelineIncludes, TwitterTimelineMedia, TwitterTimelineMediaVariants,
    TwitterTimelineUser, TwitterUserAnswer, TwitterUserResponse, TwitterUserResponseUser,
    TwitterUserTimeline,
};

fn variant(bitrate: Option<u32>, url: &str) -> TwitterTimelineMediaVariants {
    TwitterTimelineMediaVariants { bitrate, url: url.to_string() }
}

fn photo(key: &str, url: Option<&str>) -> TwitterTimelineMedia {
    TwitterTimelineMedia {
        media_key: key.to_string(),
        kind: "photo".to_string(),
        url: url.map(|u| u.to_string()),
        variants: None,
    }
}

fn video(key: &str, variants: Option<Vec<TwitterTimelineMediaVariants>>) -> TwitterTimelineMedia {
    TwitterTimelineMedia {
        media_key: key.to_string(),
        kind: "video".to_string(),
        url: None,
        variants,
    }
}

fn raw(id: &str, text: &str, keys: Option<Vec<&str>>) -> TwitterRawTweet {
    TwitterRawTweet {
        id: id.to_string(),
        text: text.to_string(),
        attachments: keys.map(|k| TwitterRawTweetAttachments {
            media_keys: k.into_iter().map(|s| s.to_string()).collect(),
        }),
    }
}

fn author(id: &str) -> TwitterTimelineUser {
    TwitterTimelineUser {
        id: id.to_string(),
        name: "Rain Cat".to_string(),
        username: "raincat".to_string(),
    }
}

fn answer(
    data: Vec<TwitterRawTweet>,
    media: Vec<TwitterTimelineMedia>,
    users: Vec<TwitterTimelineUser>,
) -> TwitterUserTimeline {
    TwitterUserTimeline { data, includes: TwitterTimelineIncludes { media, users } }
}

#[test]
fn new_keeps_the_token() {
    let client = TwitterClient::new("t0k3n".to_string());
    assert_eq!(client.token, "t0k3n");
    assert_eq!(client.authorization(), "Bearer t0k3n");
}

#[test]
fn request_addresses() {
    assert_eq!(TwitterClient::user_url(12), "https://api.twitter.com/2/users/12");
    assert_eq!(
        TwitterClient::username_url("raincat"),
        "https://api.twitter.com/2/users/by/username/raincat"
    );
    assert_eq!(TwitterClient::timeline_url("12"), "https://api.twitter.com/2/users/12/tweets");
}

#[test]
fn timeline_query_carries_the_cursor() {
    let plain = TwitterClient::timeline_query(None);
    assert_eq!(plain.len(), 5);
    assert_eq!(plain[0], ("exclude", "replies,retweets".to_string()));
    assert_eq!(plain[1], ("tweet.fields", "attachments,author_id".to_string()));
    assert_eq!(plain[2], ("expansions", "attachments.media_keys,author_id".to_string()));
    assert_eq!(plain[3], ("media.fields", "type,url,variants".to_string()));
    assert_eq!(plain[4], ("max_results", "5".to_string()));
    let since = TwitterClient::timeline_query(Some(1200));
    assert_eq!(since.len(), 6);
    assert_eq!(since[4], ("max_results", "5".to_string()));
    assert_eq!(since[5], ("since_id", "1200".to_string()));
}

#[test]
fn media_kind_and_address() {
    let p = TwitterMedia::Photo("https://img/p.jpg".to_string());
    let v = TwitterMedia::Video("https://vid/v.mp4".to_string());
    assert_eq!(p.media_type(), MediaType::Photo);
    assert_eq!(v.media_type(), MediaType::Video);
    assert_eq!(p.media_url(), "https://img/p.jpg");
    assert_eq!(v.media_url(), "https://vid/v.mp4");
}

#[test]
fn highest_bitrate_wins() {
    let vs = vec![variant(Some(500), "A"), variant(Some(1200), "B"), variant(None, "C")];
    assert_eq!(pick_variant(&vs), Some(1));
    let m = video("k", Some(vs));
    match resolve_media(&m) {
        Some(TwitterMedia::Video(u)) => assert_eq!(u, "B"),
        other => panic!("unexpected {:?}", other),
    }
}

#[test]
fn unknown_bitrate_ranks_lowest_and_last_of_equals_wins() {
    assert_eq!(pick_variant(&vec![]), None);
    assert_eq!(pick_variant(&vec![variant(None, "A")]), Some(0));
    assert_eq!(pick_variant(&vec![variant(None, "A"), variant(None, "B")]), Some(1));
    assert_eq!(pick_variant(&vec![variant(Some(0), "A"), variant(None, "B")]), Some(0));
    assert_eq!(pick_variant(&vec![variant(None, "A"), variant(Some(0), "B")]), Some(1));
    assert_eq!(
        pick_variant(&vec![variant(Some(7), "A"), variant(Some(7), "B"), variant(Some(3), "C")]),
        Some(1)
    );
    let picked: Vec<Option<u32>> = vec![Some(7), Some(7), Some(3)];
    let std_choice = picked.iter().enumerate().max_by_key(|(_, b)| **b).map(|(i, _)| i);
    assert_eq!(std_choice, Some(1));
}

#[test]
fn photo_resolves_to_its_address() {
    match resolve_media(&photo("k", Some("https://img/p.jpg"))) {
        Some(TwitterMedia::Photo(u)) => assert_eq!(u, "https://img/p.jpg"),
        other => panic!("unexpected {:?}", other),
    }
    assert!(resolve_media(&photo("k", None)).is_none());
    assert!(resolve_media(&video("k", None)).is_none());
    assert!(resolve_media(&video("k", Some(vec![]))).is_none());
}

#[test]
fn a_kind_that_is_no_photo_is_a_video() {
    let m = TwitterTimelineMedia {
        media_key: "k".to_string(),
        kind: "animated_gif".to_string(),
        url: Some("https://img/still.jpg".to_string()),
        variants: Some(vec![variant(None, "https://vid/g.mp4")]),
    };
    match resolve_media(&m) {
        Some(TwitterMedia::Video(u)) => assert_eq!(u, "https://vid/g.mp4"),
        other => panic!("unexpected {:?}", other),
    }
}

#[test]
fn find_media_gives_the_first_with_the_key() {
    let media = vec![photo("a", Some("1")), photo("b", Some("2")), photo("a", Some("3"))];
    assert_eq!(find_media(&media, "a"), Some(0));
    assert_eq!(find_media(&media, "b"), Some(1));
    assert_eq!(find_media(&media, "c"), None);
    let users = vec![author("1"), author("2")];
    assert_eq!(find_author(&users, "2"), Some(1));
    assert_eq!(find_author(&users, "3"), None);
}

#[test]
fn resolve_all_keeps_the_order_of_the_keys() {
    let media = vec![photo("a", Some("1")), photo("b", Some("2"))];
    let keys = vec!["b".to_string(), "a".to_string()];
    let out = resolve_all(&keys, &media).unwrap();
    assert_eq!(out.len(), 2);
    assert_eq!(out[0].clone().media_url(), "2");
    assert_eq!(out[1].clone().media_url(), "1");
    assert!(resolve_all(&vec!["zz".to_string()], &media).is_none());
}

#[test]
fn sanitization() {
    assert_eq!(sanitize_text("hello world https://t.co/abc123", 1), "hello world ");
    assert_eq!(
        sanitize_text("hello world https://t.co/abc123", 0),
        "hello world https://t.co/abc123"
    );
}

#[test]
fn only_a_link_that_ends_the_text_is_cut() {
    assert_eq!(sanitize_text("see https://t.co/abc now", 2), "see https://t.co/abc now");
    assert_eq!(sanitize_text("https://t.co/a https://t.co/b", 1), "https://t.co/a ");
    assert_eq!(sanitize_text("https://t.co/ahttps://t.co/b", 1), "");
    assert_eq!(sanitize_text("x https://t.co/", 1), "x https://t.co/");
    assert_eq!(sanitize_text("x https://t.co/a ", 1), "x https://t.co/a ");
    assert_eq!(sanitize_text("x http://t.co/abc", 1), "x http://t.co/abc");
    assert_eq!(sanitize_text("x https://tXco/abc", 1), "x https://tXco/abc");
    assert_eq!(sanitize_text("x https://t.co/ab\ncd", 1), "x ");
    assert_eq!(sanitize_text("x https://t.co/ab\tcd", 3), "x ");
    assert_eq!(sanitize_text("дождь https://t.co/ёж", 1), "дождь ");
    assert_eq!(sanitize_text("", 1), "");
    assert_eq!(sanitize_text("no link", 1), "no link");
}

#[test]
fn timeline_drops_what_is_not_above_the_cursor() {
    let data = answer(
        vec![raw("30", "c", None), raw("20", "b", None), raw("10", "a", None)],
        vec![],
        vec![author("77")],
    );
    let out = TwitterClient::timeline_from_response(&data, "77", Some(20)).unwrap();
    assert_eq!(out.len(), 1);
    assert_eq!(out[0].id, 30);
    assert_eq!(out[0].author_id, 77);
    assert_eq!(out[0].author_name, "Rain Cat");
    assert_eq!(out[0].author_username, "raincat");
    assert_eq!(out[0].text, "c");
    assert!(out[0].media.is_empty());
    let all = TwitterClient::timeline_from_response(&data, "77", None).unwrap();
    assert_eq!(all.iter().map(|t| t.id).collect::<Vec<_>>(), vec![30, 20, 10]);
    let none = TwitterClient::timeline_from_response(&data, "77", Some(30)).unwrap();
    assert!(none.is_empty());
}

#[test]
fn timeline_resolves_media_and_cleans_text() {
    let data = answer(
        vec![
            raw("31", "look https://t.co/abc123", Some(vec!["video-key", "photo-key"])),
            raw("32", "plain https://t.co/zzz", None),
        ],
        vec![
            photo("photo-key", Some("https://img/p1.jpg")),
            video(
                "video-key",
                Some(vec![variant(Some(500), "A"), variant(Some(1200), "B"), variant(None, "C")]),
            ),
        ],
        vec![author("1"), author("77")],
    );
    let out = TwitterClient::timeline_from_response(&data, "77", Some(5)).unwrap();
    assert_eq!(out.len(), 2);
    assert_eq!(out[0].text, "look ");
    assert_eq!(out[0].media.len(), 2);
    assert_eq!(out[0].media[0].media_type(), MediaType::Video);
    assert_eq!(out[0].media[0].clone().media_url(), "B");
    assert_eq!(out[0].media[1].media_type(), MediaType::Photo);
    assert_eq!(out[0].media[1].clone().media_url(), "https://img/p1.jpg");
    assert_eq!(out[1].text, "plain https://t.co/zzz");
}

#[test]
fn an_answer_without_posts_is_an_empty_timeline() {
    let data = answer(vec![], vec![], vec![]);
    assert!(TwitterClient::timeline_from_response(&data, "77", None).unwrap().is_empty());
}

#[test]
fn malformed_answers_are_refused() {
    let no_author = answer(vec![raw("30", "c", None)], vec![], vec![author("1")]);
    assert!(matches!(
        TwitterClient::timeline_from_response(&no_author, "77", None),
        Err(TwitterError::APIError)
    ));
    let bad_id = answer(vec![raw("3o", "c", None)], vec![], vec![author("77")]);
    assert!(matches!(
        TwitterClient::timeline_from_response(&bad_id, "77", None),
        Err(TwitterError::APIError)
    ));
    let bad_key = answer(vec![raw("30", "c", Some(vec!["k"]))], vec![], vec![author("77")]);
    assert!(matches!(
        TwitterClient::timeline_from_response(&bad_key, "77", None),
        Err(TwitterError::APIError)
    ));
    let no_url =
        answer(vec![raw("30", "c", Some(vec!["k"]))], vec![photo("k", None)], vec![author("77")]);
    assert!(matches!(
        TwitterClient::timeline_from_response(&no_url, "77", None),
        Err(TwitterError::APIError)
    ));
    let bad_author_id = answer(vec![raw("30", "c", None)], vec![], vec![author("x7")]);
    assert!(matches!(
        TwitterClient::timeline_from_response(&bad_author_id, "x7", None),
        Err(TwitterError::APIError)
    ));
}

#[test]
fn a_skipped_post_is_not_resolved() {
    let data = answer(
        vec![raw("10", "old", Some(vec!["gone"])), raw("30", "new", None)],
        vec![],
        vec![author("77")],
    );
    let out = TwitterClient::timeline_from_response(&data, "77", Some(10)).unwrap();
    assert_eq!(out.len(), 1);
    assert_eq!(out[0].id, 30);
}

#[test]
fn profile_from_answer() {
    let res = TwitterUserResponse {
        data: TwitterUserResponseUser {
            id: "77".to_string(),
            name: "Rain Cat".to_string(),
            username: "raincat".to_string(),
            profile_image_url: Some("https://img/a.png".to_string()),
        },
    };
    let user = TwitterClient::user_from_response(res).unwrap();
    assert_eq!(user.id, 77);
    assert_eq!(user.name, "Rain Cat");
    assert_eq!(user.username, "raincat");
    assert_eq!(user.profile_image_url, Some("https://img/a.png".to_string()));
    let bad = TwitterUserResponse {
        data: TwitterUserResponseUser {
            id: "seven".to_string(),
            name: String::new(),
            username: String::new(),
            profile_image_url: None,
        },
    };
    assert!(matches!(TwitterClient::user_from_response(bad), Err(TwitterError::APIError)));
}

#[test]
fn an_unknown_author_is_told_from_a_malformed_answer() {
    assert!(matches!(
        TwitterClient::user_from_answer(TwitterUserAnswer::Unknown),
        Err(TwitterError::NotFound)
    ));
    assert!(matches!(
        TwitterClient::user_from_answer(TwitterUserAnswer::Unreadable),
        Err(TwitterError::APIError)
    ));
    let res = TwitterUserResponse {
        data: TwitterUserResponseUser {
            id: "-5".to_string(),
            name: "N".to_string(),
            username: "u".to_string(),
            profile_image_url: None,
        },
    };
    let user = TwitterClient::user_from_answer(TwitterUserAnswer::Profile(res)).unwrap();
    assert_eq!(user.id, -5);
    assert_eq!(user.profile_image_url, None);
}

#[test]
fn errors_have_messages() {
    assert_eq!(TwitterError::APIError.message(), "API returned error");
    assert_eq!(TwitterError::NotFound.message(), "Author not found");
    assert_eq!(TwitterError::HttpError("timed out".to_string()).message(), "timed out");
}

#[test]
fn profile_query() {
    let q = TwitterClient::user_query();
    assert_eq!(q, vec![("user.fields", "name,username,profile_image_url".to_string())]);
}

fn expected_without_short_link(text: &str) -> String {
    let chars: Vec<char> = text.chars().collect();
    let prefix: Vec<char> = "https://t.co/".chars().collect();
    for start in 0..chars.len() {
        let rest = &chars[start..];
        if rest.len() > prefix.len()
            && rest[..prefix.len()] == prefix[..]
            && rest[prefix.len()..].iter().all(|c| *c != ' ')
        {
            return chars[..start].iter().collect();
        }
    }
    text.to_string()
}

#[test]
fn the_cut_is_at_the_first_link_that_runs_to_the_end() {
    let tokens = ["https://t.co/", "abc", " ", "\n", "t.co/", "https://t.co", "é", "/"];
    let mut texts: Vec<String> = vec![String::new()];
    let mut last: Vec<String> = vec![String::new()];
    for _ in 0..4 {
        let mut next = Vec::new();
        for t in &last {
            for tok in tokens {
                next.push(format!("{}{}", t, tok));
            }
        }
        texts.extend(next.iter().cloned());
        last = next;
    }
    assert_eq!(texts.len(), 1 + 8 + 64 + 512 + 4096);
    for text in &texts {
        assert_eq!(sanitize_text(text, 1), expected_without_short_link(text), "text {:?}", text);
        assert_eq!(sanitize_text(text, 0), *text);
    }
}
