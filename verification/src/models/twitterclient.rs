//! The feed source: its answers as plain values, and the rules that turn an
//! answer into profiles and posts.

use crate::entity::post_media::MediaType;
use crate::text::{decimal, i64_to_string, parse_i64, parse_i64_spec, same_text, u64_to_string};
use regex::Regex;
use vstd::prelude::*;

verus! {

/// Holds the credential that requests to the feed source carry.
#[derive(Clone)]
pub struct TwitterClient {
    /// Bearer token.
    pub token: String,
}

/// Why a call to the feed source gave nothing.
#[derive(Debug)]
pub enum TwitterError {
    /// The request failed on the way; the text is the transport's message.
    HttpError(String),
    /// The feed source knows no such author.
    NotFound,
    /// The answer was not of the expected form.
    APIError,
}

/// A post as the rest of the system sees it.
#[derive(Clone, Debug)]
pub struct TwitterTweet {
    pub id: i64,
    pub author_id: i64,
    pub author_name: String,
    pub author_username: String,
    pub text: String,
    pub media: Vec<TwitterMedia>,
}

/// A resolved attachment: its kind and where the file is.
#[derive(Clone, Debug)]
pub enum TwitterMedia {
    Photo(String),
    Video(String),
}

/// An author's profile.
pub struct TwitterUser {
    pub id: i64,
    pub name: String,
    pub username: String,
    pub profile_image_url: Option<String>,
}

/// Answer to a profile request.
pub struct TwitterUserResponse {
    pub data: TwitterUserResponseUser,
}

/// The profile inside an answer; the id is still text.
pub struct TwitterUserResponseUser {
    pub id: String,
    pub name: String,
    pub username: String,
    pub profile_image_url: Option<String>,
}

/// What the body of an answer to a profile request turned out to hold.
pub enum TwitterUserAnswer {
    /// A profile.
    Profile(TwitterUserResponse),
    /// The source's word that there is no such author.
    Unknown,
    /// Neither.
    Unreadable,
}

/// Answer to a timeline request.
pub struct TwitterUserTimeline {
    pub data: Vec<TwitterRawTweet>,
    pub includes: TwitterTimelineIncludes,
}

/// A post inside a timeline answer.
pub struct TwitterRawTweet {
    pub id: String,
    pub text: String,
    pub attachments: Option<TwitterRawTweetAttachments>,
}

/// The keys of a post's attachments.
pub struct TwitterRawTweetAttachments {
    pub media_keys: Vec<String>,
}

/// What a timeline answer carries beside the posts.
pub struct TwitterTimelineIncludes {
    pub media: Vec<TwitterTimelineMedia>,
    pub users: Vec<TwitterTimelineUser>,
}

/// An author inside a timeline answer.
pub struct TwitterTimelineUser {
    pub id: String,
    pub name: String,
    pub username: String,
}

/// An attachment inside a timeline answer.
pub struct TwitterTimelineMedia {
    pub media_key: String,
    /// The kind as the source names it; "photo" is a photo, all else is video.
    pub kind: String,
    pub url: Option<String>,
    pub variants: Option<Vec<TwitterTimelineMediaVariants>>,
}

/// One encoding of a video.
pub struct TwitterTimelineMediaVariants {
    pub bitrate: Option<u32>,
    pub url: String,
}

impl TwitterClient {
    /// A client that sends `token` with its requests.
    pub fn new(token: String) -> (client: Self)
        ensures
            client.token == token,
    {
        Self { token }
    }
}

impl TwitterMedia {
    /// Where the file is.
    pub open spec fn url(self) -> Seq<char> {
        match self {
            TwitterMedia::Photo(s) => s@,
            TwitterMedia::Video(s) => s@,
        }
    }

    /// Photo or video.
    pub open spec fn kind(self) -> MediaType {
        match self {
            TwitterMedia::Photo(_) => MediaType::Photo,
            TwitterMedia::Video(_) => MediaType::Video,
        }
    }

    /// The kind of the attachment.
    pub fn media_type(&self) -> (kind: MediaType)
        ensures
            kind == self.kind(),
    {
        match self {
            Self::Photo(_) => MediaType::Photo,
            Self::Video(_) => MediaType::Video,
        }
    }

    /// Hands out the attachment's address.
    pub fn media_url(self) -> (url: String)
        ensures
            url@ == self.url(),
    {
        match self {
            Self::Photo(s) => s,
            Self::Video(s) => s,
        }
    }
}


/// What a resolved attachment is.
pub struct MediaView {
    pub kind: MediaType,
    pub url: Seq<char>,
}

/// What a post is.
pub struct TweetView {
    pub id: i64,
    pub author_id: i64,
    pub author_name: Seq<char>,
    pub author_username: Seq<char>,
    pub text: Seq<char>,
    pub media: Seq<MediaView>,
}

impl View for TwitterMedia {
    type V = MediaView;

    open spec fn view(&self) -> MediaView {
        MediaView { kind: self.kind(), url: self.url() }
    }
}

impl View for TwitterTweet {
    type V = TweetView;

    open spec fn view(&self) -> TweetView {
        TweetView {
            id: self.id,
            author_id: self.author_id,
            author_name: self.author_name@,
            author_username: self.author_username@,
            text: self.text@,
            media: media_views(self.media@),
        }
    }
}

/// What each attachment of a list is.
pub open spec fn media_views(media: Seq<TwitterMedia>) -> Seq<MediaView> {
    Seq::new(media.len(), |i: int| media[i]@)
}

/// What each post of a list is.
pub open spec fn tweet_views(tweets: Seq<TwitterTweet>) -> Seq<TweetView> {
    Seq::new(tweets.len(), |i: int| tweets[i]@)
}

/// The characters of an optional text.
pub open spec fn opt_text(o: Option<String>) -> Option<Seq<char>> {
    match o {
        Some(s) => Some(s@),
        None => None,
    }
}

/// The rank by which encodings compete: a known bitrate by its number, an
/// unknown one below them all.
pub open spec fn bitrate_rank(v: TwitterTimelineMediaVariants) -> int {
    match v.bitrate {
        Some(b) => b as int,
        None => -1,
    }
}

/// Whether the encoding at `i` wins: none ranks higher, and none of the same
/// rank comes after it.
pub open spec fn is_best_variant(vs: Seq<TwitterTimelineMediaVariants>, i: int) -> bool {
    &&& 0 <= i < vs.len()
    &&& forall|j: int| 0 <= j < vs.len() ==> bitrate_rank(#[trigger] vs[j]) <= bitrate_rank(vs[i])
    &&& forall|j: int| i < j < vs.len() ==> bitrate_rank(#[trigger] vs[j]) < bitrate_rank(vs[i])
}

/// The place of the winning encoding among `vs`.
pub open spec fn best_variant(vs: Seq<TwitterTimelineMediaVariants>) -> int
    decreases vs.len(),
{
    if vs.len() <= 1 {
        0
    } else {
        let before = best_variant(vs.drop_last());
        if bitrate_rank(vs.last()) >= bitrate_rank(vs[before]) {
            vs.len() - 1
        } else {
            before
        }
    }
}

/// Picks the encoding with the highest bitrate, the last of them where
/// several share it; `None` where there is no encoding at all.
pub fn pick_variant(vs: &Vec<TwitterTimelineMediaVariants>) -> (best: Option<usize>)
    ensures
        vs.len() == 0 <==> best is None,
        best matches Some(i) ==> i == best_variant(vs@) && is_best_variant(vs@, i as int),
{
    if vs.len() == 0 {
        return None;
    }
    let mut best: usize = 0;
    let mut i: usize = 1;
    assert(vs@.take(1).len() == 1);
    while i < vs.len()
        invariant
            1 <= i <= vs.len(),
            best < i,
            best == best_variant(vs@.take(i as int)),
            is_best_variant(vs@.take(i as int), best as int),
        decreases vs.len() - i,
    {
        let ghost prefix = vs@.take(i as int);
        let ghost next = vs@.take(i + 1);
        assert(next.drop_last() == prefix);
        assert(forall|j: int| 0 <= j < i ==> next[j] == prefix[j]);
        let wins = match (vs[i].bitrate, vs[best].bitrate) {
            (Some(a), Some(b)) => a >= b,
            (None, Some(_)) => false,
            (_, None) => true,
        };
        if wins {
            best = i;
        }
        assert forall|j: int| 0 <= j < next.len() implies bitrate_rank(#[trigger] next[j])
            <= bitrate_rank(next[best as int]) by {
            if j < i {
                assert(next[j] == prefix[j]);
            }
        }
        assert forall|j: int| best < j < next.len() implies bitrate_rank(#[trigger] next[j])
            < bitrate_rank(next[best as int]) by {
            if j < i {
                assert(next[j] == prefix[j]);
            }
        }
        i += 1;
    }
    assert(vs@.take(vs.len() as int) == vs@);
    Some(best)
}

/// The first place in `media` whose key is `key`.
pub open spec fn key_position(media: Seq<TwitterTimelineMedia>, key: Seq<char>) -> Option<int>
    decreases media.len(),
{
    if media.len() == 0 {
        None
    } else {
        match key_position(media.drop_last(), key) {
            Some(i) => Some(i),
            None => if media.last().media_key@ == key {
                Some(media.len() - 1)
            } else {
                None
            },
        }
    }
}

/// Finds the attachment with the given key.
pub fn find_media(media: &Vec<TwitterTimelineMedia>, key: &str) -> (found: Option<usize>)
    ensures
        found matches Some(i) ==> i < media.len() && key_position(media@, key@) == Some(i as int),
        found is None ==> key_position(media@, key@) is None,
{
    let mut found: Option<usize> = None;
    let mut i: usize = 0;
    while i < media.len()
        invariant
            i <= media.len(),
            found matches Some(p) ==> p < i && key_position(media@.take(i as int), key@) == Some(
                p as int,
            ),
            found is None ==> key_position(media@.take(i as int), key@) is None,
        decreases media.len() - i,
    {
        assert(media@.take(i + 1).drop_last() == media@.take(i as int));
        if found.is_none() && same_text(media[i].media_key.as_str(), key) {
            found = Some(i);
        }
        i += 1;
    }
    assert(media@.take(media.len() as int) == media@);
    found
}

/// The word by which the source names a photo.
pub open spec fn photo_word() -> Seq<char> {
    seq!['p', 'h', 'o', 't', 'o']
}

/// What an attachment of the answer resolves to: a photo to its address, all
/// else to the address of its winning encoding; nothing where the address or
/// the encodings are missing.
pub open spec fn resolved(m: TwitterTimelineMedia) -> Option<MediaView> {
    if m.kind@ == photo_word() {
        match m.url {
            Some(u) => Some(MediaView { kind: MediaType::Photo, url: u@ }),
            None => None,
        }
    } else {
        match m.variants {
            Some(vs) => if vs.len() > 0 {
                Some(MediaView { kind: MediaType::Video, url: vs[best_variant(vs@)].url@ })
            } else {
                None
            },
            None => None,
        }
    }
}

/// Resolves one attachment of the answer.
pub fn resolve_media(m: &TwitterTimelineMedia) -> (out: Option<TwitterMedia>)
    ensures
        out is Some <==> resolved(*m) is Some,
        out matches Some(r) ==> Some(r@) == resolved(*m),
{
    proof {
        reveal_strlit("photo");
        assert("photo"@ =~= photo_word());
    }
    if same_text(m.kind.as_str(), "photo") {
        match &m.url {
            Some(u) => Some(TwitterMedia::Photo(u.clone())),
            None => None,
        }
    } else {
        match &m.variants {
            Some(vs) => match pick_variant(vs) {
                Some(i) => Some(TwitterMedia::Video(vs[i].url.clone())),
                None => None,
            },
            None => None,
        }
    }
}

/// The attachments that a list of keys stands for, in the order of the keys;
/// nothing where a key is unknown or its attachment does not resolve.
pub open spec fn resolved_all(keys: Seq<String>, media: Seq<TwitterTimelineMedia>) -> Option<
    Seq<MediaView>,
>
    decreases keys.len(),
{
    if keys.len() == 0 {
        Some(Seq::empty())
    } else {
        match (resolved_all(keys.drop_last(), media), key_position(media, keys.last()@)) {
            (Some(before), Some(p)) => match resolved(media[p]) {
                Some(m) => Some(before.push(m)),
                None => None,
            },
            _ => None,
        }
    }
}

/// Resolves the attachments that `keys` names.
pub fn resolve_all(keys: &Vec<String>, media: &Vec<TwitterTimelineMedia>) -> (out: Option<
    Vec<TwitterMedia>,
>)
    ensures
        out is Some <==> resolved_all(keys@, media@) is Some,
        out matches Some(r) ==> Some(media_views(r@)) == resolved_all(keys@, media@),
{
    let mut res: Vec<TwitterMedia> = Vec::new();
    let mut broken = false;
    let mut i: usize = 0;
    while i < keys.len()
        invariant
            i <= keys.len(),
            broken <==> resolved_all(keys@.take(i as int), media@) is None,
            !broken ==> Some(media_views(res@)) == resolved_all(keys@.take(i as int), media@),
        decreases keys.len() - i,
    {
        assert(keys@.take(i + 1).drop_last() == keys@.take(i as int));
        assert(keys@.take(i + 1).last() == keys@[i as int]);
        if !broken {
            let ghost before = media_views(res@);
            match find_media(media, keys[i].as_str()) {
                Some(p) => match resolve_media(&media[p]) {
                    Some(m) => {
                        res.push(m);
                        assert(media_views(res@) =~= before.push(m@));
                    },
                    None => {
                        broken = true;
                    },
                },
                None => {
                    broken = true;
                },
            }
        }
        i += 1;
    }
    assert(keys@.take(keys.len() as int) == keys@);
    if broken {
        None
    } else {
        Some(res)
    }
}

/// What every short link begins with.
pub open spec fn short_link_prefix() -> Seq<char> {
    seq!['h', 't', 't', 'p', 's', ':', '/', '/', 't', '.', 'c', 'o', '/']
}

/// Whether `s` is a short link and nothing else: the prefix, then at least
/// one character, none of them a space.
pub open spec fn is_short_link(s: Seq<char>) -> bool {
    &&& s.len() > 13
    &&& s.take(13) == short_link_prefix()
    &&& forall|i: int| 13 <= i < s.len() ==> #[trigger] s[i] != ' '
}

/// The first place at or after `from` at which a short link begins that
/// runs to the end of `text`.
pub open spec fn link_start(text: Seq<char>, from: int) -> Option<int>
    decreases text.len() - from,
{
    if from >= text.len() {
        None
    } else if from >= 0 && is_short_link(text.skip(from)) {
        Some(from)
    } else {
        link_start(text, from + 1)
    }
}

/// The text without the short link that ends it, if one does.
pub open spec fn without_short_link(text: Seq<char>) -> Seq<char> {
    match link_start(text, 0) {
        Some(i) => text.take(i),
        None => text,
    }
}

/// Trusted, not proved: compiles `pattern` with `regex::Regex::new` and calls
/// `Regex::replace` on `text`. The one pattern admitted matches the
/// short-link prefix, then one or more characters other than a space, then
/// the end of the text. `replace` puts `replacement`, here empty, in place of
/// the leftmost match and leaves a text without a match as it is; so what
/// comes back is the text up to the first place from which a short link runs
/// to the end.
#[verifier::external_body]
fn replace_short_link(pattern: &str, text: &str, replacement: &str) -> (out: String)
    requires
        pattern@ == "https://t\\.co/[^ ]+$"@,
        replacement@.len() == 0,
    ensures
        out@ == without_short_link(text@),
{
    Regex::new(pattern).unwrap().replace(text, replacement).to_string()
}

/// The text of a post as it is stored: with attachments, the short link that
/// the source appends for them is cut off; without, the text stays as it is.
pub open spec fn sanitized(text: Seq<char>, media_count: nat) -> Seq<char> {
    if media_count == 0 {
        text
    } else {
        without_short_link(text)
    }
}

/// Where a short link is found, it begins inside the text, at or after the
/// place the search began, and runs to the end.
pub proof fn lemma_link_start(text: Seq<char>, from: int)
    requires
        0 <= from,
    ensures
        link_start(text, from) matches Some(i) ==> from <= i < text.len() && is_short_link(
            text.skip(i),
        ),
    decreases text.len() - from,
{
    if from < text.len() && !is_short_link(text.skip(from)) {
        lemma_link_start(text, from + 1);
    }
}

/// Cleans the text of a post that has `media_count` attachments. What comes
/// back is the text or a beginning of it.
pub fn sanitize_text(text: &str, media_count: usize) -> (out: String)
    ensures
        out@ == sanitized(text@, media_count as nat),
        out@.len() <= text@.len(),
        out@ == text@.take(out@.len() as int),
{
    proof {
        lemma_link_start(text@, 0);
        assert(text@.take(text@.len() as int) =~= text@);
    }
    if media_count == 0 {
        text.to_owned()
    } else {
        proof {
            reveal_strlit("");
        }
        replace_short_link("https://t\\.co/[^ ]+$", text, "")
    }
}

/// Whether a post with this id is wanted after `last_id`.
pub open spec fn newer(id: i64, last_id: Option<i64>) -> bool {
    match last_id {
        Some(c) => id > c,
        None => true,
    }
}

/// The keys of a post's attachments.
pub open spec fn tweet_keys(t: TwitterRawTweet) -> Seq<String> {
    match t.attachments {
        Some(a) => a.media_keys@,
        None => Seq::empty(),
    }
}

/// What becomes of one post of an answer.
pub enum TweetOutcome {
    /// Its id is not newer than the cursor.
    Skipped,
    /// It is handed on.
    Kept(TweetView),
    /// Its id or the author's is no number, or an attachment does not resolve.
    Malformed,
}

/// What becomes of the post `t` of an answer about the author `author`,
/// asked for as `user_id`, after `last_id`.
pub open spec fn tweet_outcome(
    t: TwitterRawTweet,
    media: Seq<TwitterTimelineMedia>,
    author: TwitterTimelineUser,
    user_id: Seq<char>,
    last_id: Option<i64>,
) -> TweetOutcome {
    match parse_i64_spec(t.id@) {
        None => TweetOutcome::Malformed,
        Some(id) => if !newer(id, last_id) {
            TweetOutcome::Skipped
        } else {
            match (resolved_all(tweet_keys(t), media), parse_i64_spec(user_id)) {
                (Some(m), Some(author_id)) => TweetOutcome::Kept(
                    TweetView {
                        id,
                        author_id,
                        author_name: author.name@,
                        author_username: author.username@,
                        text: sanitized(t.text@, m.len()),
                        media: m,
                    },
                ),
                _ => TweetOutcome::Malformed,
            }
        },
    }
}

/// The posts kept from `tweets`, in their order; nothing where one of them
/// is malformed.
pub open spec fn kept_tweets(
    tweets: Seq<TwitterRawTweet>,
    media: Seq<TwitterTimelineMedia>,
    author: TwitterTimelineUser,
    user_id: Seq<char>,
    last_id: Option<i64>,
) -> Option<Seq<TweetView>>
    decreases tweets.len(),
{
    if tweets.len() == 0 {
        Some(Seq::empty())
    } else {
        match kept_tweets(tweets.drop_last(), media, author, user_id, last_id) {
            None => None,
            Some(before) => match tweet_outcome(tweets.last(), media, author, user_id, last_id) {
                TweetOutcome::Malformed => None,
                TweetOutcome::Skipped => Some(before),
                TweetOutcome::Kept(v) => Some(before.push(v)),
            },
        }
    }
}

/// The first place in `users` whose id is written as `user_id`.
pub open spec fn author_position(users: Seq<TwitterTimelineUser>, user_id: Seq<char>) -> Option<
    int,
>
    decreases users.len(),
{
    if users.len() == 0 {
        None
    } else {
        match author_position(users.drop_last(), user_id) {
            Some(i) => Some(i),
            None => if users.last().id@ == user_id {
                Some(users.len() - 1)
            } else {
                None
            },
        }
    }
}

/// Finds the author among the users of an answer.
pub fn find_author(users: &Vec<TwitterTimelineUser>, user_id: &str) -> (found: Option<usize>)
    ensures
        found matches Some(i) ==> i < users.len() && author_position(users@, user_id@) == Some(
            i as int,
        ),
        found is None ==> author_position(users@, user_id@) is None,
{
    let mut found: Option<usize> = None;
    let mut i: usize = 0;
    while i < users.len()
        invariant
            i <= users.len(),
            found matches Some(p) ==> p < i && author_position(users@.take(i as int), user_id@)
                == Some(p as int),
            found is None ==> author_position(users@.take(i as int), user_id@) is None,
        decreases users.len() - i,
    {
        assert(users@.take(i + 1).drop_last() == users@.take(i as int));
        if found.is_none() && same_text(users[i].id.as_str(), user_id) {
            found = Some(i);
        }
        i += 1;
    }
    assert(users@.take(users.len() as int) == users@);
    found
}

/// The posts that an answer to a timeline request yields for the author
/// asked for as `user_id`, after `last_id`: none for an answer without posts;
/// nothing where the author is not among the answer's users or a post is
/// malformed.
pub open spec fn timeline(data: TwitterUserTimeline, user_id: Seq<char>, last_id: Option<i64>)
    -> Option<Seq<TweetView>> {
    if data.data.len() == 0 {
        Some(Seq::empty())
    } else {
        match author_position(data.includes.users@, user_id) {
            None => None,
            Some(a) => kept_tweets(
                data.data@,
                data.includes.media@,
                data.includes.users[a],
                user_id,
                last_id,
            ),
        }
    }
}

/// What becomes of one post of an answer.
pub fn tweet_from_raw(
    t: &TwitterRawTweet,
    media: &Vec<TwitterTimelineMedia>,
    author: &TwitterTimelineUser,
    user_id: &str,
    last_id: Option<i64>,
) -> (out: Result<Option<TwitterTweet>, TwitterError>)
    ensures
        match tweet_outcome(*t, media@, *author, user_id@, last_id) {
            TweetOutcome::Malformed => out matches Err(TwitterError::APIError),
            TweetOutcome::Skipped => out matches Ok(None),
            TweetOutcome::Kept(v) => out matches Ok(Some(tweet)) && tweet@ == v,
        },
{
    let id = match parse_i64(t.id.as_str()) {
        Some(id) => id,
        None => {
            return Err(TwitterError::APIError);
        },
    };
    let wanted = match last_id {
        Some(c) => id > c,
        None => true,
    };
    if !wanted {
        return Ok(None);
    }
    let resolved = match &t.attachments {
        Some(a) => resolve_all(&a.media_keys, media),
        None => {
            assert(media_views(Seq::<TwitterMedia>::empty()) =~= Seq::<MediaView>::empty());
            Some(Vec::new())
        },
    };
    let found = match resolved {
        Some(m) => m,
        None => {
            return Err(TwitterError::APIError);
        },
    };
    let author_id = match parse_i64(user_id) {
        Some(a) => a,
        None => {
            return Err(TwitterError::APIError);
        },
    };
    let text = sanitize_text(t.text.as_str(), found.len());
    Ok(
        Some(
            TwitterTweet {
                id,
                author_id,
                author_name: author.name.clone(),
                author_username: author.username.clone(),
                text,
                media: found,
            },
        ),
    )
}

impl TwitterClient {
    /// Turns the answer to a timeline request for the author `user_id` into
    /// posts. Posts whose id is not above `last_id` are left out, whatever
    /// the source sent; the others come in the order of the answer, each with
    /// its attachments resolved and its text cleaned.
    pub fn timeline_from_response(
        data: &TwitterUserTimeline,
        user_id: &str,
        last_id: Option<i64>,
    ) -> (out: Result<Vec<TwitterTweet>, TwitterError>)
        ensures
            match timeline(*data, user_id@, last_id) {
                Some(views) => out matches Ok(tweets) && tweet_views(tweets@) == views,
                None => out matches Err(TwitterError::APIError),
            },
            out matches Ok(tweets) ==> forall|i: int|
                0 <= i < tweets.len() ==> newer(#[trigger] tweets[i].id, last_id),
    {
        let mut res: Vec<TwitterTweet> = Vec::new();
        if data.data.len() == 0 {
            assert(tweet_views(res@) =~= Seq::<TweetView>::empty());
            return Ok(res);
        }
        let author = match find_author(&data.includes.users, user_id) {
            Some(a) => &data.includes.users[a],
            None => {
                return Err(TwitterError::APIError);
            },
        };
        let mut broken = false;
        let mut i: usize = 0;
        assert(tweet_views(res@) =~= Seq::<TweetView>::empty());
        while i < data.data.len()
            invariant
                i <= data.data.len(),
                broken <==> kept_tweets(
                    data.data@.take(i as int),
                    data.includes.media@,
                    *author,
                    user_id@,
                    last_id,
                ) is None,
                !broken ==> Some(tweet_views(res@)) == kept_tweets(
                    data.data@.take(i as int),
                    data.includes.media@,
                    *author,
                    user_id@,
                    last_id,
                ),
                forall|j: int| 0 <= j < res.len() ==> newer(#[trigger] res[j].id, last_id),
            decreases data.data.len() - i,
        {
            assert(data.data@.take(i + 1).drop_last() == data.data@.take(i as int));
            assert(data.data@.take(i + 1).last() == data.data@[i as int]);
            if !broken {
                let ghost before = tweet_views(res@);
                match tweet_from_raw(&data.data[i], &data.includes.media, author, user_id, last_id) {
                    Ok(Some(tweet)) => {
                        res.push(tweet);
                        assert(tweet_views(res@) =~= before.push(tweet@));
                    },
                    Ok(None) => {},
                    Err(_) => {
                        broken = true;
                    },
                }
            }
            i += 1;
        }
        assert(data.data@.take(data.data.len() as int) == data.data@);
        if broken {
            Err(TwitterError::APIError)
        } else {
            Ok(res)
        }
    }

    /// Turns what an answer to a profile request held into a profile, or into
    /// the error that tells an unknown author from a malformed answer.
    pub fn user_from_answer(answer: TwitterUserAnswer) -> (out: Result<TwitterUser, TwitterError>)
        ensures
            match answer {
                TwitterUserAnswer::Profile(res) => match parse_i64_spec(res.data.id@) {
                    Some(id) => out matches Ok(user) && user.id == id && user.name@
                        == res.data.name@ && user.username@ == res.data.username@ && opt_text(
                        user.profile_image_url,
                    ) == opt_text(res.data.profile_image_url),
                    None => out matches Err(TwitterError::APIError),
                },
                TwitterUserAnswer::Unknown => out matches Err(TwitterError::NotFound),
                TwitterUserAnswer::Unreadable => out matches Err(TwitterError::APIError),
            },
    {
        match answer {
            TwitterUserAnswer::Profile(res) => Self::user_from_response(res),
            TwitterUserAnswer::Unknown => Err(TwitterError::NotFound),
            TwitterUserAnswer::Unreadable => Err(TwitterError::APIError),
        }
    }

    /// Turns the answer to a profile request into a profile; the answer is
    /// refused where its id is no decimal number.
    pub fn user_from_response(res: TwitterUserResponse) -> (out: Result<TwitterUser, TwitterError>)
        ensures
            match parse_i64_spec(res.data.id@) {
                Some(id) => out matches Ok(user) && user.id == id && user.name@ == res.data.name@
                    && user.username@ == res.data.username@ && opt_text(user.profile_image_url)
                    == opt_text(res.data.profile_image_url),
                None => out matches Err(TwitterError::APIError),
            },
    {
        match parse_i64(res.data.id.as_str()) {
            Some(id) => Ok(
                TwitterUser {
                    id,
                    name: res.data.name,
                    username: res.data.username,
                    profile_image_url: res.data.profile_image_url,
                },
            ),
            None => Err(TwitterError::APIError),
        }
    }
}


/// The parameters of a request, each with its value.
pub open spec fn query_view(query: Seq<(&'static str, String)>) -> Seq<(Seq<char>, Seq<char>)> {
    Seq::new(query.len(), |i: int| (query[i].0@, query[i].1@))
}

/// The parameters of every timeline request.
pub open spec fn timeline_parameters() -> Seq<(Seq<char>, Seq<char>)> {
    seq![
        ("exclude"@, "replies,retweets"@),
        ("tweet.fields"@, "attachments,author_id"@),
        ("expansions"@, "attachments.media_keys,author_id"@),
        ("media.fields"@, "type,url,variants"@),
        ("max_results"@, "5"@),
    ]
}

/// The parameters of every profile request.
pub open spec fn user_parameters() -> Seq<(Seq<char>, Seq<char>)> {
    seq![("user.fields"@, "name,username,profile_image_url"@)]
}

impl TwitterError {
    /// The sentence that tells what went wrong: the transport's own message,
    /// or that the answer was not of the expected form.
    pub fn message(&self) -> (text: String)
        ensures
            text@ == match *self {
                TwitterError::HttpError(m) => m@,
                TwitterError::NotFound => "Author not found"@,
                TwitterError::APIError => "API returned error"@,
            },
    {
        match self {
            TwitterError::HttpError(m) => m.clone(),
            TwitterError::NotFound => String::from_str("Author not found"),
            TwitterError::APIError => String::from_str("API returned error"),
        }
    }
}

impl TwitterClient {
    /// The parameters of a profile request.
    pub fn user_query() -> (query: Vec<(&'static str, String)>)
        ensures
            query_view(query@) == user_parameters(),
    {
        let mut query: Vec<(&'static str, String)> = Vec::new();
        query.push(("user.fields", String::from_str("name,username,profile_image_url")));
        assert(query_view(query@) =~= user_parameters());
        query
    }

    /// The value of the header that carries the credential.
    pub fn authorization(&self) -> (value: String)
        ensures
            value@ == "Bearer "@ + self.token@,
    {
        let mut value = String::from_str("Bearer ");
        value.append(self.token.as_str());
        value
    }

    /// Where the profile of the author with this platform id is asked for.
    pub fn user_url(user_id: u64) -> (url: String)
        ensures
            url@ == "https://api.twitter.com/2/users/"@ + decimal(user_id as int),
    {
        let mut url = String::from_str("https://api.twitter.com/2/users/");
        let id = u64_to_string(user_id);
        url.append(id.as_str());
        url
    }

    /// Where the profile of the author with this handle is asked for.
    pub fn username_url(username: &str) -> (url: String)
        ensures
            url@ == "https://api.twitter.com/2/users/by/username/"@ + username@,
    {
        let mut url = String::from_str("https://api.twitter.com/2/users/by/username/");
        url.append(username);
        url
    }

    /// Where the timeline of an author is asked for.
    pub fn timeline_url(user_id: &str) -> (url: String)
        ensures
            url@ == "https://api.twitter.com/2/users/"@ + user_id@ + "/tweets"@,
    {
        let mut url = String::from_str("https://api.twitter.com/2/users/");
        url.append(user_id);
        url.append("/tweets");
        url
    }

    /// The parameters of a timeline request: the fixed ones, and after them
    /// the cursor as `since_id` where there is one.
    pub fn timeline_query(last_id: Option<i64>) -> (query: Vec<(&'static str, String)>)
        ensures
            query_view(query@) == match last_id {
                Some(c) => timeline_parameters().push(("since_id"@, decimal(c as int))),
                None => timeline_parameters(),
            },
    {
        let mut query: Vec<(&'static str, String)> = Vec::new();
        query.push(("exclude", String::from_str("replies,retweets")));
        query.push(("tweet.fields", String::from_str("attachments,author_id")));
        query.push(("expansions", String::from_str("attachments.media_keys,author_id")));
        query.push(("media.fields", String::from_str("type,url,variants")));
        query.push(("max_results", String::from_str("5")));
        assert(query_view(query@) =~= timeline_parameters());
        match last_id {
            Some(c) => {
                query.push(("since_id", i64_to_string(c)));
                assert(query_view(query@) =~= timeline_parameters().push(
                    ("since_id"@, decimal(c as int)),
                ));
            },
            None => {},
        }
        query
    }
}

/// Posts that were kept after one cursor and lie at or below a second,
/// no lower cursor are all passed over after the second.
proof fn lemma_kept_again(
    tweets: Seq<TwitterRawTweet>,
    media: Seq<TwitterTimelineMedia>,
    author: TwitterTimelineUser,
    user_id: Seq<char>,
    first: Option<i64>,
    second: Option<i64>,
)
    requires
        kept_tweets(tweets, media, author, user_id, first) is Some,
        forall|i: int|
            0 <= i < kept_tweets(tweets, media, author, user_id, first).unwrap().len() ==> !newer(
                (#[trigger] kept_tweets(tweets, media, author, user_id, first).unwrap()[i]).id,
                second,
            ),
        first matches Some(c) ==> !newer(c, second),
    ensures
        kept_tweets(tweets, media, author, user_id, second) == Some(Seq::<TweetView>::empty()),
    decreases tweets.len(),
{
    if tweets.len() > 0 {
        let kept = kept_tweets(tweets, media, author, user_id, first).unwrap();
        let before = kept_tweets(tweets.drop_last(), media, author, user_id, first).unwrap();
        assert forall|i: int| 0 <= i < before.len() implies !newer(
            (#[trigger] before[i]).id,
            second,
        ) by {
            assert(before[i] == kept[i]);
        }
        lemma_kept_again(tweets.drop_last(), media, author, user_id, first, second);
        match tweet_outcome(tweets.last(), media, author, user_id, first) {
            TweetOutcome::Kept(v) => {
                assert(kept[kept.len() - 1] == v);
            },
            _ => {},
        }
    }
}

/// Asking again adds nothing: when every post that an answer yielded after
/// one cursor lies at or below a second cursor that is no lower than the
/// first, as the stored maximum is once those posts are stored, the same
/// answer yields no post after the second.
pub proof fn lemma_reingestion_adds_nothing(
    data: TwitterUserTimeline,
    user_id: Seq<char>,
    first: Option<i64>,
    second: Option<i64>,
)
    requires
        timeline(data, user_id, first) is Some,
        forall|i: int|
            0 <= i < timeline(data, user_id, first).unwrap().len() ==> !newer(
                (#[trigger] timeline(data, user_id, first).unwrap()[i]).id,
                second,
            ),
        first matches Some(c) ==> !newer(c, second),
    ensures
        timeline(data, user_id, second) == Some(Seq::<TweetView>::empty()),
{
    if data.data.len() > 0 {
        let a = author_position(data.includes.users@, user_id).unwrap();
        lemma_kept_again(
            data.data@,
            data.includes.media@,
            data.includes.users[a],
            user_id,
            first,
            second,
        );
    }
}

} // verus!
