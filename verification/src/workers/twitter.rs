//! Ingestion: from an author's timeline to the rows to store.

use crate::entity::author;
use crate::entity::post;
use crate::entity::post_media;
use crate::store::{media_rows, post_row, Store, StoreError};
use crate::entity::post_media::MediaType;
use crate::models::twitterclient::{
    lemma_reingestion_adds_nothing, newer, timeline, MediaView, TweetView, TwitterClient,
    TwitterError, TwitterMedia, TwitterTweet, TwitterUserTimeline,
};
use crate::text::{decimal, i64_to_string};
use vstd::prelude::*;

verus! {

/// An attachment to store with a new post.
#[derive(Clone, Debug)]
pub struct NewMedia {
    pub media_type: MediaType,
    pub media_url: String,
}

/// A post to store, with its attachments: one unit, stored whole or not at
/// all.
#[derive(Clone, Debug)]
pub struct NewPost {
    pub platform_id: i64,
    pub author_id: i64,
    pub text: String,
    pub source_text: String,
    pub source_url: String,
    pub media: Vec<NewMedia>,
}

/// What a post to store holds.
pub struct NewPostView {
    pub platform_id: i64,
    pub author_id: i64,
    pub text: Seq<char>,
    pub source_text: Seq<char>,
    pub source_url: Seq<char>,
    pub media: Seq<MediaView>,
}

impl View for NewMedia {
    type V = MediaView;

    open spec fn view(&self) -> MediaView {
        MediaView { kind: self.media_type, url: self.media_url@ }
    }
}

impl View for NewPost {
    type V = NewPostView;

    open spec fn view(&self) -> NewPostView {
        NewPostView {
            platform_id: self.platform_id,
            author_id: self.author_id,
            text: self.text@,
            source_text: self.source_text@,
            source_url: self.source_url@,
            media: Seq::new(self.media@.len(), |i: int| self.media@[i]@),
        }
    }
}

/// What each post of a list holds.
pub open spec fn new_post_views(posts: Seq<NewPost>) -> Seq<NewPostView> {
    Seq::new(posts.len(), |i: int| posts[i]@)
}

/// The address of a post at its source, from the author's handle and the
/// post's platform id.
pub open spec fn source_url_of(username: Seq<char>, id: i64) -> Seq<char> {
    "https://twitter.com/"@ + username + "/status/"@ + decimal(id as int)
}

/// Builds the address of a post at its source.
pub fn source_url(username: &str, id: i64) -> (url: String)
    ensures
        url@ == source_url_of(username@, id),
{
    let mut url = String::from_str("https://twitter.com/");
    url.append(username);
    url.append("/status/");
    let number = i64_to_string(id);
    url.append(number.as_str());
    url
}

/// The row for a post of the author with the internal id `author_id`: the
/// author's display name is the text of the link to the source.
pub open spec fn post_for(author_id: i64, tweet: TweetView) -> NewPostView {
    NewPostView {
        platform_id: tweet.id,
        author_id,
        text: tweet.text,
        source_text: tweet.author_name,
        source_url: source_url_of(tweet.author_username, tweet.id),
        media: tweet.media,
    }
}

/// Builds the rows for one post.
pub fn post_from_tweet(author_id: i64, tweet: &TwitterTweet) -> (post: NewPost)
    ensures
        post@ == post_for(author_id, tweet@),
{
    let mut media: Vec<NewMedia> = Vec::new();
    let mut i: usize = 0;
    while i < tweet.media.len()
        invariant
            i <= tweet.media.len(),
            media.len() == i,
            forall|j: int| 0 <= j < i ==> (#[trigger] media[j])@ == tweet.media[j]@,
        decreases tweet.media.len() - i,
    {
        let item = match &tweet.media[i] {
            TwitterMedia::Photo(u) => NewMedia { media_type: MediaType::Photo, media_url: u.clone() },
            TwitterMedia::Video(u) => NewMedia { media_type: MediaType::Video, media_url: u.clone() },
        };
        media.push(item);
        i += 1;
    }
    let post = NewPost {
        platform_id: tweet.id,
        author_id,
        text: tweet.text.clone(),
        source_text: tweet.author_name.clone(),
        source_url: source_url(tweet.author_username.as_str(), tweet.id),
        media,
    };
    assert(post@.media =~= tweet@.media);
    post
}

/// The rows for the posts of a timeline, in its order.
pub open spec fn posts_for(author_id: i64, tweets: Seq<TweetView>) -> Seq<NewPostView> {
    Seq::new(tweets.len(), |i: int| post_for(author_id, tweets[i]))
}

/// Builds the rows for the posts of a timeline, in its order.
pub fn posts_from_timeline(author_id: i64, tweets: &Vec<TwitterTweet>) -> (posts: Vec<NewPost>)
    ensures
        posts.len() == tweets.len(),
        forall|i: int| 0 <= i < posts.len() ==> (#[trigger] posts[i])@ == post_for(
            author_id,
            tweets[i]@,
        ),
{
    let mut posts: Vec<NewPost> = Vec::new();
    let mut i: usize = 0;
    while i < tweets.len()
        invariant
            i <= tweets.len(),
            posts.len() == i,
            forall|j: int| 0 <= j < i ==> (#[trigger] posts[j])@ == post_for(author_id, tweets[j]@),
        decreases tweets.len() - i,
    {
        posts.push(post_from_tweet(author_id, &tweets[i]));
        i += 1;
    }
    posts
}

/// What one pass stores for an author whose newest stored post has the
/// platform id `last_post`: the rows for the timeline's posts above it.
pub open spec fn posts_to_store_spec(
    author: author::Row,
    last_post: Option<i64>,
    data: TwitterUserTimeline,
) -> Option<Seq<NewPostView>> {
    match timeline(data, decimal(author.platform_id as int), last_post) {
        Some(tweets) => Some(posts_for(author.id, tweets)),
        None => None,
    }
}

/// Decides what to store of an answer to a timeline request for `author`.
/// No post is stored whose platform id is not above `last_post`, the highest
/// one already stored for the author.
pub fn posts_to_store(author: &author::Model, last_post: Option<i64>, data: &TwitterUserTimeline)
    -> (out: Result<Vec<NewPost>, TwitterError>)
    ensures
        match posts_to_store_spec(author@, last_post, *data) {
            Some(views) => out matches Ok(posts) && new_post_views(posts@) == views,
            None => out matches Err(TwitterError::APIError),
        },
        out matches Ok(posts) ==> forall|i: int|
            0 <= i < posts.len() ==> newer(#[trigger] posts[i].platform_id, last_post),
{
    let id = i64_to_string(author.platform_id);
    match TwitterClient::timeline_from_response(data, id.as_str(), last_post) {
        Ok(tweets) => {
            let posts = posts_from_timeline(author.id, &tweets);
            assert(new_post_views(posts@) =~= posts_for(
                author.id,
                timeline(*data, decimal(author.platform_id as int), last_post).unwrap(),
            ));
            Ok(posts)
        },
        Err(_) => Err(TwitterError::APIError),
    }
}


/// Why a pass stored less than the timeline held.
#[derive(Clone, Copy, Debug, PartialEq, Eq, Structural)]
pub enum IngestError {
    /// The answer of the feed source was malformed.
    Source,
    /// The store refused a post.
    Store(StoreError),
}

/// The posts after the first `n` of `views` were stored, one after the
/// other, each under the next id.
pub open spec fn with_stored(before: Seq<post::Row>, seq: i64, views: Seq<NewPostView>, n: int)
    -> Seq<post::Row> {
    before + Seq::new(n as nat, |i: int| post_row((seq + 1 + i) as i64, views[i]))
}

/// How many attachments the first `n` of `views` have together.
pub open spec fn media_count(views: Seq<NewPostView>, n: int) -> int
    decreases n,
{
    if n <= 0 {
        0
    } else {
        media_count(views, n - 1) + views[n - 1].media.len()
    }
}

/// The attachments after the first `n` of `views` were stored: each post's
/// attachments follow those of the post before it, under the next ids.
pub open spec fn with_stored_media(
    before: Seq<post_media::Row>,
    media_seq: i64,
    post_seq: i64,
    views: Seq<NewPostView>,
    n: int,
) -> Seq<post_media::Row>
    decreases n,
{
    if n <= 0 {
        before
    } else {
        with_stored_media(before, media_seq, post_seq, views, n - 1) + media_rows(
            media_seq + 1 + media_count(views, n - 1),
            (post_seq + n) as i64,
            views[n - 1].media,
        )
    }
}

/// One author's share of a pass over the tables: reads the author's cursor,
/// takes from the answer the posts above it and stores them in the order of
/// the answer, each with its attachments. Posts already stored stay as they
/// are, and no post is added whose platform id is not above the cursor.
/// Where the store refuses a post, those before it stay stored.
#[verifier::loop_isolation(false)]
pub fn ingest_author(store: &mut Store, author: &author::Model, data: &TwitterUserTimeline) -> (out:
    Result<usize, IngestError>)
    requires
        old(store).wf(),
    ensures
        final(store).wf(),
        final(store).authors == old(store).authors,
        final(store).scheduled == old(store).scheduled,
        final(store).follows == old(store).follows,
        final(store).author_seq == old(store).author_seq,
        final(store).scheduled_seq == old(store).scheduled_seq,
        match posts_to_store_spec(author@, old(store).cursor(author.id), *data) {
            None => out == Err::<usize, IngestError>(IngestError::Source) && *final(store) == *old(
                store,
            ),
            Some(views) => exists|n: int|
                {
                    &&& 0 <= n <= views.len()
                    &&& final(store).post_seq == old(store).post_seq + n
                    &&& final(store).media_seq == old(store).media_seq + media_count(views, n)
                    &&& #[trigger] with_stored(
                        post::rows(old(store).posts@),
                        old(store).post_seq,
                        views,
                        n,
                    ) == post::rows(final(store).posts@)
                    &&& with_stored_media(
                        post_media::rows(old(store).media@),
                        old(store).media_seq,
                        old(store).post_seq,
                        views,
                        n,
                    ) == post_media::rows(final(store).media@)
                    &&& match out {
                        Ok(m) => m == n && n == views.len(),
                        Err(IngestError::Store(e)) => {
                            &&& n < views.len()
                            &&& e == StoreError::Conflict <==> final(store).holds_platform_post(
                                views[n].platform_id,
                            )
                            &&& e == StoreError::Exhausted ==> final(store).post_seq == i64::MAX
                                || final(store).media_seq + views[n].media.len() > i64::MAX
                        },
                        Err(IngestError::Source) => false,
                    }
                },
        },
        old(store).posts.len() <= final(store).posts.len(),
        forall|k: int|
            0 <= k < old(store).posts.len() ==> (#[trigger] final(store).posts[k])@ == old(
                store,
            ).posts[k]@,
        forall|k: int|
            old(store).posts.len() <= k < final(store).posts.len() ==> (
            #[trigger] final(store).posts[k]).author_id == author.id && newer(
                final(store).posts[k].platform_id,
                old(store).cursor(author.id),
            ),
{
    let cursor = store.last_post_id(author.id);
    let posts = match posts_to_store(author, cursor, data) {
        Ok(posts) => posts,
        Err(_) => {
            return Err(IngestError::Source);
        },
    };
    let ghost views = new_post_views(posts@);
    let ghost before = post::rows(old(store).posts@);
    let ghost seq = old(store).post_seq;
    let mut i: usize = 0;
    assert(with_stored(before, seq, views, 0) =~= post::rows(store.posts@));
    while i < posts.len()
        invariant
            i <= posts.len(),
            store.wf(),
            store.authors == old(store).authors,
            store.scheduled == old(store).scheduled,
            store.follows == old(store).follows,
            store.author_seq == old(store).author_seq,
            store.scheduled_seq == old(store).scheduled_seq,
            store.post_seq == seq + i,
            store.media_seq == old(store).media_seq + media_count(views, i as int),
            post::rows(store.posts@) == with_stored(before, seq, views, i as int),
            post_media::rows(store.media@) == with_stored_media(
                post_media::rows(old(store).media@),
                old(store).media_seq,
                seq,
                views,
                i as int,
            ),
        decreases posts.len() - i,
    {
        assert(views[i as int] == posts[i as int]@);
        match store.insert_post(&posts[i]) {
            Ok(_) => {
                assert(post::rows(store.posts@) =~= with_stored(before, seq, views, i + 1));
            },
            Err(e) => {
                proof {
                    lemma_stored_rows(*old(store), *store, author.id, views, i as int);
                }
                return Err(IngestError::Store(e));
            },
        }
        i += 1;
    }
    proof {
        lemma_stored_rows(*old(store), *store, author.id, views, i as int);
    }
    Ok(i)
}

/// What the rows of the posts say of the posts themselves, once the first
/// `n` of `views` were stored.
proof fn lemma_stored_rows(
    before: Store,
    after: Store,
    author_id: i64,
    views: Seq<NewPostView>,
    n: int,
)
    requires
        0 <= n <= views.len(),
        post::rows(after.posts@) == with_stored(post::rows(before.posts@), before.post_seq, views, n),
        forall|i: int|
            0 <= i < views.len() ==> (#[trigger] views[i]).author_id == author_id && newer(
                views[i].platform_id,
                before.cursor(author_id),
            ),
    ensures
        before.posts.len() <= after.posts.len(),
        forall|k: int|
            0 <= k < before.posts.len() ==> (#[trigger] after.posts[k])@ == before.posts[k]@,
        forall|k: int|
            before.posts.len() <= k < after.posts.len() ==> (#[trigger] after.posts[k]).author_id
                == author_id && newer(after.posts[k].platform_id, before.cursor(author_id)),
{
    let old_rows = post::rows(before.posts@);
    let new_rows = post::rows(after.posts@);
    assert(new_rows.len() == old_rows.len() + n);
    assert forall|k: int| 0 <= k < before.posts.len() implies (#[trigger] after.posts[k])@
        == before.posts[k]@ by {
        assert(new_rows[k] == old_rows[k]);
    }
    assert forall|k: int| before.posts.len() <= k < after.posts.len() implies (
    #[trigger] after.posts[k]).author_id == author_id && newer(
        after.posts[k].platform_id,
        before.cursor(author_id),
    ) by {
        let i = k - before.posts.len();
        assert(new_rows[k] == post_row((before.post_seq + 1 + i) as i64, views[i]));
        assert(views[i].author_id == author_id);
    }
}

/// A second pass stores nothing: once all that an answer held for an author
/// is stored, the author's cursor has risen so far that the same answer
/// holds nothing to store.
pub proof fn lemma_second_pass_stores_nothing(
    before: Store,
    after: Store,
    author: author::Model,
    data: TwitterUserTimeline,
)
    requires
        posts_to_store_spec(author@, before.cursor(author.id), data) is Some,
        post::rows(after.posts@) == with_stored(
            post::rows(before.posts@),
            before.post_seq,
            posts_to_store_spec(author@, before.cursor(author.id), data).unwrap(),
            posts_to_store_spec(author@, before.cursor(author.id), data).unwrap().len() as int,
        ),
    ensures
        posts_to_store_spec(author@, after.cursor(author.id), data) == Some(
            Seq::<NewPostView>::empty(),
        ),
{
    let user_id = decimal(author.platform_id as int);
    let first = before.cursor(author.id);
    let second = after.cursor(author.id);
    before.lemma_has_cursor(author.id);
    after.lemma_has_cursor(author.id);
    let tweets = timeline(data, user_id, first).unwrap();
    let views = posts_for(author.id, tweets);
    let old_rows = post::rows(before.posts@);
    let new_rows = post::rows(after.posts@);
    assert(new_rows.len() == old_rows.len() + views.len());
    assert forall|i: int| 0 <= i < tweets.len() implies !newer((#[trigger] tweets[i]).id, second) by {
        let k = old_rows.len() + i;
        assert(new_rows[k] == post_row((before.post_seq + 1 + i) as i64, views[i]));
        assert(after.posts[k]@ == new_rows[k]);
        assert(after.posts@[k].author_id == author.id);
        assert(after.posts@[k].platform_id == tweets[i].id);
    }
    if let Some(c) = first {
        let k = choose|k: int|
            0 <= k < before.posts@.len() && (#[trigger] before.posts@[k]).author_id == author.id
                && before.posts@[k].platform_id == c;
        assert(new_rows[k] == old_rows[k]);
        assert(after.posts[k]@ == before.posts[k]@);
        assert(after.posts@[k].author_id == author.id);
        assert(after.posts@[k].platform_id == c);
    }
    lemma_reingestion_adds_nothing(data, user_id, first, second);
    assert(posts_for(author.id, Seq::<TweetView>::empty()) =~= Seq::<NewPostView>::empty());
}

} // verus!
