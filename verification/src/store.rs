//! The tables as plain rows, with the rules that keep them sound: platform
//! ids are unique, ids are never reused, and an attachment always belongs to
//! a stored post. A process that keeps its rows in a database gives its
//! tables the same meaning; what is proved here says what that meaning is.

use crate::entity::author;
use crate::entity::follow;
use crate::entity::post;
use crate::entity::post_media;
use crate::entity::scheduled_post;
use crate::models::twitterclient::{opt_text, TwitterUser};
use crate::models::twitterclient::MediaView;
use crate::workers::twitter::{NewMedia, NewPost, NewPostView};
use vstd::prelude::*;

verus! {

/// A copy of an optional text.
pub fn copy_opt(o: &Option<String>) -> (out: Option<String>)
    ensures
        opt_text(out) == opt_text(*o),
{
    match o {
        Some(s) => Some(s.clone()),
        None => None,
    }
}

/// The tables.
pub struct Store {
    pub authors: Vec<author::Model>,
    pub posts: Vec<post::Model>,
    pub media: Vec<post_media::Model>,
    pub scheduled: Vec<scheduled_post::Model>,
    pub follows: Vec<follow::Model>,
    /// The highest id ever given to an author.
    pub author_seq: i64,
    /// The highest id ever given to a post.
    pub post_seq: i64,
    /// The highest id ever given to an attachment.
    pub media_seq: i64,
    /// The highest id ever given to a queue entry.
    pub scheduled_seq: i64,
}

/// No two author rows share a platform id.
pub open spec fn distinct_authors(rows: Seq<author::Row>) -> bool {
    forall|i: int, j: int|
        0 <= i < j < rows.len() ==> (#[trigger] rows[i]).platform_id != (
        #[trigger] rows[j]).platform_id
}

/// Whether an author with this platform id is stored.
pub open spec fn holds_author(rows: Seq<author::Row>, platform_id: i64) -> bool {
    exists|k: int| 0 <= k < rows.len() && (#[trigger] rows[k]).platform_id == platform_id
}

/// The place of the author with this platform id.
pub open spec fn author_place(rows: Seq<author::Row>, platform_id: i64) -> int {
    choose|k: int| 0 <= k < rows.len() && (#[trigger] rows[k]).platform_id == platform_id
}

/// The row that holds a profile under the internal id `id`.
pub open spec fn profile_row(id: i64, user: TwitterUser) -> author::Row {
    author::Row {
        id,
        platform_id: user.id,
        name: user.name@,
        username: user.username@,
        avatar_url: opt_text(user.profile_image_url),
    }
}

/// The authors after a profile was written: the row with the profile's
/// platform id takes the new name, handle and avatar and keeps its internal
/// id; where there is none, a row with the id `fresh` is added at the end.
pub open spec fn upserted(rows: Seq<author::Row>, fresh: i64, user: TwitterUser) -> Seq<
    author::Row,
> {
    if holds_author(rows, user.id) {
        let k = author_place(rows, user.id);
        rows.update(k, profile_row(rows[k].id, user))
    } else {
        rows.push(profile_row(fresh, user))
    }
}

/// How many rows hold this platform id.
pub open spec fn author_count(rows: Seq<author::Row>, platform_id: i64) -> nat
    decreases rows.len(),
{
    if rows.len() == 0 {
        0
    } else if rows.last().platform_id == platform_id {
        author_count(rows.drop_last(), platform_id) + 1
    } else {
        author_count(rows.drop_last(), platform_id)
    }
}

/// Rows none of which holds the platform id count none.
pub proof fn lemma_count_absent(rows: Seq<author::Row>, platform_id: i64)
    requires
        !holds_author(rows, platform_id),
    ensures
        author_count(rows, platform_id) == 0,
    decreases rows.len(),
{
    if rows.len() > 0 {
        assert(rows[rows.len() - 1].platform_id != platform_id);
        assert forall|k: int| 0 <= k < rows.drop_last().len() implies (#[trigger] rows.drop_last()[k]).platform_id
            != platform_id by {
            assert(rows[k].platform_id != platform_id);
        }
        lemma_count_absent(rows.drop_last(), platform_id);
    }
}

/// Among rows with distinct platform ids, one that is held is counted once.
pub proof fn lemma_count_present(rows: Seq<author::Row>, platform_id: i64)
    requires
        distinct_authors(rows),
        holds_author(rows, platform_id),
    ensures
        author_count(rows, platform_id) == 1,
    decreases rows.len(),
{
    let k = author_place(rows, platform_id);
    let before = rows.drop_last();
    assert forall|i: int, j: int| 0 <= i < j < before.len() implies (#[trigger] before[i]).platform_id
        != (#[trigger] before[j]).platform_id by {
        assert(rows[i].platform_id != rows[j].platform_id);
    }
    if rows.last().platform_id == platform_id {
        assert forall|i: int| 0 <= i < before.len() implies (#[trigger] before[i]).platform_id
            != platform_id by {
            assert(rows[i].platform_id != rows[rows.len() - 1].platform_id);
        }
        lemma_count_absent(before, platform_id);
    } else {
        assert(k < rows.len() - 1);
        assert(before[k].platform_id == platform_id);
        lemma_count_present(before, platform_id);
    }
}

/// Writing a profile keeps the platform ids distinct and leaves exactly one
/// row with the profile's platform id, which holds the profile.
pub proof fn lemma_upserted(rows: Seq<author::Row>, fresh: i64, user: TwitterUser)
    requires
        distinct_authors(rows),
    ensures
        distinct_authors(upserted(rows, fresh, user)),
        holds_author(upserted(rows, fresh, user), user.id),
        author_count(upserted(rows, fresh, user), user.id) == 1,
        ({
            let after = upserted(rows, fresh, user);
            let row = after[author_place(after, user.id)];
            row.name == user.name@ && row.username == user.username@ && row.avatar_url
                == opt_text(user.profile_image_url)
        }),
{
    let after = upserted(rows, fresh, user);
    if holds_author(rows, user.id) {
        let k = author_place(rows, user.id);
        assert(after[k].platform_id == user.id);
        assert forall|i: int, j: int| 0 <= i < j < after.len() implies (#[trigger] after[i]).platform_id
            != (#[trigger] after[j]).platform_id by {
            assert(rows[i].platform_id != rows[j].platform_id);
        }
    } else {
        assert(after[rows.len() as int].platform_id == user.id);
        assert forall|i: int, j: int| 0 <= i < j < after.len() implies (#[trigger] after[i]).platform_id
            != (#[trigger] after[j]).platform_id by {
            if j < rows.len() {
                assert(rows[i].platform_id != rows[j].platform_id);
            } else {
                assert(rows[i].platform_id != user.id);
            }
        }
    }
    lemma_count_present(after, user.id);
    let place = author_place(after, user.id);
    if holds_author(rows, user.id) {
        let k = author_place(rows, user.id);
        if place != k {
            if place < k {
                assert(after[place].platform_id != after[k].platform_id);
            } else {
                assert(after[k].platform_id != after[place].platform_id);
            }
        }
    } else {
        if place != rows.len() {
            assert(after[place].platform_id != after[rows.len() as int].platform_id);
        }
    }
}

/// Writing two profiles with one platform id, one after the other, leaves
/// exactly one row with that platform id, and it holds the second profile.
pub proof fn lemma_upsert_twice(
    rows: Seq<author::Row>,
    fresh_first: i64,
    first: TwitterUser,
    fresh_second: i64,
    second: TwitterUser,
)
    requires
        distinct_authors(rows),
        first.id == second.id,
    ensures
        ({
            let after = upserted(upserted(rows, fresh_first, first), fresh_second, second);
            let row = after[author_place(after, second.id)];
            &&& author_count(after, second.id) == 1
            &&& after.len() == upserted(rows, fresh_first, first).len()
            &&& row.name == second.name@
            &&& row.username == second.username@
            &&& row.avatar_url == opt_text(second.profile_image_url)
        }),
{
    lemma_upserted(rows, fresh_first, first);
    lemma_upserted(upserted(rows, fresh_first, first), fresh_second, second);
}

/// Whether `cursor` is the highest platform id among those of `posts` that
/// are the author's, or nothing where none is.
pub open spec fn is_cursor_of(posts: Seq<post::Model>, author_id: i64, cursor: Option<i64>)
    -> bool {
    match cursor {
        Some(c) => {
            &&& exists|k: int|
                0 <= k < posts.len() && (#[trigger] posts[k]).author_id == author_id
                    && posts[k].platform_id == c
            &&& forall|k: int|
                0 <= k < posts.len() && (#[trigger] posts[k]).author_id == author_id
                    ==> posts[k].platform_id <= c
        },
        None => forall|k: int| 0 <= k < posts.len() ==> (#[trigger] posts[k]).author_id != author_id,
    }
}

/// Every author has a cursor.
pub proof fn lemma_cursor_exists(posts: Seq<post::Model>, author_id: i64)
    ensures
        exists|c: Option<i64>| is_cursor_of(posts, author_id, c),
    decreases posts.len(),
{
    if posts.len() == 0 {
        assert(is_cursor_of(posts, author_id, None));
    } else {
        let head = posts.drop_last();
        let last = posts.last();
        lemma_cursor_exists(head, author_id);
        let c = choose|c: Option<i64>| is_cursor_of(head, author_id, c);
        assert forall|k: int| 0 <= k < head.len() implies head[k] == posts[k] by {}
        if last.author_id != author_id {
            match c {
                Some(x) => {
                    let k = choose|k: int|
                        0 <= k < head.len() && (#[trigger] head[k]).author_id == author_id
                            && head[k].platform_id == x;
                    assert(posts[k] == head[k]);
                    assert forall|j: int|
                        0 <= j < posts.len() && (#[trigger] posts[j]).author_id
                            == author_id implies posts[j].platform_id <= x by {
                        assert(posts[j] == head[j]);
                    }
                },
                None => {
                    assert forall|j: int| 0 <= j < posts.len() implies (#[trigger] posts[j]).author_id
                        != author_id by {
                        if j < head.len() {
                            assert(posts[j] == head[j]);
                        }
                    }
                },
            }
            assert(is_cursor_of(posts, author_id, c));
        } else {
            let top = match c {
                Some(x) => if last.platform_id > x {
                    last.platform_id
                } else {
                    x
                },
                None => last.platform_id,
            };
            match c {
                Some(x) => {
                    let k = choose|k: int|
                        0 <= k < head.len() && (#[trigger] head[k]).author_id == author_id
                            && head[k].platform_id == x;
                    assert(posts[k] == head[k]);
                    assert(posts[posts.len() - 1] == last);
                    assert forall|j: int|
                        0 <= j < posts.len() && (#[trigger] posts[j]).author_id
                            == author_id implies posts[j].platform_id <= top by {
                        if j < head.len() {
                            assert(posts[j] == head[j]);
                        }
                    }
                },
                None => {
                    assert(posts[posts.len() - 1] == last);
                    assert forall|j: int|
                        0 <= j < posts.len() && (#[trigger] posts[j]).author_id
                            == author_id implies posts[j].platform_id <= top by {
                        if j < head.len() {
                            assert(posts[j] == head[j]);
                        }
                    }
                },
            }
            assert(is_cursor_of(posts, author_id, Some(top)));
        }
    }
}

/// No two attachment rows share an id.
pub open spec fn distinct_media(rows: Seq<post_media::Row>) -> bool {
    forall|i: int, j: int| 0 <= i < j < rows.len() ==> (#[trigger] rows[i]).id != (#[trigger] rows[j]).id
}

impl Store {
    /// The rules that every operation keeps.
    pub open spec fn wf(&self) -> bool {
        &&& distinct_authors(author::rows(self.authors@))
        &&& forall|i: int| 0 <= i < self.authors.len() ==> (#[trigger] self.authors[i]).id
            <= self.author_seq
        &&& forall|i: int, j: int|
            0 <= i < j < self.posts.len() ==> (#[trigger] self.posts[i]).platform_id != (
            #[trigger] self.posts[j]).platform_id
        &&& forall|i: int| 0 <= i < self.posts.len() ==> (#[trigger] self.posts[i]).id
            <= self.post_seq
        &&& forall|i: int, j: int|
            0 <= i < j < self.posts.len() ==> (#[trigger] self.posts[i]).id != (
            #[trigger] self.posts[j]).id
        &&& 0 <= self.media_seq
        &&& forall|i: int| 0 <= i < self.media.len() ==> (#[trigger] self.media[i]).id
            <= self.media_seq
        &&& distinct_media(post_media::rows(self.media@))
        &&& self.follows@.no_duplicates()
        &&& forall|i: int|
            0 <= i < self.media.len() ==> self.holds_post((#[trigger] self.media[i]).post_id)
        &&& forall|i: int| 0 <= i < self.scheduled.len() ==> (#[trigger] self.scheduled[i]).id
            <= self.scheduled_seq
    }

    /// Whether a post with this internal id is stored.
    pub open spec fn holds_post(&self, id: i64) -> bool {
        exists|k: int| 0 <= k < self.posts.len() && (#[trigger] self.posts[k]).id == id
    }

    /// Whether a post with this platform id is stored.
    pub open spec fn holds_platform_post(&self, platform_id: i64) -> bool {
        exists|k: int|
            0 <= k < self.posts.len() && (#[trigger] self.posts[k]).platform_id == platform_id
    }

    /// Empty tables.
    pub fn new() -> (store: Self)
        ensures
            store.wf(),
            store.authors.len() == 0,
            store.posts.len() == 0,
            store.media.len() == 0,
            store.scheduled.len() == 0,
            store.follows.len() == 0,
            store.author_seq == 0,
            store.post_seq == 0,
            store.media_seq == 0,
            store.scheduled_seq == 0,
    {
        Store {
            authors: Vec::new(),
            posts: Vec::new(),
            media: Vec::new(),
            scheduled: Vec::new(),
            follows: Vec::new(),
            author_seq: 0,
            post_seq: 0,
            media_seq: 0,
            scheduled_seq: 0,
        }
    }

    /// Writes a profile: the author with the profile's platform id takes the
    /// new name, handle and avatar; where there is none, a new author is
    /// added. Gives the author's internal id, or nothing, with the tables
    /// untouched, where a new author is needed and no id is left.
    #[verifier::loop_isolation(false)]
    pub fn upsert_author(&mut self, user: &TwitterUser) -> (id: Option<i64>)
        requires
            old(self).wf(),
        ensures
            final(self).wf(),
            final(self).posts == old(self).posts,
            final(self).media == old(self).media,
            final(self).scheduled == old(self).scheduled,
            final(self).follows == old(self).follows,
            final(self).post_seq == old(self).post_seq,
            final(self).media_seq == old(self).media_seq,
            final(self).scheduled_seq == old(self).scheduled_seq,
            final(self).author_seq == if holds_author(author::rows(old(self).authors@), user.id)
                || id is None {
                old(self).author_seq as int
            } else {
                old(self).author_seq + 1
            },
            id is None <==> !holds_author(author::rows(old(self).authors@), user.id) && old(
                self,
            ).author_seq == i64::MAX,
            id is None ==> *final(self) == *old(self),
            id matches Some(n) ==> {
                let after = author::rows(final(self).authors@);
                &&& after == upserted(
                    author::rows(old(self).authors@),
                    (old(self).author_seq + 1) as i64,
                    *user,
                )
                &&& after[author_place(after, user.id)].id == n
                &&& author_count(after, user.id) == 1
            },
    {
        let ghost before = author::rows(self.authors@);
        let mut found: Option<usize> = None;
        let mut i: usize = 0;
        while i < self.authors.len()
            invariant
                i <= self.authors.len(),
                *self == *old(self),
                found matches Some(k) ==> k < i && self.authors[k as int].platform_id == user.id,
                found is None ==> forall|j: int|
                    0 <= j < i ==> (#[trigger] before[j]).platform_id != user.id,
            decreases self.authors.len() - i,
        {
            if found.is_none() && self.authors[i].platform_id == user.id {
                found = Some(i);
            }
            i += 1;
        }
        match found {
            Some(k) => {
                assert(before[k as int].platform_id == user.id);
                let ghost place = author_place(before, user.id);
                assert(place == k) by {
                    if place < k {
                        assert(before[place].platform_id != before[k as int].platform_id);
                    } else if place > k {
                        assert(before[k as int].platform_id != before[place].platform_id);
                    }
                }
                let id = self.authors[k].id;
                let row = author::Model {
                    id,
                    platform_id: user.id,
                    name: user.name.clone(),
                    username: user.username.clone(),
                    avatar_url: copy_opt(&user.profile_image_url),
                };
                self.authors.set(k, row);
                proof {
                    let after = author::rows(self.authors@);
                    assert(after =~= before.update(k as int, profile_row(id, *user)));
                    lemma_upserted(before, (old(self).author_seq + 1) as i64, *user);
                    let p = author_place(after, user.id);
                    assert(after[k as int].platform_id == user.id);
                    if p < k {
                        assert(after[p].platform_id != after[k as int].platform_id);
                    } else if p > k {
                        assert(after[k as int].platform_id != after[p].platform_id);
                    }
                    assert forall|j: int| 0 <= j < self.authors.len() implies (
                    #[trigger] self.authors[j]).id <= self.author_seq by {
                        if j != k {
                            assert(self.authors[j] == old(self).authors[j]);
                        }
                    }
                }
                Some(id)
            },
            None => {
                assert(!holds_author(before, user.id));
                if self.author_seq == i64::MAX {
                    return None;
                }
                let id = self.author_seq + 1;
                let row = author::Model {
                    id,
                    platform_id: user.id,
                    name: user.name.clone(),
                    username: user.username.clone(),
                    avatar_url: copy_opt(&user.profile_image_url),
                };
                self.authors.push(row);
                self.author_seq = id;
                proof {
                    let after = author::rows(self.authors@);
                    assert(after =~= before.push(profile_row(id, *user)));
                    lemma_upserted(before, id, *user);
                    let p = author_place(after, user.id);
                    let last = before.len() as int;
                    assert(after[last].platform_id == user.id);
                    if p != last {
                        assert(after[p].platform_id != after[last].platform_id);
                    }
                    assert forall|j: int| 0 <= j < self.authors.len() implies (
                    #[trigger] self.authors[j]).id <= self.author_seq by {
                        if j < last {
                            assert(self.authors[j] == old(self).authors[j]);
                        }
                    }
                }
                Some(id)
            },
        }
    }

    /// Whether `cursor` is the highest platform id among the stored posts of
    /// the author, or nothing where the author has no stored post.
    pub open spec fn is_cursor(&self, author_id: i64, cursor: Option<i64>) -> bool {
        is_cursor_of(self.posts@, author_id, cursor)
    }

    /// The cursor of an author: the highest platform id among the author's
    /// stored posts.
    pub open spec fn cursor(&self, author_id: i64) -> Option<i64> {
        choose|c: Option<i64>| self.is_cursor(author_id, c)
    }

    /// The cursor of an author is a cursor indeed.
    pub proof fn lemma_has_cursor(&self, author_id: i64)
        ensures
            self.is_cursor(author_id, self.cursor(author_id)),
    {
        lemma_cursor_exists(self.posts@, author_id);
        let c = choose|c: Option<i64>| is_cursor_of(self.posts@, author_id, c);
        assert(self.is_cursor(author_id, c));
    }

    /// An author has one cursor and no other.
    pub proof fn lemma_cursor_unique(&self, author_id: i64, c: Option<i64>)
        requires
            self.is_cursor(author_id, c),
        ensures
            self.cursor(author_id) == c,
    {
        let d = self.cursor(author_id);
        assert(self.is_cursor(author_id, d));
        match (c, d) {
            (Some(x), Some(y)) => {
                let k = choose|k: int|
                    0 <= k < self.posts.len() && (#[trigger] self.posts[k]).author_id == author_id
                        && self.posts[k].platform_id == x;
                let m = choose|k: int|
                    0 <= k < self.posts.len() && (#[trigger] self.posts[k]).author_id == author_id
                        && self.posts[k].platform_id == y;
                assert(self.posts[k].platform_id <= y);
                assert(self.posts[m].platform_id <= x);
            },
            (Some(x), None) => {
                let k = choose|k: int|
                    0 <= k < self.posts.len() && (#[trigger] self.posts[k]).author_id == author_id
                        && self.posts[k].platform_id == x;
                assert(self.posts[k].author_id != author_id);
            },
            (None, Some(y)) => {
                let m = choose|k: int|
                    0 <= k < self.posts.len() && (#[trigger] self.posts[k]).author_id == author_id
                        && self.posts[k].platform_id == y;
                assert(self.posts[m].author_id != author_id);
            },
            (None, None) => {},
        }
    }

    /// The highest platform id among the stored posts of an author: the
    /// cursor for the next request.
    pub fn last_post_id(&self, author_id: i64) -> (cursor: Option<i64>)
        ensures
            self.is_cursor(author_id, cursor),
            cursor == self.cursor(author_id),
    {
        let mut cursor: Option<i64> = None;
        let mut i: usize = 0;
        while i < self.posts.len()
            invariant
                i <= self.posts.len(),
                match cursor {
                    Some(c) => {
                        &&& exists|k: int|
                            0 <= k < i && (#[trigger] self.posts[k]).author_id == author_id
                                && self.posts[k].platform_id == c
                        &&& forall|k: int|
                            0 <= k < i && (#[trigger] self.posts[k]).author_id == author_id
                                ==> self.posts[k].platform_id <= c
                    },
                    None => forall|k: int|
                        0 <= k < i ==> (#[trigger] self.posts[k]).author_id != author_id,
                },
            decreases self.posts.len() - i,
        {
            if self.posts[i].author_id == author_id {
                let higher = match cursor {
                    Some(c) => self.posts[i].platform_id > c,
                    None => true,
                };
                if higher {
                    cursor = Some(self.posts[i].platform_id);
                }
            }
            i += 1;
        }
        proof {
            self.lemma_cursor_unique(author_id, cursor);
        }
        cursor
    }

    /// Stores a post with its attachments, all of it or nothing. A post whose
    /// platform id is already stored is refused, and so is one for which the
    /// ids do not suffice; the tables then stay as they were.
    #[verifier::loop_isolation(false)]
    pub fn insert_post(&mut self, new: &NewPost) -> (out: Result<i64, StoreError>)
        requires
            old(self).wf(),
        ensures
            final(self).wf(),
            final(self).authors == old(self).authors,
            final(self).scheduled == old(self).scheduled,
            final(self).follows == old(self).follows,
            final(self).author_seq == old(self).author_seq,
            final(self).scheduled_seq == old(self).scheduled_seq,
            match out {
                Ok(id) => {
                    &&& !old(self).holds_platform_post(new.platform_id)
                    &&& id == old(self).post_seq + 1
                    &&& final(self).post_seq == id
                    &&& final(self).media_seq == old(self).media_seq + new.media.len()
                    &&& post::rows(final(self).posts@) == post::rows(old(self).posts@).push(
                        post_row(id, new@),
                    )
                    &&& post_media::rows(final(self).media@) == post_media::rows(old(self).media@)
                        + media_rows(old(self).media_seq + 1, id, new@.media)
                },
                Err(StoreError::Conflict) => old(self).holds_platform_post(new.platform_id)
                    && *final(self) == *old(self),
                Err(StoreError::Exhausted) => !old(self).holds_platform_post(new.platform_id) && (
                old(self).post_seq == i64::MAX || old(self).media_seq + new.media.len()
                    > i64::MAX) && *final(self) == *old(self),
            },
    {
        let mut i: usize = 0;
        while i < self.posts.len()
            invariant
                i <= self.posts.len(),
                *self == *old(self),
                forall|j: int| 0 <= j < i ==> (#[trigger] self.posts[j]).platform_id
                    != new.platform_id,
            decreases self.posts.len() - i,
        {
            if self.posts[i].platform_id == new.platform_id {
                return Err(StoreError::Conflict);
            }
            i += 1;
        }
        if self.post_seq == i64::MAX {
            return Err(StoreError::Exhausted);
        }
        let room = (i64::MAX - self.media_seq) as u64;
        if new.media.len() as u64 > room {
            return Err(StoreError::Exhausted);
        }
        let id = self.post_seq + 1;
        let row = post::Model {
            id,
            platform_id: new.platform_id,
            author_id: new.author_id,
            text: new.text.clone(),
            source_url: new.source_url.clone(),
            source_text: new.source_text.clone(),
        };
        self.posts.push(row);
        self.post_seq = id;
        let first = self.media_seq;
        append_media(&mut self.media, first, id, &new.media);
        self.media_seq = first + new.media.len() as i64;
        proof {
            let last = old(self).posts.len() as int;
            assert(post::rows(self.posts@) =~= post::rows(old(self).posts@).push(
                post_row(id, new@),
            ));
            assert(self.posts[last].id == id);
            assert forall|k: int| 0 <= k < self.media.len() implies self.holds_post(
                (#[trigger] self.media[k]).post_id,
            ) by {
                if k < old(self).media.len() {
                    assert(self.media[k] == old(self).media[k]);
                    assert(old(self).holds_post(old(self).media[k].post_id));
                    let p = choose|p: int|
                        0 <= p < old(self).posts.len() && (#[trigger] old(self).posts[p]).id == old(
                            self,
                        ).media[k].post_id;
                    assert(self.posts[p] == old(self).posts[p]);
                } else {
                    assert(self.posts[last].id == self.media[k].post_id);
                }
            }
            assert forall|a: int, b: int| 0 <= a < b < self.posts.len() implies (
            #[trigger] self.posts[a]).platform_id != (#[trigger] self.posts[b]).platform_id by {
                assert(self.posts[a] == old(self).posts[a]);
                if b < last {
                    assert(self.posts[b] == old(self).posts[b]);
                }
            }
            assert forall|a: int, b: int| 0 <= a < b < self.posts.len() implies (
            #[trigger] self.posts[a]).id != (#[trigger] self.posts[b]).id by {
                assert(self.posts[a] == old(self).posts[a]);
                if b < last {
                    assert(self.posts[b] == old(self).posts[b]);
                }
            }
            assert forall|a: int| 0 <= a < self.posts.len() implies (#[trigger] self.posts[a]).id
                <= self.post_seq by {
                if a < last {
                    assert(self.posts[a] == old(self).posts[a]);
                }
            }
            assert forall|a: int| 0 <= a < self.media.len() implies (#[trigger] self.media[a]).id
                <= self.media_seq by {
                if a < old(self).media.len() {
                    assert(self.media[a] == old(self).media[a]);
                }
            }
        }
        Ok(id)
    }

    /// Deletes the queue entries whose id is among `ids`, in one batch; the
    /// others stay in their order.
    pub fn remove_scheduled(&mut self, ids: &Vec<i64>)
        requires
            old(self).wf(),
        ensures
            final(self).wf(),
            final(self).authors == old(self).authors,
            final(self).posts == old(self).posts,
            final(self).media == old(self).media,
            final(self).follows == old(self).follows,
            final(self).author_seq == old(self).author_seq,
            final(self).post_seq == old(self).post_seq,
            final(self).media_seq == old(self).media_seq,
            final(self).scheduled_seq == old(self).scheduled_seq,
            scheduled_post::rows(final(self).scheduled@) == without_ids(
                scheduled_post::rows(old(self).scheduled@),
                ids@,
            ),
            forall|i: int|
                0 <= i < final(self).scheduled.len() ==> !ids@.contains(
                    (#[trigger] final(self).scheduled[i]).id,
                ),
    {
        let mut kept: Vec<scheduled_post::Model> = Vec::new();
        let mut i: usize = 0;
        assert(scheduled_post::rows(kept@) =~= Seq::<scheduled_post::Row>::empty());
        while i < self.scheduled.len()
            invariant
                i <= self.scheduled.len(),
                *self == *old(self),
                self.wf(),
                scheduled_post::rows(kept@) == without_ids(
                    scheduled_post::rows(self.scheduled@).take(i as int),
                    ids@,
                ),
                forall|j: int| 0 <= j < kept.len() ==> !ids@.contains((#[trigger] kept[j]).id),
                forall|j: int| 0 <= j < kept.len() ==> (#[trigger] kept[j]).id
                    <= self.scheduled_seq,
            decreases self.scheduled.len() - i,
        {
            let ghost all = scheduled_post::rows(self.scheduled@);
            assert(all.take(i + 1).drop_last() == all.take(i as int));
            assert(all.take(i + 1).last() == self.scheduled[i as int]@);
            let ghost before = scheduled_post::rows(kept@);
            if !has_id(ids, self.scheduled[i].id) {
                let row = self.scheduled[i].duplicate();
                kept.push(row);
                assert(scheduled_post::rows(kept@) =~= before.push(row@));
            }
            i += 1;
        }
        assert(scheduled_post::rows(self.scheduled@).take(self.scheduled.len() as int)
            == scheduled_post::rows(self.scheduled@));
        self.scheduled = kept;
    }

    /// Deletes the queue entry `id` if it belongs to the user; tells whether
    /// there was one.
    pub fn delete_scheduled(&mut self, id: i64, user_id: i64) -> (found: bool)
        requires
            old(self).wf(),
        ensures
            final(self).wf(),
            final(self).authors == old(self).authors,
            final(self).posts == old(self).posts,
            final(self).media == old(self).media,
            final(self).follows == old(self).follows,
            final(self).author_seq == old(self).author_seq,
            final(self).post_seq == old(self).post_seq,
            final(self).media_seq == old(self).media_seq,
            final(self).scheduled_seq == old(self).scheduled_seq,
            scheduled_post::rows(final(self).scheduled@) == without_entry(
                scheduled_post::rows(old(self).scheduled@),
                id,
                user_id,
            ),
            found == (final(self).scheduled.len() != old(self).scheduled.len()),
    {
        let mut kept: Vec<scheduled_post::Model> = Vec::new();
        let mut i: usize = 0;
        assert(scheduled_post::rows(kept@) =~= Seq::<scheduled_post::Row>::empty());
        while i < self.scheduled.len()
            invariant
                i <= self.scheduled.len(),
                *self == *old(self),
                self.wf(),
                kept.len() <= i,
                scheduled_post::rows(kept@) == without_entry(
                    scheduled_post::rows(self.scheduled@).take(i as int),
                    id,
                    user_id,
                ),
                forall|j: int| 0 <= j < kept.len() ==> (#[trigger] kept[j]).id
                    <= self.scheduled_seq,
            decreases self.scheduled.len() - i,
        {
            let ghost all = scheduled_post::rows(self.scheduled@);
            assert(all.take(i + 1).drop_last() == all.take(i as int));
            assert(all.take(i + 1).last() == self.scheduled[i as int]@);
            let ghost before = scheduled_post::rows(kept@);
            if !(self.scheduled[i].id == id && self.scheduled[i].user_id == user_id) {
                let row = self.scheduled[i].duplicate();
                kept.push(row);
                assert(scheduled_post::rows(kept@) =~= before.push(row@));
            }
            i += 1;
        }
        assert(scheduled_post::rows(self.scheduled@).take(self.scheduled.len() as int)
            == scheduled_post::rows(self.scheduled@));
        let found = kept.len() != self.scheduled.len();
        self.scheduled = kept;
        found
    }

    /// The attachments whose id is among `ids`, in the order of the table.
    pub fn media_by_ids(&self, ids: &Vec<i64>) -> (found: Vec<post_media::Model>)
        ensures
            post_media::rows(found@) == selected(post_media::rows(self.media@), ids@),
    {
        let mut found: Vec<post_media::Model> = Vec::new();
        let mut i: usize = 0;
        let ghost all = post_media::rows(self.media@);
        assert(post_media::rows(found@) =~= Seq::<post_media::Row>::empty());
        while i < self.media.len()
            invariant
                i <= self.media.len(),
                all == post_media::rows(self.media@),
                post_media::rows(found@) == selected(all.take(i as int), ids@),
            decreases self.media.len() - i,
        {
            assert(all.take(i + 1).drop_last() == all.take(i as int));
            assert(all.take(i + 1).last() == self.media[i as int]@);
            let ghost before = post_media::rows(found@);
            if has_id(ids, self.media[i].id) {
                let row = self.media[i].duplicate();
                found.push(row);
                assert(post_media::rows(found@) =~= before.push(row@));
            }
            i += 1;
        }
        assert(all.take(self.media.len() as int) == all);
        found
    }
}

/// The rows whose id is among `ids`, in their order.
pub open spec fn selected(media: Seq<post_media::Row>, ids: Seq<i64>) -> Seq<post_media::Row>
    decreases media.len(),
{
    if media.len() == 0 {
        Seq::empty()
    } else if ids.contains(media.last().id) {
        selected(media.drop_last(), ids).push(media.last())
    } else {
        selected(media.drop_last(), ids)
    }
}

/// Where no id is asked for, no row is selected.
pub proof fn lemma_selected_none(media: Seq<post_media::Row>, ids: Seq<i64>)
    requires
        ids.len() == 0,
    ensures
        selected(media, ids) == Seq::<post_media::Row>::empty(),
    decreases media.len(),
{
    if media.len() > 0 {
        lemma_selected_none(media.drop_last(), ids);
    }
}

/// The rows but those with the id `id` that belong to the user.
pub open spec fn without_entry(rows: Seq<scheduled_post::Row>, id: i64, user_id: i64) -> Seq<
    scheduled_post::Row,
>
    decreases rows.len(),
{
    if rows.len() == 0 {
        Seq::empty()
    } else if rows.last().id == id && rows.last().user_id == user_id {
        without_entry(rows.drop_last(), id, user_id)
    } else {
        without_entry(rows.drop_last(), id, user_id).push(rows.last())
    }
}

/// Why the store refused a post.
#[derive(Clone, Copy, Debug, PartialEq, Eq, Structural)]
pub enum StoreError {
    /// A post with this platform id is already stored.
    Conflict,
    /// No id is left.
    Exhausted,
}

/// The row that stores a new post under the internal id `id`.
pub open spec fn post_row(id: i64, new: NewPostView) -> post::Row {
    post::Row {
        id,
        platform_id: new.platform_id,
        author_id: new.author_id,
        text: new.text,
        source_url: new.source_url,
        source_text: new.source_text,
    }
}

/// The rows that store the attachments of the post `post_id`, with
/// consecutive ids from `first_id` on.
pub open spec fn media_rows(first_id: int, post_id: i64, media: Seq<MediaView>) -> Seq<
    post_media::Row,
> {
    Seq::new(
        media.len(),
        |i: int|
            post_media::Row {
                id: (first_id + i) as i64,
                post_id,
                media_type: media[i].kind,
                media_url: media[i].url,
            },
    )
}

/// Adds the rows for the attachments of the post `post_id` at the end of the
/// table; `last_id` is the highest id in use.
fn append_media(
    media: &mut Vec<post_media::Model>,
    last_id: i64,
    post_id: i64,
    items: &Vec<NewMedia>,
)
    requires
        0 <= last_id,
        last_id + items.len() <= i64::MAX,
    ensures
        final(media).len() == old(media).len() + items.len(),
        forall|k: int| 0 <= k < old(media).len() ==> final(media)[k] == old(media)[k],
        forall|k: int|
            old(media).len() <= k < final(media).len() ==> (#[trigger] final(media)[k]).post_id
                == post_id && final(media)[k].id <= last_id + items.len(),
        post_media::rows(final(media)@) == post_media::rows(old(media)@) + media_rows(
            last_id + 1,
            post_id,
            Seq::new(items@.len(), |i: int| items@[i]@),
        ),
{
    let ghost views = Seq::new(items@.len(), |i: int| items@[i]@);
    let mut i: usize = 0;
    while i < items.len()
        invariant
            i <= items.len(),
            0 <= last_id,
            last_id + items.len() <= i64::MAX,
            views == Seq::new(items@.len(), |i: int| items@[i]@),
            media.len() == old(media).len() + i,
            forall|k: int| 0 <= k < old(media).len() ==> media[k] == old(media)[k],
            forall|k: int|
                old(media).len() <= k < media.len() ==> (#[trigger] media[k])@ == media_rows(
                    last_id + 1,
                    post_id,
                    views,
                )[k - old(media).len()],
        decreases items.len() - i,
    {
        let row = post_media::Model {
            id: last_id + 1 + i as i64,
            post_id,
            media_type: items[i].media_type,
            media_url: items[i].media_url.clone(),
        };
        media.push(row);
        i += 1;
    }
    assert(post_media::rows(media@) =~= post_media::rows(old(media)@) + media_rows(
        last_id + 1,
        post_id,
        views,
    ));
}

/// The rows whose id is not among `ids`, in their order.
pub open spec fn without_ids(rows: Seq<scheduled_post::Row>, ids: Seq<i64>) -> Seq<
    scheduled_post::Row,
>
    decreases rows.len(),
{
    if rows.len() == 0 {
        Seq::empty()
    } else if ids.contains(rows.last().id) {
        without_ids(rows.drop_last(), ids)
    } else {
        without_ids(rows.drop_last(), ids).push(rows.last())
    }
}

/// Whether `id` is among `ids`.
pub fn has_id(ids: &Vec<i64>, id: i64) -> (found: bool)
    ensures
        found == ids@.contains(id),
{
    let mut i: usize = 0;
    while i < ids.len()
        invariant
            i <= ids.len(),
            forall|j: int| 0 <= j < i ==> ids[j] != id,
        decreases ids.len() - i,
    {
        if ids[i] == id {
            return true;
        }
        i += 1;
    }
    false
}

} // verus!
