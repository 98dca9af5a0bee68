//! Publishing: from queued posts to messages, and from the outcome of a
//! delivery to what the loop does next.

use crate::entity::post_media;
use crate::entity::post_media::MediaType;
use crate::entity::scheduled_post;
use crate::entity::telegram_user;
use crate::store::{has_id, lemma_selected_none, selected, without_ids};
use crate::text::{chars_of, ids_of_text, parse_ids, string_of};
use vstd::prelude::*;

verus! {

/// What a character becomes in markup: the three reserved characters become
/// their entities, every other character stays.
pub open spec fn escaped_char(c: char) -> Seq<char> {
    if c == '<' {
        seq!['&', 'l', 't', ';']
    } else if c == '>' {
        seq!['&', 'g', 't', ';']
    } else if c == '&' {
        seq!['&', 'a', 'm', 'p', ';']
    } else {
        seq![c]
    }
}

/// A text with each character escaped, in order.
pub open spec fn escaped(s: Seq<char>) -> Seq<char>
    decreases s.len(),
{
    if s.len() == 0 {
        Seq::empty()
    } else {
        escaped(s.drop_last()) + escaped_char(s.last())
    }
}

/// An escaped text holds neither `<` nor `>`.
pub proof fn lemma_escaped_has_no_tags(s: Seq<char>)
    ensures
        forall|i: int| 0 <= i < escaped(s).len() ==> escaped(s)[i] != '<' && escaped(s)[i] != '>',
    decreases s.len(),
{
    if s.len() > 0 {
        lemma_escaped_has_no_tags(s.drop_last());
        let head = escaped(s.drop_last());
        let tail = escaped_char(s.last());
        assert forall|i: int| 0 <= i < escaped(s).len() implies escaped(s)[i] != '<' && escaped(
            s,
        )[i] != '>' by {
            if i < head.len() {
                assert(escaped(s)[i] == head[i]);
            } else {
                assert(escaped(s)[i] == tail[i - head.len()]);
            }
        }
    }
}

/// Escapes a text for embedding in markup.
pub fn escape_html(text: &str) -> (out: String)
    ensures
        out@ == escaped(text@),
        forall|i: int| 0 <= i < out@.len() ==> out@[i] != '<' && out@[i] != '>',
{
    let v = chars_of(text);
    let mut buff: Vec<char> = Vec::new();
    let mut i: usize = 0;
    while i < v.len()
        invariant
            i <= v.len(),
            buff@ == escaped(v@.take(i as int)),
        decreases v.len() - i,
    {
        assert(v@.take(i + 1).drop_last() == v@.take(i as int));
        let ghost before = buff@;
        let c = v[i];
        if c == '<' {
            buff.push('&');
            buff.push('l');
            buff.push('t');
            buff.push(';');
        } else if c == '>' {
            buff.push('&');
            buff.push('g');
            buff.push('t');
            buff.push(';');
        } else if c == '&' {
            buff.push('&');
            buff.push('a');
            buff.push('m');
            buff.push('p');
            buff.push(';');
        } else {
            buff.push(c);
        }
        assert(buff@ =~= before + escaped_char(c));
        i += 1;
    }
    proof {
        assert(v@.take(v.len() as int) == v@);
        lemma_escaped_has_no_tags(text@);
    }
    string_of(&buff)
}

/// The message for a queued post: the escaped text, an empty line, and the
/// escaped source text as a bold link to the source.
pub open spec fn rendered(text: Seq<char>, source_url: Seq<char>, source: Seq<char>) -> Seq<char> {
    escaped(text) + "\n\n<b><a href=\""@ + source_url + "\">"@ + escaped(source) + "</a></b>"@
}

/// Writes the message for a queued post.
pub fn render_message(post: &scheduled_post::Model) -> (out: String)
    ensures
        out@ == rendered(post.post_text@, post.post_source_url@, post.post_source@),
{
    let mut out = escape_html(post.post_text.as_str());
    out.append("\n\n<b><a href=\"");
    out.append(post.post_source_url.as_str());
    out.append("\">");
    let source = escape_html(post.post_source.as_str());
    out.append(source.as_str());
    out.append("</a></b>");
    out
}

/// A queued post that has somewhere to go.
#[derive(Clone, Debug)]
pub struct Job {
    /// Id of the queue entry.
    pub entry_id: i64,
    /// The channel it goes to.
    pub chat_id: i64,
    /// The message, in markup.
    pub text: String,
    /// Ids of the attachments to send with it.
    pub media_ids: Vec<i64>,
}

/// What a job is.
pub struct JobView {
    pub entry_id: i64,
    pub chat_id: i64,
    pub text: Seq<char>,
    pub media_ids: Seq<i64>,
}

impl View for Job {
    type V = JobView;

    open spec fn view(&self) -> JobView {
        JobView {
            entry_id: self.entry_id,
            chat_id: self.chat_id,
            text: self.text@,
            media_ids: self.media_ids@,
        }
    }
}

/// What each job of a list is.
pub open spec fn job_views(jobs: Seq<Job>) -> Seq<JobView> {
    Seq::new(jobs.len(), |i: int| jobs[i]@)
}

/// Where the posts of a user go: nowhere for a missing user or one without a
/// linked channel.
pub open spec fn destination(user: Option<telegram_user::Model>) -> Option<i64> {
    match user {
        Some(u) => u.channel,
        None => None,
    }
}

/// The job for a queued post that goes to `chat_id`.
pub open spec fn job_for(post: scheduled_post::Model, chat_id: i64) -> JobView {
    JobView {
        entry_id: post.id,
        chat_id,
        text: rendered(post.post_text@, post.post_source_url@, post.post_source@),
        media_ids: ids_of_text(post.media_ids@),
    }
}

/// The jobs of a pass: one for each queued post whose user has a linked
/// channel, in the order of the queue.
pub open spec fn jobs_of(entries: Seq<(scheduled_post::Model, Option<telegram_user::Model>)>)
    -> Seq<JobView>
    decreases entries.len(),
{
    if entries.len() == 0 {
        Seq::empty()
    } else {
        match destination(entries.last().1) {
            Some(chat_id) => jobs_of(entries.drop_last()).push(job_for(entries.last().0, chat_id)),
            None => jobs_of(entries.drop_last()),
        }
    }
}

/// Every queued post whose user has a linked channel has its job in the
/// pass.
pub proof fn lemma_destined_entry_has_job(
    entries: Seq<(scheduled_post::Model, Option<telegram_user::Model>)>,
    i: int,
)
    requires
        0 <= i < entries.len(),
        destination(entries[i].1) is Some,
    ensures
        exists|j: int|
            0 <= j < jobs_of(entries).len() && #[trigger] jobs_of(entries)[j] == job_for(
                entries[i].0,
                destination(entries[i].1).unwrap(),
            ),
    decreases entries.len(),
{
    let head = entries.drop_last();
    let wanted = job_for(entries[i].0, destination(entries[i].1).unwrap());
    if i == entries.len() - 1 {
        let j = jobs_of(head).len() as int;
        assert(jobs_of(entries)[j] == wanted);
    } else {
        assert(head[i] == entries[i]);
        lemma_destined_entry_has_job(head, i);
        let j = choose|j: int| 0 <= j < jobs_of(head).len() && #[trigger] jobs_of(head)[j] == wanted;
        assert(jobs_of(entries)[j] == jobs_of(head)[j]);
    }
}

/// Builds the jobs of a pass from the queue joined with its users.
pub fn plan_jobs(entries: &Vec<(scheduled_post::Model, Option<telegram_user::Model>)>) -> (jobs:
    Vec<Job>)
    ensures
        job_views(jobs@) == jobs_of(entries@),
{
    let mut jobs: Vec<Job> = Vec::new();
    let mut i: usize = 0;
    assert(job_views(jobs@) =~= Seq::<JobView>::empty());
    while i < entries.len()
        invariant
            i <= entries.len(),
            job_views(jobs@) == jobs_of(entries@.take(i as int)),
        decreases entries.len() - i,
    {
        assert(entries@.take(i + 1).drop_last() == entries@.take(i as int));
        assert(entries@.take(i + 1).last() == entries@[i as int]);
        let ghost before = job_views(jobs@);
        let chat = match &entries[i].1 {
            Some(u) => u.channel,
            None => None,
        };
        match chat {
            Some(chat_id) => {
                let post = &entries[i].0;
                let job = Job {
                    entry_id: post.id,
                    chat_id,
                    text: render_message(post),
                    media_ids: parse_ids(post.media_ids.as_str()),
                };
                jobs.push(job);
                assert(job_views(jobs@) =~= before.push(job@));
            },
            None => {},
        }
        i += 1;
    }
    assert(entries@.take(entries.len() as int) == entries@);
    jobs
}

/// One item of a media group.
#[derive(Clone, Debug)]
pub struct InputMedia {
    /// Photo or video.
    pub kind: MediaType,
    /// Where the file is.
    pub url: String,
    /// The text under the item.
    pub caption: Option<String>,
    /// Whether the caption is markup.
    pub html: bool,
}

/// What an item of a media group is.
pub struct InputMediaView {
    pub kind: MediaType,
    pub url: Seq<char>,
    pub caption: Option<Seq<char>>,
    pub html: bool,
}

impl View for InputMedia {
    type V = InputMediaView;

    open spec fn view(&self) -> InputMediaView {
        InputMediaView {
            kind: self.kind,
            url: self.url@,
            caption: match self.caption {
                Some(c) => Some(c@),
                None => None,
            },
            html: self.html,
        }
    }
}

/// What each item of a media group is.
pub open spec fn item_views(items: Seq<InputMedia>) -> Seq<InputMediaView> {
    Seq::new(items.len(), |i: int| items[i]@)
}

/// What is sent for a job.
#[derive(Clone, Debug)]
pub enum Delivery {
    /// A single message, in markup.
    Message(String),
    /// A group of attachments; the message is the caption of the first.
    MediaGroup(Vec<InputMedia>),
}

/// What a delivery is.
pub enum DeliveryView {
    Message(Seq<char>),
    MediaGroup(Seq<InputMediaView>),
}

impl View for Delivery {
    type V = DeliveryView;

    open spec fn view(&self) -> DeliveryView {
        match self {
            Delivery::Message(t) => DeliveryView::Message(t@),
            Delivery::MediaGroup(items) => DeliveryView::MediaGroup(item_views(items@)),
        }
    }
}

/// The media group for the chosen rows: each row as an item of its kind, the
/// message and the markup mode on the first item only.
pub open spec fn group_of(rows: Seq<post_media::Row>, text: Seq<char>) -> Seq<InputMediaView> {
    Seq::new(
        rows.len(),
        |i: int|
            InputMediaView {
                kind: rows[i].media_type,
                url: rows[i].media_url,
                caption: if i == 0 {
                    Some(text)
                } else {
                    None
                },
                html: i == 0,
            },
    )
}

/// What is sent for a job, given the attachments on record. The ids the job
/// names are resolved to rows first: where they resolve to none, because the
/// job names none or because none of them is on record, the bare message is
/// sent; else the group of the rows they resolve to.
pub open spec fn delivery_for(job: JobView, media: Seq<post_media::Row>) -> DeliveryView {
    let rows = selected(media, job.media_ids);
    if rows.len() == 0 {
        DeliveryView::Message(job.text)
    } else {
        DeliveryView::MediaGroup(group_of(rows, job.text))
    }
}

/// Decides what to send for a job. `media` holds the attachments on record;
/// rows that the job does not name are passed over. The message is always
/// sent: alone where no attachment is found, else as the caption of the
/// first.
pub fn plan_delivery(job: &Job, media: &Vec<post_media::Model>) -> (out: Delivery)
    ensures
        out@ == delivery_for(job@, post_media::rows(media@)),
        match out@ {
            DeliveryView::Message(text) => text == job.text@,
            DeliveryView::MediaGroup(items) => items.len() > 0 && items[0].caption == Some(
                job.text@,
            ) && items[0].html,
        },
{
    let mut items: Vec<InputMedia> = Vec::new();
    let ghost all = post_media::rows(media@);
    let ghost mut rows: Seq<post_media::Row> = Seq::empty();
    let mut i: usize = 0;
    while i < media.len()
        invariant
            i <= media.len(),
            all == post_media::rows(media@),
            rows == selected(all.take(i as int), job.media_ids@),
            items.len() == rows.len(),
            forall|j: int|
                0 <= j < items.len() ==> (#[trigger] items[j])@ == group_of(rows, job.text@)[j],
        decreases media.len() - i,
    {
        assert(all.take(i + 1).drop_last() == all.take(i as int));
        assert(all.take(i + 1).last() == media@[i as int]@);
        if has_id(&job.media_ids, media[i].id) {
            let first = items.len() == 0;
            let item = InputMedia {
                kind: media[i].media_type,
                url: media[i].media_url.clone(),
                caption: if first {
                    Some(job.text.clone())
                } else {
                    None
                },
                html: first,
            };
            items.push(item);
            proof {
                rows = rows.push(media@[i as int]@);
            }
        }
        i += 1;
    }
    assert(all.take(media.len() as int) == all);
    if items.len() == 0 {
        Delivery::Message(job.text.clone())
    } else {
        let out = Delivery::MediaGroup(items);
        assert(out@ =~= delivery_for(job@, all)) by {
            assert(item_views(items@) =~= group_of(rows, job.text@));
        }
        out
    }
}

/// How an attempt to deliver ended.
#[derive(Clone, Copy, Debug, PartialEq, Eq, Structural)]
pub enum SendOutcome {
    /// The transport took the message.
    Sent,
    /// The transport asked to wait this many seconds.
    RetryAfter(u64),
    /// The transport refused for another reason.
    Failed,
}

/// What the loop does before it turns to the next job.
#[derive(Clone, Copy, Debug, PartialEq, Eq, Structural)]
pub enum Reaction {
    /// Nothing.
    Continue,
    /// Sleep this many seconds.
    Pause(u64),
    /// Write the failure to the log.
    Report,
}

/// The reaction that an outcome calls for.
pub open spec fn reaction_to(outcome: SendOutcome) -> Reaction {
    match outcome {
        SendOutcome::Sent => Reaction::Continue,
        SendOutcome::RetryAfter(secs) => Reaction::Pause(secs),
        SendOutcome::Failed => Reaction::Report,
    }
}

/// A pass over the jobs: those before `next` have had their one attempt.
pub struct Pass {
    pub jobs: Vec<Job>,
    pub next: usize,
}

impl Pass {
    /// The position is within the jobs.
    pub open spec fn wf(&self) -> bool {
        self.next <= self.jobs.len()
    }

    /// The ids of the queue entries that have had their attempt.
    pub open spec fn marked(&self) -> Seq<i64> {
        Seq::new(self.next as nat, |i: int| self.jobs[i].entry_id)
    }

    /// Whether every job has had its attempt.
    pub open spec fn done(&self) -> bool {
        self.next == self.jobs.len()
    }

    /// Begins a pass over the queue joined with its users.
    pub fn start(entries: &Vec<(scheduled_post::Model, Option<telegram_user::Model>)>) -> (pass:
        Self)
        ensures
            pass.wf(),
            pass.next == 0,
            job_views(pass.jobs@) == jobs_of(entries@),
    {
        Pass { jobs: plan_jobs(entries), next: 0 }
    }

    /// The job whose attempt is due, if any is left.
    pub fn current(&self) -> (job: Option<&Job>)
        requires
            self.wf(),
        ensures
            self.done() <==> job is None,
            job matches Some(j) ==> *j == self.jobs[self.next as int],
    {
        if self.next < self.jobs.len() {
            Some(&self.jobs[self.next])
        } else {
            None
        }
    }

    /// Records the outcome of the current job's attempt. Whatever the
    /// outcome, the job is marked for removal and is not tried again.
    pub fn settle(&mut self, outcome: SendOutcome) -> (reaction: Reaction)
        requires
            old(self).wf(),
            !old(self).done(),
        ensures
            final(self).wf(),
            final(self).jobs == old(self).jobs,
            final(self).next == old(self).next + 1,
            final(self).marked() == old(self).marked().push(
                old(self).jobs[old(self).next as int].entry_id,
            ),
            reaction == reaction_to(outcome),
    {
        self.next = self.next + 1;
        assert(self.marked() =~= old(self).marked().push(
            old(self).jobs[old(self).next as int].entry_id,
        ));
        match outcome {
            SendOutcome::Sent => Reaction::Continue,
            SendOutcome::RetryAfter(secs) => Reaction::Pause(secs),
            SendOutcome::Failed => Reaction::Report,
        }
    }

    /// The ids of the queue entries to delete: those that have had their
    /// attempt.
    pub fn removals(&self) -> (ids: Vec<i64>)
        requires
            self.wf(),
        ensures
            ids@ == self.marked(),
    {
        let mut ids: Vec<i64> = Vec::new();
        let mut i: usize = 0;
        while i < self.next
            invariant
                i <= self.next <= self.jobs.len(),
                ids.len() == i,
                forall|j: int| 0 <= j < i ==> ids[j] == self.jobs[j].entry_id,
            decreases self.next - i,
        {
            ids.push(self.jobs[i].entry_id);
            i += 1;
        }
        assert(ids@ =~= self.marked());
        ids
    }
}


/// A queued post without attachments whose user has a linked channel makes
/// one job, which sends one message, the rendered text; and once the job's
/// entry is among the removals, as it is after its attempt, whatever the
/// outcome, deleting them leaves no trace of it in a queue that held it alone.
pub proof fn lemma_text_entry_sent_once_then_removed(
    post: scheduled_post::Model,
    user: telegram_user::Model,
    media: Seq<post_media::Row>,
)
    requires
        post.media_ids@.len() == 0,
        user.channel is Some,
    ensures
        jobs_of(seq![(post, Some(user))]) == seq![job_for(post, user.channel.unwrap())],
        delivery_for(job_for(post, user.channel.unwrap()), media) == DeliveryView::Message(
            rendered(post.post_text@, post.post_source_url@, post.post_source@),
        ),
        without_ids(seq![post@], seq![post.id]) == Seq::<scheduled_post::Row>::empty(),
{
    let entries = seq![(post, Some(user))];
    assert(entries.drop_last() =~= Seq::empty());
    assert(jobs_of(entries.drop_last()) =~= Seq::<JobView>::empty());
    assert(jobs_of(entries) =~= seq![job_for(post, user.channel.unwrap())]);
    let text = post.media_ids@;
    assert(text =~= Seq::<char>::empty());
    let parts = crate::text::pieces(text, ',');
    assert(parts =~= seq![Seq::<char>::empty()]);
    assert(parts.drop_last() =~= Seq::<Seq<char>>::empty());
    assert(crate::text::parse_i64_spec(parts.last()) is None);
    assert(crate::text::parsed_ids(parts.drop_last()) =~= Seq::<i64>::empty());
    assert(ids_of_text(text) =~= Seq::<i64>::empty());
    lemma_selected_none(media, ids_of_text(text));
    let rows = seq![post@];
    assert(rows.drop_last() =~= Seq::empty());
    assert(seq![post.id].contains(post.id)) by {
        assert(seq![post.id][0] == post.id);
    }
    assert(without_ids(rows.drop_last(), seq![post.id]) =~= Seq::<scheduled_post::Row>::empty());
}

} // verus!
