use vstd::prelude::*;

verus! {

/// A post waiting for its single delivery attempt.
#[derive(Clone, Debug)]
pub struct Model {
    /// Internal id of the entry.
    pub id: i64,
    /// Id of the user who queued it.
    pub user_id: i64,
    /// Internal ids of the chosen attachments, in decimal, separated by ','.
    pub media_ids: String,
    /// Text to publish.
    pub post_text: String,
    /// Text shown for the link to the source.
    pub post_source: String,
    /// Link to the source.
    pub post_source_url: String,
}

/// What a queue entry holds.
pub struct Row {
    pub id: i64,
    pub user_id: i64,
    pub media_ids: Seq<char>,
    pub post_text: Seq<char>,
    pub post_source: Seq<char>,
    pub post_source_url: Seq<char>,
}

impl View for Model {
    type V = Row;

    open spec fn view(&self) -> Row {
        Row {
            id: self.id,
            user_id: self.user_id,
            media_ids: self.media_ids@,
            post_text: self.post_text@,
            post_source: self.post_source@,
            post_source_url: self.post_source_url@,
        }
    }
}

/// What each row of a list holds.
pub open spec fn rows(models: Seq<Model>) -> Seq<Row> {
    Seq::new(models.len(), |i: int| models[i]@)
}

impl Model {
    /// A copy of the entry.
    pub fn duplicate(&self) -> (copy: Self)
        ensures
            copy@ == self@,
    {
        Model {
            id: self.id,
            user_id: self.user_id,
            media_ids: self.media_ids.clone(),
            post_text: self.post_text.clone(),
            post_source: self.post_source.clone(),
            post_source_url: self.post_source_url.clone(),
        }
    }
}

} // verus!
