use vstd::prelude::*;

verus! {

/// The kind of an attachment.
#[derive(Clone, Copy, Debug, PartialEq, Eq, Structural)]
pub enum MediaType {
    Photo,
    Video,
}

/// An attachment of a mirrored post.
#[derive(Clone, Debug)]
pub struct Model {
    /// Internal id of the attachment.
    pub id: i64,
    /// Internal id of the post it belongs to.
    pub post_id: i64,
    /// Photo or video.
    pub media_type: MediaType,
    /// Where the file is.
    pub media_url: String,
}

/// What an attachment row holds.
pub struct Row {
    pub id: i64,
    pub post_id: i64,
    pub media_type: MediaType,
    pub media_url: Seq<char>,
}

impl View for Model {
    type V = Row;

    open spec fn view(&self) -> Row {
        Row {
            id: self.id,
            post_id: self.post_id,
            media_type: self.media_type,
            media_url: self.media_url@,
        }
    }
}

/// What each row of a list holds.
pub open spec fn rows(models: Seq<Model>) -> Seq<Row> {
    Seq::new(models.len(), |i: int| models[i]@)
}

impl Model {
    /// A copy of the row.
    pub fn duplicate(&self) -> (copy: Self)
        ensures
            copy@ == self@,
    {
        Model {
            id: self.id,
            post_id: self.post_id,
            media_type: self.media_type,
            media_url: self.media_url.clone(),
        }
    }
}

} // verus!
