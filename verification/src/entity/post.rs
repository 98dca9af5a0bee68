use vstd::prelude::*;

verus! {

/// A mirrored post.
#[derive(Clone, Debug)]
pub struct Model {
    /// Internal id of the post.
    pub id: i64,
    /// Platform id of the post; no two rows share one.
    pub platform_id: i64,
    /// Internal id of the author.
    pub author_id: i64,
    /// Post text.
    pub text: String,
    /// Link to the post at its source.
    pub source_url: String,
    /// Text shown for that link.
    pub source_text: String,
}

/// What a post row holds.
pub struct Row {
    pub id: i64,
    pub platform_id: i64,
    pub author_id: i64,
    pub text: Seq<char>,
    pub source_url: Seq<char>,
    pub source_text: Seq<char>,
}

impl View for Model {
    type V = Row;

    open spec fn view(&self) -> Row {
        Row {
            id: self.id,
            platform_id: self.platform_id,
            author_id: self.author_id,
            text: self.text@,
            source_url: self.source_url@,
            source_text: self.source_text@,
        }
    }
}

/// What each row of a list holds.
pub open spec fn rows(models: Seq<Model>) -> Seq<Row> {
    Seq::new(models.len(), |i: int| models[i]@)
}

} // verus!
