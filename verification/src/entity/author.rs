use vstd::prelude::*;

verus! {

/// A tracked author.
#[derive(Clone, Debug)]
pub struct Model {
    /// Internal id of the author.
    pub id: i64,
    /// Platform id of the author; no two rows share one.
    pub platform_id: i64,
    /// Display name of the account.
    pub name: String,
    /// Handle of the account.
    pub username: String,
    /// Avatar of the account.
    pub avatar_url: Option<String>,
}

/// What an author row holds.
pub struct Row {
    pub id: i64,
    pub platform_id: i64,
    pub name: Seq<char>,
    pub username: Seq<char>,
    pub avatar_url: Option<Seq<char>>,
}

impl View for Model {
    type V = Row;

    open spec fn view(&self) -> Row {
        Row {
            id: self.id,
            platform_id: self.platform_id,
            name: self.name@,
            username: self.username@,
            avatar_url: match self.avatar_url {
                Some(u) => Some(u@),
                None => None,
            },
        }
    }
}

/// What each row of a list holds.
pub open spec fn rows(models: Seq<Model>) -> Seq<Row> {
    Seq::new(models.len(), |i: int| models[i]@)
}

} // verus!
