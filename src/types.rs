use vstd::prelude::*;

use crate::error::ApiError;

verus! {

/// The identifier of a question: a non-empty string.
#[derive(Debug, Clone, PartialEq, Eq, Hash)]
pub struct QuestionId(pub String);

/// The identifier of an answer.
#[derive(Debug, Clone, PartialEq, Eq, Hash)]
pub struct AnswerId(pub String);

impl View for QuestionId {
    type V = Seq<char>;

    open spec fn view(&self) -> Seq<char> {
        self.0@
    }
}

impl View for AnswerId {
    type V = Seq<char>;

    open spec fn view(&self) -> Seq<char> {
        self.0@
    }
}

impl QuestionId {
    /// A copy of the identifier.
    pub fn duplicate(&self) -> (r: QuestionId)
        ensures
            r == *self,
    {
        QuestionId(self.0.clone())
    }
}

impl AnswerId {
    /// A copy of the identifier.
    pub fn duplicate(&self) -> (r: AnswerId)
        ensures
            r == *self,
    {
        AnswerId(self.0.clone())
    }
}

/// What a question holds, as mathematical values.
pub struct QuestionModel {
    pub id: Seq<char>,
    pub title: Seq<char>,
    pub content: Seq<char>,
    pub tags: Option<Seq<Seq<char>>>,
}

/// A question with its title, its content and an optional list of tags.
#[derive(Debug, Clone)]
pub struct Question {
    pub id: QuestionId,
    pub title: String,
    pub content: String,
    pub tags: Option<Vec<String>>,
}

/// The characters of each string of a list.
pub open spec fn texts(v: Seq<String>) -> Seq<Seq<char>> {
    v.map_values(|t: String| t@)
}

impl View for Question {
    type V = QuestionModel;

    open spec fn view(&self) -> QuestionModel {
        QuestionModel {
            id: self.id@,
            title: self.title@,
            content: self.content@,
            tags: match self.tags {
                Some(t) => Some(texts(t@)),
                None => None,
            },
        }
    }
}

/// A copy of a list of strings.
fn copy_strings(v: &Vec<String>) -> (r: Vec<String>)
    ensures
        r@ == v@,
{
    let mut r: Vec<String> = Vec::new();
    let n: usize = v.len();
    let mut i: usize = 0;
    while i < n
        invariant
            n == v@.len(),
            i <= n,
            r@ == v@.subrange(0, i as int),
        decreases n - i,
    {
        r.push(v[i].clone());
        i = i + 1;
        assert(r@ =~= v@.subrange(0, i as int));
    }
    assert(r@ =~= v@);
    r
}

impl Question {
    pub fn new(id: QuestionId, title: String, content: String, tags: Option<Vec<String>>) -> (r:
        Self)
        ensures
            r.id == id,
            r.title == title,
            r.content == content,
            r.tags == tags,
    {
        Question { id, title, content, tags }
    }

    /// A copy of the question that holds the same values.
    pub fn duplicate(&self) -> (r: Question)
        ensures
            r@ == self@,
    {
        let tags = match &self.tags {
            Some(t) => Some(copy_strings(t)),
            None => None,
        };
        Question {
            id: self.id.duplicate(),
            title: self.title.clone(),
            content: self.content.clone(),
            tags,
        }
    }
}

/// An answer to a question.
#[derive(Debug, Clone)]
pub struct Answer {
    pub id: AnswerId,
    pub content: String,
    pub question_id: QuestionId,
}

/// What an answer holds, as mathematical values.
pub struct AnswerModel {
    pub id: Seq<char>,
    pub content: Seq<char>,
    pub question_id: Seq<char>,
}

impl View for Answer {
    type V = AnswerModel;

    open spec fn view(&self) -> AnswerModel {
        AnswerModel { id: self.id@, content: self.content@, question_id: self.question_id@ }
    }
}

impl Answer {
    /// A copy of the answer that holds the same values.
    pub fn duplicate(&self) -> (r: Answer)
        ensures
            r@ == self@,
    {
        Answer {
            id: self.id.duplicate(),
            content: self.content.clone(),
            question_id: self.question_id.duplicate(),
        }
    }
}

/// Makes a question identifier of `s`: any non-empty string is one, kept as
/// it is; the empty string is refused.
pub fn parse_question_id(s: &str) -> (r: Result<QuestionId, ApiError>)
    ensures
        s@.len() == 0 <==> r is Err,
        match r {
            Ok(id) => id@ == s@,
            Err(e) => e == ApiError::InvalidIdentifier,
        },
{
    if s.is_empty() {
        Err(ApiError::InvalidIdentifier)
    } else {
        Ok(QuestionId(s.to_owned()))
    }
}

impl std::str::FromStr for QuestionId {
    type Err = ApiError;

    fn from_str(s: &str) -> (r: Result<Self, Self::Err>)
        ensures
            s@.len() == 0 <==> r is Err,
            match r {
                Ok(id) => id@ == s@,
                Err(e) => e == ApiError::InvalidIdentifier,
            },
    {
        parse_question_id(s)
    }
}

} // verus!
