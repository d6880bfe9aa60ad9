use vstd::prelude::*;

use crate::error::ApiError;
use crate::pagination::{extract_pagination, find_param, pagination_of, pairs_view, param_value};
use crate::store::{
    has_key, question_models, remove_key, replace, upsert, values, AnswerStore, QuestionStore,
};
use crate::types::{Answer, AnswerModel, Question, QuestionId, QuestionModel};

verus! {

/// The questions that a listing request returns, or `None` where the request
/// is refused. Without parameters it is every question; otherwise the range
/// `[start, end)` of the snapshot, which must lie within it.
pub open spec fn listing(params: Seq<(Seq<char>, Seq<char>)>, all: Seq<QuestionModel>) -> Option<
    Seq<QuestionModel>,
> {
    if params.len() == 0 {
        Some(all)
    } else {
        match pagination_of(params) {
            Some((a, b)) => if a <= b && b <= all.len() {
                Some(all.subrange(a as int, b as int))
            } else {
                None
            },
            None => None,
        }
    }
}

/// Lists the questions: all of them, or the range that the query parameters
/// ask for. A range that is malformed, reversed or longer than the snapshot is
/// refused.
pub fn get_questions(params: &Vec<(String, String)>, store: &QuestionStore) -> (r: Result<
    Vec<Question>,
    ApiError,
>)
    ensures
        match listing(pairs_view(params@), values(store@)) {
            Some(qs) => r matches Ok(v) && question_models(v@) == qs,
            None => r == Err::<Vec<Question>, ApiError>(ApiError::BadQueryParameter),
        },
{
    if params.len() == 0 {
        assert(pairs_view(params@).len() == 0);
        return Ok(store.get_all_questions());
    }
    let page = match extract_pagination(params) {
        Ok(p) => p,
        Err(e) => return Err(e),
    };
    let mut all = store.get_all_questions();
    if page.start > page.end || page.end > all.len() {
        return Err(ApiError::BadQueryParameter);
    }
    let ghost snapshot = all@;
    let _tail = all.split_off(page.end);
    let res = all.split_off(page.start);
    assert(res@ =~= snapshot.subrange(page.start as int, page.end as int));
    assert(question_models(res@) =~= question_models(snapshot).subrange(
        page.start as int,
        page.end as int,
    ));
    Ok(res)
}

/// Stores a question under its identifier, replacing what was there.
pub fn add_question(store: &mut QuestionStore, question: Question) -> (r: String)
    requires
        old(store).wf(),
    ensures
        final(store).wf(),
        final(store)@ == upsert(old(store)@, question.id@, question@),
        r@ == "Question added"@,
{
    store.insert_question(question);
    String::from_str("Question added")
}

/// Replaces the question stored under `id`; fails where there is none.
pub fn update_question(id: String, store: &mut QuestionStore, question: Question) -> (r: Result<
    String,
    ApiError,
>)
    requires
        old(store).wf(),
    ensures
        final(store).wf(),
        final(store)@ == replace(old(store)@, id@, question@),
        r is Ok <==> has_key(old(store)@, id@),
        r matches Ok(m) ==> m@ == "Question updated"@,
        r is Err ==> r == Err::<String, ApiError>(ApiError::QuestionNotFound),
{
    match store.update_question(QuestionId(id), question) {
        Ok(()) => Ok(String::from_str("Question updated")),
        Err(e) => Err(e),
    }
}

/// Removes the question stored under `id`; fails where there is none.
pub fn delete_question(id: String, store: &mut QuestionStore) -> (r: Result<String, ApiError>)
    requires
        old(store).wf(),
    ensures
        final(store).wf(),
        final(store)@ == remove_key(old(store)@, id@),
        r is Ok <==> has_key(old(store)@, id@),
        r matches Ok(m) ==> m@ == "Question deleted"@,
        r is Err ==> r == Err::<String, ApiError>(ApiError::QuestionNotFound),
{
    match store.delete_question(&QuestionId(id)) {
        Ok(()) => Ok(String::from_str("Question deleted")),
        Err(e) => Err(e),
    }
}

/// The content and question identifier that form parameters give, where both
/// `content` and `questionId` are there.
pub open spec fn answer_fields(params: Seq<(Seq<char>, Seq<char>)>) -> Option<
    (Seq<char>, Seq<char>),
> {
    match (param_value(params, "content"@), param_value(params, "questionId"@)) {
        (Some(c), Some(q)) => Some((c, q)),
        _ => None,
    }
}

/// Stores the answer that the form parameters `content` and `questionId`
/// describe, under an identifier that no stored answer has. Fails where a
/// parameter is missing.
pub fn add_answer(store: &mut AnswerStore, params: &Vec<(String, String)>) -> (r: Result<
    String,
    ApiError,
>)
    requires
        old(store).wf(),
    ensures
        final(store).wf(),
        match answer_fields(pairs_view(params@)) {
            Some((c, q)) => r matches Ok(m) && m@ == "Answer added"@ && exists|id: Seq<char>|
                !has_key(old(store)@, id) && final(store)@ == old(store)@.push(
                    (id, AnswerModel { id: id, content: c, question_id: q }),
                ),
            None => r == Err::<String, ApiError>(ApiError::BadQueryParameter) && final(store)@
                == old(store)@,
        },
{
    let content = find_param(params, "content");
    let question_id = find_param(params, "questionId");
    match (content, question_id) {
        (Some(c), Some(q)) => {
            let id = store.fresh_id();
            let answer = Answer { id, content: c.clone(), question_id: QuestionId(q.clone()) };
            let ghost k = answer.id@;
            store.insert_answer(answer);
            assert(!has_key(old(store)@, k));
            Ok(String::from_str("Answer added"))
        },
        _ => Err(ApiError::BadQueryParameter),
    }
}

} // verus!
