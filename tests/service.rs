use qa_service::auth::{login_handler, token_outcome, LoginRequest, SIGNING_KEY};
use qa_service::error::{return_error, ApiError};
use qa_service::handlers::{add_answer, add_question, delete_question, get_questions, update_question};
use qa_service::pagination::{extract_pagination, parse_decimal, same_text, Pagination};
use qa_service::store::{AnswerStore, QuestionStore};
use qa_service::types::{parse_question_id, Answer, AnswerId, Question, QuestionId};
use std::str::FromStr;

fn question(id: &str, title: &str) -> Question {
    Question::new(
        QuestionId(id.to_string()),
        title.to_string(),
        "content".to_string(),
        Some(vec!["faq".to_string()]),
    )
}

fn params(pairs: &[(&str, &str)]) -> Vec<(String, String)> {
    pairs.iter().map(|(k, v)| (k.to_string(), v.to_string())).collect()
}

fn titles(qs: &[Question]) -> Vec<String> {
    qs.iter().map(|q| q.title.clone()).collect()
}

fn filled(n: usize) -> QuestionStore {
    let mut store = QuestionStore::new();
    for i in 0..n {
        store.insert_question(question(&format!("{}", i + 1), &format!("t{}", i + 1)));
    }
    store
}

fn decode_claims(token: &str, validate_exp: bool) -> serde_json::Value {
    let mut validation = jsonwebtoken::Validation::default();
    validation.validate_exp = validate_exp;
    jsonwebtoken::decode::<serde_json::Value>(
        token,
        &jsonwebtoken::DecodingKey::from_secret(SIGNING_KEY.as_bytes()),
        &validation,
    )
    .unwrap()
    .claims
}

#[test]
fn parse_question_id_keeps_the_string() {
    for s in ["1", "abc", " ", "ünï"] {
        let id = parse_question_id(s).unwrap();
        assert_eq!(id.0, s);
    }
}

#[test]
fn parse_question_id_refuses_empty() {
    assert_eq!(parse_question_id("").unwrap_err(), ApiError::InvalidIdentifier);
    assert_eq!(QuestionId::from_str("").unwrap_err(), ApiError::InvalidIdentifier);
    assert_eq!(QuestionId::from_str("7").unwrap().0, "7");
    assert_eq!(QuestionId::from_str("not a number!").unwrap().0, "not a number!");
}

#[test]
fn insert_then_get_holds_question_once() {
    let mut store = filled(3);
    store.insert_question(question("9", "nine"));
    let all = store.get_all_questions();
    assert_eq!(all.len(), 4);
    assert_eq!(all.iter().filter(|q| q.id.0 == "9").count(), 1);
    assert_eq!(all[3].title, "nine");
    assert_eq!(all[3].tags, Some(vec!["faq".to_string()]));
}

#[test]
fn insert_existing_id_replaces() {
    let mut store = filled(2);
    store.insert_question(question("1", "again"));
    assert_eq!(titles(&store.get_all_questions()), vec!["again", "t2"]);
}

#[test]
fn update_missing_fails_and_keeps_store() {
    let mut store = filled(2);
    let r = store.update_question(QuestionId("5".to_string()), question("5", "x"));
    assert_eq!(r, Err(ApiError::QuestionNotFound));
    assert_eq!(titles(&store.get_all_questions()), vec!["t1", "t2"]);
}

#[test]
fn update_present_replaces_whole_value() {
    let mut store = filled(2);
    let new = Question::new(QuestionId("2".to_string()), "new".to_string(), "c2".to_string(), None);
    assert_eq!(store.update_question(QuestionId("2".to_string()), new), Ok(()));
    let all = store.get_all_questions();
    assert_eq!(all[1].title, "new");
    assert_eq!(all[1].content, "c2");
    assert_eq!(all[1].tags, None);
}

#[test]
fn delete_absent_then_present() {
    let mut store = filled(2);
    assert_eq!(store.delete_question(&QuestionId("3".to_string())), Err(ApiError::QuestionNotFound));
    assert_eq!(store.delete_question(&QuestionId("1".to_string())), Ok(()));
    assert_eq!(titles(&store.get_all_questions()), vec!["t2"]);
    assert_eq!(store.delete_question(&QuestionId("1".to_string())), Err(ApiError::QuestionNotFound));
}

#[test]
fn inserts_in_either_order_keep_both() {
    for order in [["a", "b"], ["b", "a"]] {
        let mut store = QuestionStore::new();
        for id in order {
            store.insert_question(question(id, id));
        }
        let all = store.get_all_questions();
        assert!(all.iter().any(|q| q.id.0 == "a"));
        assert!(all.iter().any(|q| q.id.0 == "b"));
    }
}

#[test]
fn update_and_delete_race_resolves() {
    let mut first = filled(1);
    assert!(first.update_question(QuestionId("1".to_string()), question("1", "u")).is_ok());
    assert!(first.delete_question(&QuestionId("1".to_string())).is_ok());
    let mut second = filled(1);
    assert!(second.delete_question(&QuestionId("1".to_string())).is_ok());
    assert_eq!(
        second.update_question(QuestionId("1".to_string()), question("1", "u")),
        Err(ApiError::QuestionNotFound)
    );
    assert_eq!(first.len(), 0);
    assert_eq!(second.len(), 0);
}

#[test]
fn pagination_first_two() {
    let store = filled(3);
    let r = get_questions(&params(&[("start", "0"), ("end", "2")]), &store).unwrap();
    assert_eq!(titles(&r), vec!["t1", "t2"]);
}

#[test]
fn pagination_bad_start() {
    let store = filled(3);
    let r = get_questions(&params(&[("start", "a"), ("end", "2")]), &store);
    assert_eq!(r.unwrap_err(), ApiError::BadQueryParameter);
}

#[test]
fn pagination_empty_query_returns_all() {
    let store = filled(3);
    let r = get_questions(&Vec::new(), &store).unwrap();
    assert_eq!(titles(&r), vec!["t1", "t2", "t3"]);
}

#[test]
fn pagination_out_of_range_is_refused() {
    let store = filled(3);
    for (s, e) in [("0", "4"), ("2", "1")] {
        let r = get_questions(&params(&[("start", s), ("end", e)]), &store);
        assert_eq!(r.unwrap_err(), ApiError::BadQueryParameter);
    }
    let r = get_questions(&params(&[("start", "3"), ("end", "3")]), &store).unwrap();
    assert!(r.is_empty());
}

#[test]
fn extract_pagination_needs_both_keys() {
    assert_eq!(extract_pagination(&params(&[("start", "1")])), Err(ApiError::BadQueryParameter));
    assert_eq!(extract_pagination(&params(&[("end", "1")])), Err(ApiError::BadQueryParameter));
    assert_eq!(
        extract_pagination(&params(&[("limit", "5"), ("end", "7"), ("start", "+3")])),
        Ok(Pagination { start: 3, end: 7 })
    );
}

#[test]
fn parse_decimal_follows_usize_from_str() {
    for s in ["0", "42", "+7", "007", "", "+", "-1", "1a", " 1", "99999999999999999999999"] {
        assert_eq!(parse_decimal(s), usize::from_str(s).ok(), "{}", s);
    }
    assert_eq!(parse_decimal(&format!("{}", usize::MAX)), Some(usize::MAX));
}

#[test]
fn same_text_compares_characters() {
    assert!(same_text("abc", "abc"));
    assert!(!same_text("abc", "abd"));
    assert!(!same_text("abc", "ab"));
    assert!(same_text("", ""));
}

#[test]
fn login_with_right_password() {
    let login = LoginRequest { username: "alice".to_string(), password: "password123".to_string() };
    let before = chrono::Utc::now().timestamp();
    let resp = login_handler(login, chrono::Utc::now().timestamp()).unwrap();
    assert_ne!(resp.token, "alice");
    let claims = decode_claims(&resp.token, true);
    assert_eq!(claims["sub"], "alice");
    let exp = claims["exp"].as_i64().unwrap();
    let after = chrono::Utc::now().timestamp();
    assert!(exp >= before + 86400 && exp <= after + 86400);
}

#[test]
fn login_with_wrong_password() {
    let login = LoginRequest { username: "alice".to_string(), password: "password".to_string() };
    assert_eq!(login_handler(login, chrono::Utc::now().timestamp()).unwrap_err(), ApiError::InvalidCredentials);
}

#[test]
fn login_at_fixed_time() {
    let login = LoginRequest { username: "bob".to_string(), password: "password123".to_string() };
    let resp = login_handler(login, 1_000).unwrap();
    let claims = decode_claims(&resp.token, false);
    assert_eq!(claims["sub"], "bob");
    assert_eq!(claims["exp"].as_i64(), Some(87_400));
}

#[test]
fn login_refuses_unusable_times() {
    for now in [i64::MAX, -86_401] {
        let login = LoginRequest { username: "bob".to_string(), password: "password123".to_string() };
        assert_eq!(login_handler(login, now).unwrap_err(), ApiError::InvalidCredentials);
    }
}

#[test]
fn token_outcome_maps_signing_failure() {
    let err: jsonwebtoken::errors::Error = jsonwebtoken::errors::ErrorKind::InvalidToken.into();
    assert_eq!(token_outcome(Err(err)).unwrap_err(), ApiError::InvalidCredentials);
    assert_eq!(token_outcome(Ok("t".to_string())).unwrap().token, "t");
}

#[test]
fn return_error_maps_each_failure() {
    let cases = [
        (Some(ApiError::InvalidIdentifier), 422, "no valid id"),
        (Some(ApiError::QuestionNotFound), 404, "Question not found"),
        (Some(ApiError::AnswerNotFound), 404, "Answer not found"),
        (Some(ApiError::BadQueryParameter), 422, "bad query parameter"),
        (Some(ApiError::InvalidCredentials), 401, "invalid credentials"),
        (Some(ApiError::CorsRejected("CORS request forbidden".to_string())), 403, "CORS request forbidden"),
        (Some(ApiError::RouteNotFound), 404, "route not found"),
        (None, 404, "route not found"),
    ];
    for (e, status, message) in cases {
        let r = return_error(&e);
        assert_eq!(r.status, status);
        assert_eq!(r.message, message);
    }
}

#[test]
fn handlers_report_outcomes() {
    let mut store = QuestionStore::new();
    assert_eq!(add_question(&mut store, question("1", "one")), "Question added");
    assert_eq!(update_question("1".to_string(), &mut store, question("1", "uno")).unwrap(), "Question updated");
    assert_eq!(update_question("2".to_string(), &mut store, question("2", "x")), Err(ApiError::QuestionNotFound));
    assert_eq!(delete_question("1".to_string(), &mut store).unwrap(), "Question deleted");
    assert_eq!(delete_question("1".to_string(), &mut store), Err(ApiError::QuestionNotFound));
}

#[test]
fn add_answer_gives_each_answer_its_own_id() {
    let mut store = AnswerStore::new();
    let r = add_answer(&mut store, &params(&[("content", "yes"), ("questionId", "1")]));
    assert_eq!(r.unwrap(), "Answer added");
    let r = add_answer(&mut store, &params(&[("content", "no"), ("questionId", "2")]));
    assert!(r.is_ok());
    let all = store.get_all_answers();
    assert_eq!(all.len(), 2);
    assert_eq!(all[0].id.0, "1");
    assert_eq!(all[0].content, "yes");
    assert_eq!(all[1].id.0, "2");
    assert_eq!(all[1].content, "no");
    assert_eq!(all[1].question_id.0, "2");
}

#[test]
fn fresh_id_avoids_taken_numeral() {
    let mut store = AnswerStore::new();
    store.insert_answer(Answer {
        id: AnswerId("2".to_string()),
        content: "c".to_string(),
        question_id: QuestionId("1".to_string()),
    });
    let id = store.fresh_id();
    assert_eq!(id.0, "11");
    assert!(add_answer(&mut store, &params(&[("content", "d"), ("questionId", "1")])).is_ok());
    let ids: Vec<String> = store.get_all_answers().iter().map(|a| a.id.0.clone()).collect();
    assert_eq!(ids, vec!["2", "11"]);
}

#[test]
fn add_answer_needs_both_fields() {
    let mut store = AnswerStore::new();
    let r = add_answer(&mut store, &params(&[("content", "yes")]));
    assert_eq!(r, Err(ApiError::BadQueryParameter));
    assert_eq!(store.len(), 0);
}
