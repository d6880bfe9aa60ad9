use vstd::prelude::*;
use vstd::string::*;

use crate::error::ApiError;
use crate::pagination::decimal_value;
use crate::types::{Answer, AnswerId, AnswerModel, Question, QuestionId, QuestionModel};

verus! {

/// A keyed table as a sequence of (key, value) entries in snapshot order.
pub open spec fn has_key<V>(s: Seq<(Seq<char>, V)>, k: Seq<char>) -> bool {
    exists|i: int| 0 <= i < s.len() && s[i].0 == k
}

/// The position of key `k`, where `has_key(s, k)`.
pub open spec fn key_index<V>(s: Seq<(Seq<char>, V)>, k: Seq<char>) -> int {
    choose|i: int| 0 <= i < s.len() && s[i].0 == k
}

/// No key occurs twice.
pub open spec fn keys_unique<V>(s: Seq<(Seq<char>, V)>) -> bool {
    forall|i: int, j: int| 0 <= i < s.len() && 0 <= j < s.len() && s[i].0 == s[j].0 ==> i == j
}

/// The value stored under `k`, if any.
pub open spec fn lookup<V>(s: Seq<(Seq<char>, V)>, k: Seq<char>) -> Option<V> {
    if has_key(s, k) {
        Some(s[key_index(s, k)].1)
    } else {
        None
    }
}

/// Insert or replace: the value under `k` becomes `v`; a new key goes last.
pub open spec fn upsert<V>(s: Seq<(Seq<char>, V)>, k: Seq<char>, v: V) -> Seq<(Seq<char>, V)> {
    if has_key(s, k) {
        s.update(key_index(s, k), (k, v))
    } else {
        s.push((k, v))
    }
}

/// Replace the value under `k` where `k` is present; otherwise no change.
pub open spec fn replace<V>(s: Seq<(Seq<char>, V)>, k: Seq<char>, v: V) -> Seq<(Seq<char>, V)> {
    if has_key(s, k) {
        s.update(key_index(s, k), (k, v))
    } else {
        s
    }
}

/// Remove the entry under `k` where `k` is present; otherwise no change.
pub open spec fn remove_key<V>(s: Seq<(Seq<char>, V)>, k: Seq<char>) -> Seq<(Seq<char>, V)> {
    if has_key(s, k) {
        s.remove(key_index(s, k))
    } else {
        s
    }
}

/// The values of the table, in snapshot order.
pub open spec fn values<V>(s: Seq<(Seq<char>, V)>) -> Seq<V> {
    s.map_values(|e: (Seq<char>, V)| e.1)
}

/// What each question of a list holds.
pub open spec fn question_models(v: Seq<Question>) -> Seq<QuestionModel> {
    v.map_values(|q: Question| q@)
}

/// What each answer of a list holds.
pub open spec fn answer_models(v: Seq<Answer>) -> Seq<AnswerModel> {
    v.map_values(|a: Answer| a@)
}

/// The questions, keyed by question identifier.
pub struct QuestionStore {
    entries: Vec<(QuestionId, Question)>,
}

impl View for QuestionStore {
    type V = Seq<(Seq<char>, QuestionModel)>;

    closed spec fn view(&self) -> Seq<(Seq<char>, QuestionModel)> {
        self.entries@.map_values(|e: (QuestionId, Question)| (e.0@, e.1@))
    }
}

impl QuestionStore {
    /// Well-formed: no identifier is stored twice.
    pub open spec fn wf(&self) -> bool {
        keys_unique(self@)
    }

    /// An empty store.
    pub fn new() -> (r: QuestionStore)
        ensures
            r.wf(),
            r@ == Seq::<(Seq<char>, QuestionModel)>::empty(),
    {
        let r = QuestionStore { entries: Vec::new() };
        assert(r@ =~= Seq::<(Seq<char>, QuestionModel)>::empty());
        r
    }

    /// The number of questions.
    pub fn len(&self) -> (r: usize)
        ensures
            r == self@.len(),
    {
        self.entries.len()
    }

    /// Where `id` stands in the table, if it is there.
    fn position(&self, id: &QuestionId) -> (r: Option<usize>)
        requires
            self.wf(),
        ensures
            match r {
                Some(i) => i < self@.len() && self@[i as int].0 == id@ && i == key_index(
                    self@,
                    id@,
                ),
                None => !has_key(self@, id@),
            },
    {
        let n: usize = self.entries.len();
        let mut i: usize = 0;
        while i < n
            invariant
                self.wf(),
                n == self@.len(),
                i <= n,
                forall|j: int| 0 <= j < i ==> self@[j].0 != id@,
            decreases n - i,
        {
            if self.entries[i].0.0 == id.0 {
                assert(self@[i as int].0 == id@);
                assert(has_key(self@, id@));
                assert(self@[key_index(self@, id@)].0 == id@);
                return Some(i);
            }
            i = i + 1;
        }
        None
    }

    /// A copy of every question, in snapshot order.
    pub fn get_all_questions(&self) -> (r: Vec<Question>)
        ensures
            question_models(r@) == values(self@),
    {
        let mut r: Vec<Question> = Vec::new();
        let n: usize = self.entries.len();
        let mut i: usize = 0;
        while i < n
            invariant
                n == self@.len(),
                i <= n,
                r@.len() == i,
                question_models(r@) == values(self@).subrange(0, i as int),
            decreases n - i,
        {
            let q = self.entries[i].1.duplicate();
            assert(values(self@)[i as int] == self.entries@[i as int].1@);
            let ghost before = r@;
            r.push(q);
            assert forall|j: int| 0 <= j < i implies #[trigger] r@[j]@ == values(self@)[j] by {
                assert(r@[j] == before[j]);
                assert(question_models(before)[j] == before[j]@);
            }
            i = i + 1;
            assert(question_models(r@) =~= values(self@).subrange(0, i as int));
        }
        assert(question_models(r@) =~= values(self@));
        r
    }

    /// Adds `q` under its own identifier, replacing what was stored there.
    pub fn insert_question(&mut self, q: Question)
        requires
            old(self).wf(),
        ensures
            final(self).wf(),
            final(self)@ == upsert(old(self)@, q.id@, q@),
    {
        let k = q.id.duplicate();
        match self.position(&q.id) {
            Some(i) => {
                self.entries.set(i, (k, q));
            },
            None => {
                self.entries.push((k, q));
            },
        }
        assert(self@ =~= upsert(old(self)@, q.id@, q@));
    }

    /// Replaces the question stored under `id` by `q`; fails where `id` is absent.
    pub fn update_question(&mut self, id: QuestionId, q: Question) -> (r: Result<(), ApiError>)
        requires
            old(self).wf(),
        ensures
            final(self).wf(),
            r is Ok <==> has_key(old(self)@, id@),
            r is Err ==> r == Err::<(), ApiError>(ApiError::QuestionNotFound),
            final(self)@ == replace(old(self)@, id@, q@),
    {
        match self.position(&id) {
            Some(i) => {
                proof {
                    let ghost qm = q@;
                    let ghost k = id@;
                    assert(self@.update(i as int, (k, qm)) =~= replace(old(self)@, k, qm));
                }
                self.entries.set(i, (id, q));
                assert(self@ =~= replace(old(self)@, old(self)@[i as int].0, q@));
                Ok(())
            },
            None => Err(ApiError::QuestionNotFound),
        }
    }

    /// Removes the question stored under `id`; fails where `id` is absent.
    pub fn delete_question(&mut self, id: &QuestionId) -> (r: Result<(), ApiError>)
        requires
            old(self).wf(),
        ensures
            final(self).wf(),
            r is Ok <==> has_key(old(self)@, id@),
            r is Err ==> r == Err::<(), ApiError>(ApiError::QuestionNotFound),
            final(self)@ == remove_key(old(self)@, id@),
    {
        match self.position(id) {
            Some(i) => {
                self.entries.remove(i);
                assert(self@ =~= old(self)@.remove(i as int));
                Ok(())
            },
            None => Err(ApiError::QuestionNotFound),
        }
    }
}

/// Relies on `<usize as ToString>::to_string`, which writes an integer in
/// decimal digits without sign or leading zeros.
#[verifier::external_body]
fn decimal_text(n: usize) -> (r: String)
    ensures
        decimal_value(r@) == Some(n as nat),
{
    n.to_string()
}

/// The answers, keyed by answer identifier.
pub struct AnswerStore {
    entries: Vec<(AnswerId, Answer)>,
}

impl View for AnswerStore {
    type V = Seq<(Seq<char>, AnswerModel)>;

    closed spec fn view(&self) -> Seq<(Seq<char>, AnswerModel)> {
        self.entries@.map_values(|e: (AnswerId, Answer)| (e.0@, e.1@))
    }
}

impl AnswerStore {
    /// Well-formed: no identifier is stored twice.
    pub open spec fn wf(&self) -> bool {
        keys_unique(self@)
    }

    /// An empty store.
    pub fn new() -> (r: AnswerStore)
        ensures
            r.wf(),
            r@ == Seq::<(Seq<char>, AnswerModel)>::empty(),
    {
        let r = AnswerStore { entries: Vec::new() };
        assert(r@ =~= Seq::<(Seq<char>, AnswerModel)>::empty());
        r
    }

    /// The number of answers.
    pub fn len(&self) -> (r: usize)
        ensures
            r == self@.len(),
    {
        self.entries.len()
    }

    /// Where `id` stands in the table, if it is there.
    fn position(&self, id: &AnswerId) -> (r: Option<usize>)
        requires
            self.wf(),
        ensures
            match r {
                Some(i) => i < self@.len() && self@[i as int].0 == id@ && i == key_index(
                    self@,
                    id@,
                ),
                None => !has_key(self@, id@),
            },
    {
        let n: usize = self.entries.len();
        let mut i: usize = 0;
        while i < n
            invariant
                self.wf(),
                n == self@.len(),
                i <= n,
                forall|j: int| 0 <= j < i ==> self@[j].0 != id@,
            decreases n - i,
        {
            if self.entries[i].0.0 == id.0 {
                assert(self@[i as int].0 == id@);
                assert(has_key(self@, id@));
                assert(self@[key_index(self@, id@)].0 == id@);
                return Some(i);
            }
            i = i + 1;
        }
        None
    }

    /// An identifier under which no answer is stored: the number of answers
    /// plus one where that is free, else a string longer than every key.
    pub fn fresh_id(&self) -> (r: AnswerId)
        requires
            self.wf(),
        ensures
            !has_key(self@, r@),
    {
        let n: usize = self.entries.len();
        if n < usize::MAX {
            let candidate = AnswerId(decimal_text(n + 1));
            if self.position(&candidate).is_none() {
                return candidate;
            }
        }
        let mut longest: usize = 0;
        let mut i: usize = 0;
        while i < n
            invariant
                n == self@.len(),
                i <= n,
                forall|j: int| 0 <= j < i ==> #[trigger] self@[j].0.len() <= longest,
            decreases n - i,
        {
            let l = self.entries[i].0.0.as_str().unicode_len();
            assert(self@[i as int].0 == self.entries@[i as int].0.0@);
            if l > longest {
                longest = l;
            }
            i = i + 1;
        }
        let mut text = String::new();
        let mut k: usize = 0;
        proof {
            reveal_strlit("1");
        }
        while k < longest
            invariant
                k <= longest,
                text@.len() == k,
                "1"@.len() == 1,
            decreases longest - k,
        {
            text.append("1");
            k = k + 1;
        }
        text.append("1");
        let r = AnswerId(text);
        assert forall|j: int| 0 <= j < self@.len() implies #[trigger] self@[j].0 != r@ by {
            assert(self@[j].0.len() <= longest);
        }
        r
    }

    /// A copy of every answer, in snapshot order.
    pub fn get_all_answers(&self) -> (r: Vec<Answer>)
        ensures
            answer_models(r@) == values(self@),
    {
        let mut r: Vec<Answer> = Vec::new();
        let n: usize = self.entries.len();
        let mut i: usize = 0;
        while i < n
            invariant
                n == self@.len(),
                i <= n,
                r@.len() == i,
                answer_models(r@) == values(self@).subrange(0, i as int),
            decreases n - i,
        {
            let a = self.entries[i].1.duplicate();
            assert(values(self@)[i as int] == self.entries@[i as int].1@);
            let ghost before = r@;
            r.push(a);
            assert forall|j: int| 0 <= j < i implies #[trigger] r@[j]@ == values(self@)[j] by {
                assert(r@[j] == before[j]);
                assert(answer_models(before)[j] == before[j]@);
            }
            i = i + 1;
            assert(answer_models(r@) =~= values(self@).subrange(0, i as int));
        }
        assert(answer_models(r@) =~= values(self@));
        r
    }

    /// Adds `a` under its own identifier, replacing what was stored there.
    pub fn insert_answer(&mut self, a: Answer)
        requires
            old(self).wf(),
        ensures
            final(self).wf(),
            final(self)@ == upsert(old(self)@, a.id@, a@),
    {
        let k = a.id.duplicate();
        match self.position(&a.id) {
            Some(i) => {
                self.entries.set(i, (k, a));
            },
            None => {
                self.entries.push((k, a));
            },
        }
        assert(self@ =~= upsert(old(self)@, a.id@, a@));
    }
}

/// Where a key stands at position `i` of a table with unique keys, `i` is
/// its position.
pub proof fn lemma_key_index<V>(s: Seq<(Seq<char>, V)>, k: Seq<char>, i: int)
    requires
        keys_unique(s),
        0 <= i < s.len(),
        s[i].0 == k,
    ensures
        has_key(s, k),
        key_index(s, k) == i,
{
    assert(has_key(s, k));
    assert(s[key_index(s, k)].0 == k);
}

/// Adding or replacing an entry keeps the keys unique, and the entry is
/// found under its key afterwards.
pub proof fn lemma_upsert<V>(s: Seq<(Seq<char>, V)>, k: Seq<char>, v: V)
    requires
        keys_unique(s),
    ensures
        keys_unique(upsert(s, k, v)),
        lookup(upsert(s, k, v), k) == Some(v),
        forall|k2: Seq<char>| k2 != k ==> #[trigger] lookup(upsert(s, k, v), k2) == lookup(s, k2),
{
    let t = upsert(s, k, v);
    let i = if has_key(s, k) {
        key_index(s, k)
    } else {
        s.len() as int
    };
    if has_key(s, k) {
        assert(s[key_index(s, k)].0 == k);
    }
    assert(keys_unique(t));
    lemma_key_index(t, k, i);
    assert forall|k2: Seq<char>| k2 != k implies #[trigger] lookup(t, k2) == lookup(s, k2) by {
        if has_key(s, k2) {
            let j = key_index(s, k2);
            assert(s[j].0 == k2);
            lemma_key_index(t, k2, j);
        }
        if has_key(t, k2) {
            let j = key_index(t, k2);
            assert(t[j].0 == k2);
            lemma_key_index(s, k2, j);
        }
    }
}

/// Once a question is added, a snapshot holds it exactly once, whatever other
/// questions are stored, as long as none of them carries its identifier.
pub proof fn lemma_insert_then_get(s: Seq<(Seq<char>, QuestionModel)>, q: QuestionModel)
    requires
        keys_unique(s),
        forall|i: int| 0 <= i < s.len() ==> (#[trigger] s[i]).1.id != q.id,
    ensures
        ({
            let snap = values(upsert(s, q.id, q));
            exists|i: int|
                0 <= i < snap.len() && snap[i] == q && forall|j: int|
                    0 <= j < snap.len() && #[trigger] snap[j] == q ==> j == i
        }),
{
    let t = upsert(s, q.id, q);
    let snap = values(t);
    let i = if has_key(s, q.id) {
        key_index(s, q.id)
    } else {
        s.len() as int
    };
    if has_key(s, q.id) {
        assert(s[key_index(s, q.id)].0 == q.id);
    }
    assert(snap[i] == q);
    assert forall|j: int| 0 <= j < snap.len() && #[trigger] snap[j] == q implies j == i by {
        if j != i {
            assert(snap[j] == s[j].1);
        }
    }
}

/// Once a question is deleted, no entry is stored under its identifier.
pub proof fn lemma_delete_then_get(s: Seq<(Seq<char>, QuestionModel)>, k: Seq<char>)
    requires
        keys_unique(s),
    ensures
        keys_unique(remove_key(s, k)),
        !has_key(remove_key(s, k), k),
        lookup(remove_key(s, k), k) is None,
        has_key(s, k) ==> remove_key(s, k).len() == s.len() - 1,
{
    let t = remove_key(s, k);
    if has_key(s, k) {
        let i = key_index(s, k);
        assert(s[i].0 == k);
        assert forall|j: int| 0 <= j < t.len() implies #[trigger] t[j].0 != k by {
            if j < i {
                assert(t[j] == s[j]);
            } else {
                assert(t[j] == s[j + 1]);
            }
        }
        assert forall|a: int, b: int|
            0 <= a < t.len() && 0 <= b < t.len() && t[a].0 == t[b].0 implies a == b by {
            let a2 = if a < i {
                a
            } else {
                a + 1
            };
            let b2 = if b < i {
                b
            } else {
                b + 1
            };
            assert(t[a] == s[a2]);
            assert(t[b] == s[b2]);
        }
    }
}

/// Two writers that add questions with different identifiers, in either
/// order, leave both questions stored.
pub proof fn lemma_concurrent_inserts(
    s: Seq<(Seq<char>, QuestionModel)>,
    a: QuestionModel,
    b: QuestionModel,
)
    requires
        keys_unique(s),
        a.id != b.id,
    ensures
        lookup(upsert(upsert(s, a.id, a), b.id, b), a.id) == Some(a),
        lookup(upsert(upsert(s, a.id, a), b.id, b), b.id) == Some(b),
        lookup(upsert(upsert(s, b.id, b), a.id, a), a.id) == Some(a),
        lookup(upsert(upsert(s, b.id, b), a.id, a), b.id) == Some(b),
{
    lemma_upsert(s, a.id, a);
    lemma_upsert(upsert(s, a.id, a), b.id, b);
    lemma_upsert(s, b.id, b);
    lemma_upsert(upsert(s, b.id, b), a.id, a);
}

/// An update and a delete of the same question, in either order: where the
/// update comes first it succeeds exactly when the question was there and the
/// delete then succeeds too; where the delete comes first the update finds
/// nothing and changes nothing. Both orders end in the same table, without
/// the question.
pub proof fn lemma_update_delete_race(
    s: Seq<(Seq<char>, QuestionModel)>,
    k: Seq<char>,
    q: QuestionModel,
)
    requires
        keys_unique(s),
    ensures
        has_key(replace(s, k, q), k) == has_key(s, k),
        !has_key(remove_key(s, k), k),
        replace(remove_key(s, k), k, q) == remove_key(s, k),
        remove_key(replace(s, k, q), k) == remove_key(s, k),
        !has_key(remove_key(replace(s, k, q), k), k),
{
    lemma_delete_then_get(s, k);
    if has_key(s, k) {
        let i = key_index(s, k);
        assert(s[i].0 == k);
        let t = replace(s, k, q);
        assert(keys_unique(t));
        lemma_key_index(t, k, i);
        assert(remove_key(t, k) =~= remove_key(s, k));
    }
}

} // verus!
