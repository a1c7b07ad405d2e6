use vstd::prelude::*;
use crate::codec::{Command, Outcome, ascii_upper, head, parse_spec, space_from, tail};
use crate::session::{StepModel, apply_spec, finish_spec, line_spec, persist_failed, record_spec};

verus! {

/// `s` holds no space, so it can stand as a key in a request line.
pub open spec fn no_space(s: Seq<char>) -> bool {
    forall|i: int| 0 <= i < s.len() ==> s[i] != ' '
}

proof fn lemma_space_from_none(s: Seq<char>, i: int)
    requires
        0 <= i <= s.len(),
        forall|j: int| i <= j < s.len() ==> s[j] != ' ',
    ensures
        space_from(s, i) == s.len(),
    decreases s.len() - i,
{
    if i < s.len() {
        lemma_space_from_none(s, i + 1);
    }
}

proof fn lemma_space_from_at(s: Seq<char>, i: int, p: int)
    requires
        0 <= i <= p < s.len(),
        s[p] == ' ',
        forall|j: int| i <= j < p ==> s[j] != ' ',
    ensures
        space_from(s, i) == p,
    decreases p - i,
{
    if i < p {
        lemma_space_from_at(s, i + 1, p);
    }
}

proof fn lemma_split_at_space(a: Seq<char>, b: Seq<char>)
    requires
        no_space(a),
    ensures
        head(a + seq![' '] + b) == a,
        tail(a + seq![' '] + b) == Some(b),
{
    let s = a + seq![' '] + b;
    assert(s[a.len() as int] == ' ');
    assert forall|j: int| 0 <= j < a.len() implies s[j] != ' ' by {
        assert(s[j] == a[j]);
    }
    lemma_space_from_at(s, 0, a.len() as int);
    assert(s.subrange(0, a.len() as int) =~= a);
    assert(s.subrange(a.len() as int + 1, s.len() as int) =~= b);
}

proof fn lemma_no_split(a: Seq<char>)
    requires
        no_space(a),
    ensures
        head(a) == a,
        tail(a) is None,
{
    lemma_space_from_none(a, 0);
    assert(a.subrange(0, a.len() as int) =~= a);
}

/// A request line written as `GET k`, `DEL k` or `PUT k v`, with a key `k`
/// that holds no space, parses back to the command it was written from.
pub proof fn lemma_parse_request_lines(k: Seq<char>, v: Seq<char>)
    requires
        no_space(k),
    ensures
        parse_spec("GET "@ + k) == Ok::<Command, Seq<char>>(Command::Get(k)),
        parse_spec("DEL "@ + k) == Ok::<Command, Seq<char>>(Command::Del(k)),
        parse_spec("PUT "@ + k + " "@ + v) == Ok::<Command, Seq<char>>(Command::Put(k, v)),
{
    reveal_strlit("GET ");
    reveal_strlit("DEL ");
    reveal_strlit("PUT ");
    reveal_strlit("GET");
    reveal_strlit("DEL");
    reveal_strlit("PUT");
    reveal_strlit(" ");
    lemma_no_split(k);
    lemma_split_at_space(k, v);

    assert("GET "@ + k =~= "GET"@ + seq![' '] + k);
    lemma_split_at_space("GET"@, k);
    assert(ascii_upper("GET"@) =~= "GET"@);

    assert("DEL "@ + k =~= "DEL"@ + seq![' '] + k);
    lemma_split_at_space("DEL"@, k);
    assert(ascii_upper("DEL"@) =~= "DEL"@);
    assert("DEL"@[0] != "GET"@[0]);
    assert("DEL"@[0] != "PUT"@[0]);

    let kv = k + seq![' '] + v;
    assert("PUT "@ + k + " "@ + v =~= "PUT"@ + seq![' '] + kv);
    lemma_split_at_space("PUT"@, kv);
    assert(ascii_upper("PUT"@) =~= "PUT"@);
    assert("PUT"@[0] != "GET"@[0]);
}

/// A live `PUT k v` is first held back for its log record; once the record
/// is written and the command applied, `GET k` answers with `v`.
pub proof fn lemma_put_then_get(m: Map<Seq<char>, Seq<char>>, k: Seq<char>, v: Seq<char>)
    requires
        no_space(k),
    ensures
        line_spec(m, "PUT "@ + k + " "@ + v, true) == (
            m,
            StepModel::Persist("PUT "@ + k + " "@ + v, Command::Put(k, v)),
        ),
        line_spec(finish_spec(m, Command::Put(k, v), true).0, "GET "@ + k, true).1
            == StepModel::Reply(Outcome::Value(k, v)),
{
    lemma_parse_request_lines(k, v);
    assert(record_spec(Command::Put(k, v)) == "PUT "@ + k + " "@ + v);
}

/// Putting the same pair twice leaves the store as putting it once, and
/// reports the same outcome.
pub proof fn lemma_put_idempotent(m: Map<Seq<char>, Seq<char>>, k: Seq<char>, v: Seq<char>)
    ensures
        apply_spec(apply_spec(m, Command::Put(k, v)).0, Command::Put(k, v)) == apply_spec(
            m,
            Command::Put(k, v),
        ),
{
    assert(m.insert(k, v).insert(k, v) =~= m.insert(k, v));
}

/// After deleting `k`, looking it up fails with `no key k`, whether or not
/// `k` was present before.
pub proof fn lemma_delete_then_get(m: Map<Seq<char>, Seq<char>>, k: Seq<char>)
    ensures
        apply_spec(apply_spec(m, Command::Del(k)).0, Command::Get(k)).1 == Outcome::Error(
            "no key "@ + k,
        ),
{
}

/// With logging on, no line changes the store by itself; a held-back
/// mutation whose log append fails leaves the store as it was and reports
/// the failure.
pub proof fn lemma_failed_append_keeps_store(m: Map<Seq<char>, Seq<char>>, line: Seq<char>)
    ensures
        line_spec(m, line, true).0 == m,
        match line_spec(m, line, true).1 {
            StepModel::Persist(_, c) => finish_spec(m, c, false) == (m, persist_failed()),
            StepModel::Reply(_) => true,
        },
{
}

/// Without logging, as during replay, no line asks for a log record: each
/// is answered at once.
pub proof fn lemma_replay_writes_no_record(m: Map<Seq<char>, Seq<char>>, line: Seq<char>)
    ensures
        line_spec(m, line, false).1 is Reply,
{
}

} // verus!
