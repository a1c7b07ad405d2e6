use vstd::prelude::*;
use crate::codec::{Command, Outcome, Request, Response, parse_spec};
use crate::store::Database;

verus! {

/// What a command does to a store when it is applied: the new mapping and
/// the outcome reported to the client.
pub open spec fn apply_spec(m: Map<Seq<char>, Seq<char>>, c: Command) -> (
    Map<Seq<char>, Seq<char>>,
    Outcome,
) {
    match c {
        Command::Get(k) => (m, if m.contains_key(k) {
            Outcome::Value(k, m[k])
        } else {
            Outcome::Error("no key "@ + k)
        }),
        Command::Del(k) => (m.remove(k), Outcome::Del(k)),
        Command::Put(k, v) => (m.insert(k, v), Outcome::Put(k, v)),
        Command::Ping(t) => (m, Outcome::Message("PONG: "@ + t)),
        Command::Exit => (m, Outcome::Error("EXIT COMMAND NOT IMPLEMENTED YET"@)),
    }
}

/// Whether a command changes the store.
pub open spec fn is_mutation(c: Command) -> bool {
    c is Put || c is Del
}

/// The log line that records a mutation.
pub open spec fn record_spec(c: Command) -> Seq<char> {
    match c {
        Command::Put(k, v) => "PUT "@ + k + " "@ + v,
        Command::Del(k) => "DEL "@ + k,
        _ => Seq::empty(),
    }
}

/// The outcome of a mutation whose log record could not be written.
pub open spec fn persist_failed() -> Outcome {
    Outcome::Error("Error writing to persist log"@)
}

/// What handling one line decides: either the reply is ready, or `record`
/// must be appended to the log before `request` may touch the store.
#[derive(Debug, PartialEq, Eq)]
pub enum Step {
    Reply(Response),
    Persist { record: String, request: Request },
}

/// The mathematical model of a `Step`.
pub enum StepModel {
    Reply(Outcome),
    Persist(Seq<char>, Command),
}

impl View for Step {
    type V = StepModel;

    open spec fn view(&self) -> StepModel {
        match self {
            Step::Reply(r) => StepModel::Reply(r@),
            Step::Persist { record, request } => StepModel::Persist(record@, request@),
        }
    }
}

/// What handling `line` does to store `m`. With `write_log`, a mutation is
/// held back until its record is in the log; without it (replay), every
/// command is applied at once.
pub open spec fn line_spec(m: Map<Seq<char>, Seq<char>>, line: Seq<char>, write_log: bool) -> (
    Map<Seq<char>, Seq<char>>,
    StepModel,
) {
    match parse_spec(line) {
        Err(e) => (m, StepModel::Reply(Outcome::Error(e))),
        Ok(c) => if write_log && is_mutation(c) {
            (m, StepModel::Persist(record_spec(c), c))
        } else {
            (apply_spec(m, c).0, StepModel::Reply(apply_spec(m, c).1))
        },
    }
}

/// How a held-back command ends once the log append has been tried.
pub open spec fn finish_spec(m: Map<Seq<char>, Seq<char>>, c: Command, appended: bool) -> (
    Map<Seq<char>, Seq<char>>,
    Outcome,
) {
    if appended {
        apply_spec(m, c)
    } else {
        (m, persist_failed())
    }
}

/// The store that replaying `lines` from an empty store leaves, or the
/// parse error of the first line that is not a request.
pub open spec fn replay_spec(lines: Seq<Seq<char>>) -> Result<Map<Seq<char>, Seq<char>>, Seq<char>>
    decreases lines.len(),
{
    if lines.len() == 0 {
        Ok(Map::empty())
    } else {
        match replay_spec(lines.drop_last()) {
            Err(e) => Err(e),
            Ok(m) => match parse_spec(lines.last()) {
                Err(e) => Err(e),
                Ok(c) => Ok(apply_spec(m, c).0),
            },
        }
    }
}

/// The text of each line.
pub open spec fn line_views(lines: Seq<String>) -> Seq<Seq<char>> {
    lines.map_values(|s: String| s@)
}

/// The model of a replay result.
pub open spec fn replay_view(r: Result<Database, String>) -> Result<Map<Seq<char>, Seq<char>>, Seq<char>> {
    match r {
        Ok(db) => Ok(db@),
        Err(e) => Err(e@),
    }
}

impl Database {
    /// Applies `request` to the store, with no log involved.
    pub fn apply(&mut self, request: Request) -> (r: Response)
        requires
            old(self).wf(),
        ensures
            final(self).wf(),
            (final(self)@, r@) == apply_spec(old(self)@, request@),
            final(self).log_path() == old(self).log_path(),
    {
        match request {
            Request::Get { key } => match self.get(&key) {
                Ok(value) => Response::Value { key, value },
                Err(_) => Response::Error { msg: String::from_str("no key ").concat(key.as_str()) },
            },
            Request::Del { key } => {
                self.remove(&key);
                Response::Del { key }
            },
            Request::Put { key, value } => {
                self.insert(key.clone(), value.clone());
                Response::Put { key, value }
            },
            Request::Ping { msg } => Response::Message {
                msg: String::from_str("PONG: ").concat(msg.as_str()),
            },
            Request::Exit => Response::Error {
                msg: String::from_str("EXIT COMMAND NOT IMPLEMENTED YET"),
            },
        }
    }

    /// Handles one request line. With `write_log`, a mutation is not applied
    /// but handed back with the log record that must be written first.
    pub fn process_line(&mut self, line: &str, write_log: bool) -> (r: Step)
        requires
            old(self).wf(),
        ensures
            final(self).wf(),
            (final(self)@, r@) == line_spec(old(self)@, line@, write_log),
            final(self).log_path() == old(self).log_path(),
    {
        let request = match Request::parse(line) {
            Ok(req) => req,
            Err(e) => return Step::Reply(Response::Error { msg: e }),
        };
        if !write_log {
            return Step::Reply(self.apply(request));
        }
        match request {
            Request::Put { key, value } => {
                let record = String::from_str("PUT ").concat(key.as_str()).concat(" ").concat(
                    value.as_str(),
                );
                Step::Persist { record, request: Request::Put { key, value } }
            },
            Request::Del { key } => {
                let record = String::from_str("DEL ").concat(key.as_str());
                Step::Persist { record, request: Request::Del { key } }
            },
            other => Step::Reply(self.apply(other)),
        }
    }

    /// Ends a held-back command: applies it if its record was appended,
    /// and otherwise reports the failure and leaves the store unchanged.
    pub fn finish_persist(&mut self, request: Request, appended: bool) -> (r: Response)
        requires
            old(self).wf(),
        ensures
            final(self).wf(),
            (final(self)@, r@) == finish_spec(old(self)@, request@, appended),
            final(self).log_path() == old(self).log_path(),
    {
        if appended {
            self.apply(request)
        } else {
            Response::Error { msg: String::from_str("Error writing to persist log") }
        }
    }

    /// Rebuilds a store from the lines of its log, applying each in order
    /// and writing nothing back. Fails on the first line that does not parse.
    pub fn replay(persist_log: String, lines: &Vec<String>) -> (r: Result<Database, String>)
        ensures
            replay_view(r) == replay_spec(line_views(lines@)),
            r matches Ok(db) ==> db.wf() && db.log_path() == persist_log@,
    {
        let ghost path = persist_log@;
        let mut db = Database::new(persist_log);
        let mut i: usize = 0;
        proof {
            assert(line_views(lines@).take(0) =~= Seq::<Seq<char>>::empty());
        }
        while i < lines.len()
            invariant
                i <= lines@.len(),
                db.wf(),
                db.log_path() == path,
                replay_spec(line_views(lines@).take(i as int)) == Ok::<
                    Map<Seq<char>, Seq<char>>,
                    Seq<char>,
                >(db@),
            decreases lines@.len() - i,
        {
            let ghost prefix = line_views(lines@).take(i as int + 1);
            proof {
                assert(prefix.drop_last() =~= line_views(lines@).take(i as int));
                assert(prefix.last() == lines@[i as int]@);
            }
            match Request::parse(lines[i].as_str()) {
                Err(e) => {
                    proof {
                        lemma_replay_stops(line_views(lines@), i as int + 1);
                    }
                    return Err(e);
                },
                Ok(req) => {
                    db.apply(req);
                },
            }
            i = i + 1;
        }
        proof {
            assert(line_views(lines@).take(i as int) =~= line_views(lines@));
        }
        Ok(db)
    }
}

/// Once replay fails on a prefix, it fails with the same error on every
/// longer prefix.
proof fn lemma_replay_stops(lines: Seq<Seq<char>>, n: int)
    requires
        0 <= n <= lines.len(),
        replay_spec(lines.take(n)) is Err,
    ensures
        replay_spec(lines) == replay_spec(lines.take(n)),
    decreases lines.len() - n,
{
    if n < lines.len() {
        let p = lines.take(n + 1);
        assert(p.drop_last() =~= lines.take(n));
        lemma_replay_stops(lines, n + 1);
    } else {
        assert(lines.take(n) =~= lines);
    }
}

} // verus!
