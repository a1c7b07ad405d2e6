use vstd::prelude::*;

verus! {

/// A client request, as parsed from one line.
#[derive(Debug, PartialEq, Eq)]
pub enum Request {
    Exit,
    Ping { msg: String },
    Get { key: String },
    Del { key: String },
    Put { key: String, value: String },
}

/// The result of handling one request.
#[derive(Debug, PartialEq, Eq)]
pub enum Response {
    Value { key: String, value: String },
    Put { key: String, value: String },
    Del { key: String },
    Error { msg: String },
    Message { msg: String },
}

/// The mathematical model of a `Request`.
pub enum Command {
    Exit,
    Ping(Seq<char>),
    Get(Seq<char>),
    Del(Seq<char>),
    Put(Seq<char>, Seq<char>),
}

/// The mathematical model of a `Response`.
pub enum Outcome {
    Value(Seq<char>, Seq<char>),
    Put(Seq<char>, Seq<char>),
    Del(Seq<char>),
    Error(Seq<char>),
    Message(Seq<char>),
}

impl View for Request {
    type V = Command;

    open spec fn view(&self) -> Command {
        match self {
            Request::Exit => Command::Exit,
            Request::Ping { msg } => Command::Ping(msg@),
            Request::Get { key } => Command::Get(key@),
            Request::Del { key } => Command::Del(key@),
            Request::Put { key, value } => Command::Put(key@, value@),
        }
    }
}

impl View for Response {
    type V = Outcome;

    open spec fn view(&self) -> Outcome {
        match self {
            Response::Value { key, value } => Outcome::Value(key@, value@),
            Response::Put { key, value } => Outcome::Put(key@, value@),
            Response::Del { key } => Outcome::Del(key@),
            Response::Error { msg } => Outcome::Error(msg@),
            Response::Message { msg } => Outcome::Message(msg@),
        }
    }
}

/// The ASCII upper case of a character; any other character is left alone.
pub open spec fn upper_char(c: char) -> char {
    if 'a' <= c && c <= 'z' {
        ((c as u32) - 32) as char
    } else {
        c
    }
}

/// `s` with every character put in ASCII upper case.
pub open spec fn ascii_upper(s: Seq<char>) -> Seq<char> {
    Seq::new(s.len(), |i: int| upper_char(s[i]))
}

/// Index of the first space in `s` at or after `i`, or `s.len()` if there is none.
pub open spec fn space_from(s: Seq<char>, i: int) -> int
    decreases s.len() - i,
{
    if i >= s.len() {
        s.len() as int
    } else if 0 <= i && s[i] == ' ' {
        i
    } else {
        space_from(s, i + 1)
    }
}

/// The part of `s` before its first space (all of `s` if it has none).
pub open spec fn head(s: Seq<char>) -> Seq<char> {
    s.subrange(0, space_from(s, 0))
}

/// What follows the first space of `s`, if it has one.
pub open spec fn tail(s: Seq<char>) -> Option<Seq<char>> {
    let i = space_from(s, 0);
    if i < s.len() {
        Some(s.subrange(i + 1, s.len() as int))
    } else {
        None
    }
}

/// The meaning of one request line. The line is cut at single spaces into
/// at most three parts: the verb (case-insensitive), a key, and a last part
/// that keeps everything after the key.
pub open spec fn parse_spec(line: Seq<char>) -> Result<Command, Seq<char>> {
    let verb = ascii_upper(head(line));
    let rest = tail(line);
    if verb == "GET"@ {
        match rest {
            None => Err("GET must be followed by a key"@),
            Some(t) => if tail(t) is Some {
                Err("GET's key must not be followed by anything"@)
            } else {
                Ok(Command::Get(head(t)))
            },
        }
    } else if verb == "PUT"@ {
        match rest {
            None => Err("PUT must be followed by a key"@),
            Some(t) => match tail(t) {
                None => Err("PUT needs a value"@),
                Some(v) => Ok(Command::Put(head(t), v)),
            },
        }
    } else if verb == "DEL"@ {
        match rest {
            None => Err("DEL must be followed by a key"@),
            Some(t) => if tail(t) is Some {
                Err("DEL`'s key must not be followed by anything"@)
            } else {
                Ok(Command::Del(head(t)))
            },
        }
    } else if verb == "PING"@ {
        match rest {
            None => Ok(Command::Ping(Seq::empty())),
            Some(t) => Ok(Command::Ping(head(t))),
        }
    } else if verb == "EXIT"@ || verb == "QUIT"@ {
        Ok(Command::Exit)
    } else {
        Err("unknown command: "@ + verb)
    }
}

/// The model of a parse result.
pub open spec fn parse_view(r: Result<Request, String>) -> Result<Command, Seq<char>> {
    match r {
        Ok(req) => Ok(req@),
        Err(e) => Err(e@),
    }
}

/// The text of a response line, without its line separator.
pub open spec fn serialize_spec(o: Outcome) -> Seq<char> {
    match o {
        Outcome::Value(k, v) => "GET "@ + k + " == "@ + v,
        Outcome::Put(k, v) => "PUT "@ + k + " "@ + v,
        Outcome::Del(k) => "DEL "@ + k,
        Outcome::Error(m) => "error: "@ + m,
        Outcome::Message(m) => m,
    }
}

/// Relies on `str::to_ascii_uppercase`: ASCII letters `a` to `z` become
/// `A` to `Z`, and every other character is kept.
#[verifier::external_body]
fn to_ascii_upper(s: &str) -> (r: String)
    ensures
        r@ == ascii_upper(s@),
{
    s.to_ascii_uppercase()
}

/// Index of the first space of `s` at or after `from`, or `n` if there is none.
fn space_index(s: &str, from: usize, n: usize) -> (r: usize)
    requires
        n == s@.len(),
        from <= n,
    ensures
        r == space_from(s@, from as int),
{
    let mut i: usize = from;
    while i < n
        invariant
            from <= i <= n,
            n == s@.len(),
            space_from(s@, from as int) == space_from(s@, i as int),
        decreases n - i,
    {
        if s.get_char(i) == ' ' {
            return i;
        }
        i = i + 1;
    }
    i
}

/// The first space at or after `i` lies between `i` and the end.
proof fn lemma_space_from_bounds(s: Seq<char>, i: int)
    requires
        0 <= i <= s.len(),
    ensures
        i <= space_from(s, i) <= s.len(),
    decreases s.len() - i,
{
    if i < s.len() && s[i] != ' ' {
        lemma_space_from_bounds(s, i + 1);
    }
}

/// Cuts `s` at its first space.
fn split_first<'a>(s: &'a str) -> (r: (&'a str, Option<&'a str>))
    ensures
        r.0@ == head(s@),
        match r.1 {
            Some(t) => tail(s@) == Some(t@),
            None => tail(s@) is None,
        },
{
    let n = s.unicode_len();
    let i = space_index(s, 0, n);
    proof {
        lemma_space_from_bounds(s@, 0);
    }
    let h = s.substring_char(0, i);
    if i < n {
        (h, Some(s.substring_char(i + 1, n)))
    } else {
        (h, None)
    }
}

impl Request {
    /// Parses one request line.
    pub fn parse(input: &str) -> (r: Result<Request, String>)
        ensures
            parse_view(r) == parse_spec(input@),
    {
        let (word, rest) = split_first(input);
        let command = to_ascii_upper(word);
        if command == String::from_str("GET") {
            match rest {
                None => Err(String::from_str("GET must be followed by a key")),
                Some(t) => {
                    let (key, more) = split_first(t);
                    if more.is_some() {
                        Err(String::from_str("GET's key must not be followed by anything"))
                    } else {
                        Ok(Request::Get { key: String::from_str(key) })
                    }
                },
            }
        } else if command == String::from_str("PUT") {
            match rest {
                None => Err(String::from_str("PUT must be followed by a key")),
                Some(t) => {
                    let (key, more) = split_first(t);
                    match more {
                        None => Err(String::from_str("PUT needs a value")),
                        Some(value) => Ok(
                            Request::Put { key: String::from_str(key), value: String::from_str(value) },
                        ),
                    }
                },
            }
        } else if command == String::from_str("DEL") {
            match rest {
                None => Err(String::from_str("DEL must be followed by a key")),
                Some(t) => {
                    let (key, more) = split_first(t);
                    if more.is_some() {
                        Err(String::from_str("DEL`'s key must not be followed by anything"))
                    } else {
                        Ok(Request::Del { key: String::from_str(key) })
                    }
                },
            }
        } else if command == String::from_str("PING") {
            match rest {
                None => Ok(Request::Ping { msg: String::new() }),
                Some(t) => {
                    let (msg, _more) = split_first(t);
                    Ok(Request::Ping { msg: String::from_str(msg) })
                },
            }
        } else if command == String::from_str("EXIT") || command == String::from_str("QUIT") {
            Ok(Request::Exit)
        } else {
            Err(String::from_str("unknown command: ").concat(command.as_str()))
        }
    }
}

impl Response {
    /// The text of this response, without a line separator.
    pub fn serialize(&self) -> (r: String)
        ensures
            r@ == serialize_spec(self@),
    {
        match self {
            Response::Value { key, value } => String::from_str("GET ").concat(key.as_str()).concat(
                " == ",
            ).concat(value.as_str()),
            Response::Put { key, value } => String::from_str("PUT ").concat(key.as_str()).concat(
                " ",
            ).concat(value.as_str()),
            Response::Del { key } => String::from_str("DEL ").concat(key.as_str()),
            Response::Error { msg } => String::from_str("error: ").concat(msg.as_str()),
            Response::Message { msg } => String::from_str(msg.as_str()),
        }
    }
}

} // verus!
