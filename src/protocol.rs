//! OACSP, the line protocol spoken with clients: parsing of request lines,
//! the handshake that turns them into commands, and the text of events.
use vstd::prelude::*;
use vstd::string::*;

use crate::domain::{value_text, Client, Command, CommandView, Event, Value, Var, VarView};
use crate::error::{Error, ErrorKind};
use crate::offset::{offset_of_text, Offset};
use crate::text::{int_in_range, push_str, render, split_words, string_of, words};

verus! {

/// `w` spells `verb` with any of its letters in lower case.
pub open spec fn verb_is(w: Seq<char>, verb: Seq<char>) -> bool {
    &&& w.len() == verb.len()
    &&& forall|i: int| 0 <= i < w.len() ==> #[trigger] w[i] == verb[i]
        || ('a' <= w[i] && w[i] <= 'z' && w[i] as int - 32 == verb[i] as int)
}

/// Whether word `w` is the verb `verb` (given in upper case), ignoring case.
pub fn verb_matches(w: &str, verb: &str) -> (r: bool)
    ensures
        r == verb_is(w@, verb@),
{
    let n = w.unicode_len();
    if n != verb.unicode_len() {
        return false;
    }
    let mut i: usize = 0;
    while i < n
        invariant
            n == w@.len(),
            n == verb@.len(),
            i <= n,
            forall|k: int| 0 <= k < i ==> #[trigger] w@[k] == verb@[k]
                || ('a' <= w@[k] && w@[k] <= 'z' && w@[k] as int - 32 == verb@[k] as int),
        decreases n - i,
    {
        let a = w.get_char(i);
        let b = verb.get_char(i);
        let same = a == b || ('a' <= a && a <= 'z' && (a as u32) - 32 == b as u32);
        if !same {
            return false;
        }
        i = i + 1;
    }
    true
}

/// A request line, as read.
#[derive(Debug)]
pub enum RawInputMessage {
    Begin { version: u16, client_id: String },
    WriteLvar { lvar: String, value: Value },
    WriteOffset { offset: Offset, value: Value },
    ObserveLvar { lvar: String },
    ObserveOffset { offset: Offset },
}

/// The mathematical content of a request line.
pub enum InputView {
    Begin(int, Seq<char>),
    WriteLvar(Seq<char>, Value),
    WriteOffset(Offset, Value),
    ObserveLvar(Seq<char>),
    ObserveOffset(Offset),
}

impl RawInputMessage {
    pub open spec fn view_input(&self) -> InputView {
        match self {
            RawInputMessage::Begin { version, client_id } => InputView::Begin(*version as int, client_id@),
            RawInputMessage::WriteLvar { lvar, value } => InputView::WriteLvar(lvar@, *value),
            RawInputMessage::WriteOffset { offset, value } => InputView::WriteOffset(*offset, *value),
            RawInputMessage::ObserveLvar { lvar } => InputView::ObserveLvar(lvar@),
            RawInputMessage::ObserveOffset { offset } => InputView::ObserveOffset(*offset),
        }
    }
}

/// The value that a number takes with the given signedness.
pub open spec fn typed_value(signed: bool, x: int) -> Value {
    if signed { Value::Int(x as isize) } else { Value::UnsignedInt(x as usize) }
}

/// A number for a value of the given signedness, in the range of `isize` or `usize`.
pub open spec fn number_of(s: Seq<char>, signed: bool) -> Option<int> {
    if signed {
        int_in_range(s, true, isize::MIN as int, isize::MAX as int)
    } else {
        int_in_range(s, false, 0, usize::MAX as int)
    }
}

/// The request that a line holds, if it is well formed: a verb in any case,
/// then exactly the arguments that the verb takes.
pub open spec fn parsed(line: Seq<char>) -> Option<InputView> {
    let w = words(line);
    if w.len() == 0 {
        None
    } else if verb_is(w[0], "BEGIN"@) {
        if w.len() != 3 {
            None
        } else {
            match int_in_range(w[1], false, 0, 0xFFFF) {
                Some(v) => Some(InputView::Begin(v, w[2])),
                None => None,
            }
        }
    } else if verb_is(w[0], "WRITE_LVAR"@) {
        if w.len() != 3 {
            None
        } else {
            match number_of(w[2], true) {
                Some(x) => Some(InputView::WriteLvar(w[1], typed_value(true, x))),
                None => None,
            }
        }
    } else if verb_is(w[0], "WRITE_OFFSET"@) {
        if w.len() != 3 {
            None
        } else {
            match offset_of_text(w[1]) {
                Some(o) => match number_of(w[2], o.1.signed()) {
                    Some(x) => Some(InputView::WriteOffset(o, typed_value(o.1.signed(), x))),
                    None => None,
                },
                None => None,
            }
        }
    } else if verb_is(w[0], "OBS_LVAR"@) {
        if w.len() != 2 {
            None
        } else {
            Some(InputView::ObserveLvar(w[1]))
        }
    } else if verb_is(w[0], "OBS_OFFSET"@) {
        if w.len() != 2 {
            None
        } else {
            match offset_of_text(w[1]) {
                Some(o) => Some(InputView::ObserveOffset(o)),
                None => None,
            }
        }
    } else {
        None
    }
}

impl PartialEq for RawInputMessage {
    fn eq(&self, other: &RawInputMessage) -> (r: bool) {
        match self {
            RawInputMessage::Begin { version, client_id } => match other {
                RawInputMessage::Begin { version: v2, client_id: c2 } => *version == *v2 && client_id.eq(c2),
                _ => false,
            },
            RawInputMessage::WriteLvar { lvar, value } => match other {
                RawInputMessage::WriteLvar { lvar: l2, value: v2 } => lvar.eq(l2) && *value == *v2,
                _ => false,
            },
            RawInputMessage::WriteOffset { offset, value } => match other {
                RawInputMessage::WriteOffset { offset: o2, value: v2 } => offset.0.0 == o2.0.0 && offset.1 == o2.1
                    && *value == *v2,
                _ => false,
            },
            RawInputMessage::ObserveLvar { lvar } => match other {
                RawInputMessage::ObserveLvar { lvar: l2 } => lvar.eq(l2),
                _ => false,
            },
            RawInputMessage::ObserveOffset { offset } => match other {
                RawInputMessage::ObserveOffset { offset: o2 } => offset.0.0 == o2.0.0 && offset.1 == o2.1,
                _ => false,
            },
        }
    }
}

impl vstd::std_specs::cmp::PartialEqSpecImpl for RawInputMessage {
    open spec fn obeys_eq_spec() -> bool {
        true
    }

    open spec fn eq_spec(&self, other: &RawInputMessage) -> bool {
        self.view_input() == other.view_input()
    }
}

impl RawInputMessage {
    pub fn begin(version: u16, client_id: &str) -> (r: RawInputMessage)
        ensures
            r.view_input() == InputView::Begin(version as int, client_id@),
    {
        RawInputMessage::Begin { version, client_id: String::from_str(client_id) }
    }

    pub fn write_lvar(lvar: &str, value: Value) -> (r: RawInputMessage)
        ensures
            r.view_input() == InputView::WriteLvar(lvar@, value),
    {
        RawInputMessage::WriteLvar { lvar: String::from_str(lvar), value }
    }

    pub fn write_offset(offset: Offset, value: Value) -> (r: RawInputMessage)
        ensures
            r.view_input() == InputView::WriteOffset(offset, value),
    {
        RawInputMessage::WriteOffset { offset, value }
    }

    pub fn obs_lvar(lvar: &str) -> (r: RawInputMessage)
        ensures
            r.view_input() == InputView::ObserveLvar(lvar@),
    {
        RawInputMessage::ObserveLvar { lvar: String::from_str(lvar) }
    }

    /// Reads the request of a line, as `MessageParser::parse` does.
    pub fn from_str(s: &str) -> (r: Result<RawInputMessage, Error>)
        ensures
            r matches Ok(m) ==> parsed(s@) == Some(m.view_input()),
            r matches Err(e) ==> parsed(s@) is None && e.kind == ErrorKind::InvalidInput,
    {
        MessageParser::new(s).parse()
    }

    pub fn obs_offset(offset: Offset) -> (r: RawInputMessage)
        ensures
            r.view_input() == InputView::ObserveOffset(offset),
    {
        RawInputMessage::ObserveOffset { offset }
    }
}

/// A parser for one request line.
pub struct MessageParser<'a> {
    input: &'a str,
}

impl<'a> MessageParser<'a> {
    pub closed spec fn input_view(&self) -> Seq<char> {
        self.input@
    }

    pub fn new(input: &'a str) -> (r: MessageParser<'a>)
        ensures
            r.input_view() == input@,
    {
        MessageParser { input }
    }

    /// Reads the request of the line; a malformed line, an unknown verb, a
    /// wrong number of arguments or a bad number is `InvalidInput`.
    pub fn parse(self) -> (r: Result<RawInputMessage, Error>)
        ensures
            r matches Ok(m) ==> parsed(self.input_view()) == Some(m.view_input()),
            r matches Err(e) ==> parsed(self.input_view()) is None && e.kind == ErrorKind::InvalidInput,
    {
        let bad = Error::new(ErrorKind::InvalidInput);
        let args = split_words(self.input);
        let ghost w = words(self.input@);
        if args.len() == 0 {
            return Err(bad);
        }
        let verb = args[0].as_str();
        let argc = args.len();
        if verb_matches(verb, "BEGIN") {
            if argc != 3 {
                return Err(bad);
            }
            match crate::text::parse_int(args[1].as_str(), false, 0, 0xFFFF) {
                Some(v) => Ok(RawInputMessage::Begin { version: v as u16, client_id: args[2].clone() }),
                None => Err(bad),
            }
        } else if verb_matches(verb, "WRITE_LVAR") {
            if argc != 3 {
                return Err(bad);
            }
            match Value::parse_int(args[2].as_str()) {
                Ok(v) => Ok(RawInputMessage::WriteLvar { lvar: args[1].clone(), value: v }),
                Err(e) => Err(e),
            }
        } else if verb_matches(verb, "WRITE_OFFSET") {
            if argc != 3 {
                return Err(bad);
            }
            let offset = match Offset::from_str(args[1].as_str()) {
                Ok(o) => o,
                Err(e) => {
                    return Err(e);
                },
            };
            match offset.parse_value(args[2].as_str()) {
                Ok(v) => Ok(RawInputMessage::WriteOffset { offset, value: v }),
                Err(e) => Err(e),
            }
        } else if verb_matches(verb, "OBS_LVAR") {
            if argc != 2 {
                return Err(bad);
            }
            Ok(RawInputMessage::ObserveLvar { lvar: args[1].clone() })
        } else if verb_matches(verb, "OBS_OFFSET") {
            if argc != 2 {
                return Err(bad);
            }
            match Offset::from_str(args[1].as_str()) {
                Ok(o) => Ok(RawInputMessage::ObserveOffset { offset: o }),
                Err(e) => Err(e),
            }
        } else {
            Err(bad)
        }
    }
}

/// The command that a request asks for, once the handshake is done, on
/// behalf of the client named `client`.
pub open spec fn command_of(m: InputView, client: Seq<char>) -> Option<CommandView> {
    match m {
        InputView::Begin(_, _) => None,
        InputView::WriteLvar(n, v) => Some(CommandView::Write(VarView::LVar(n), v)),
        InputView::WriteOffset(o, v) => Some(CommandView::Write(VarView::FsuipcOffset(o), v)),
        InputView::ObserveLvar(n) => Some(CommandView::Observe(VarView::LVar(n), client)),
        InputView::ObserveOffset(o) => Some(CommandView::Observe(VarView::FsuipcOffset(o), client)),
    }
}

/// The reading side of a connection: awaits `BEGIN`, then turns each request
/// line into a command on behalf of its client.
pub struct Session {
    client: Client,
    client_id: Option<String>,
}

impl Session {
    pub closed spec fn begun(&self) -> bool {
        self.client_id is Some
    }

    pub closed spec fn client_name(&self) -> Seq<char> {
        self.client.name_view()
    }

    pub fn new(client: Client) -> (r: Session)
        ensures
            !r.begun(),
            r.client_name() == client.name_view(),
    {
        Session { client, client_id: None }
    }

    pub fn is_begun(&self) -> (r: bool)
        ensures
            r == self.begun(),
    {
        self.client_id.is_some()
    }

    /// The name of the connection's client, for the `Close` that ends it.
    pub fn client_name_string(&self) -> (r: String)
        ensures
            r@ == self.client_name(),
    {
        String::from_str(self.client.name())
    }

    /// Processes one request line. Before the handshake only `BEGIN` is
    /// accepted; a second `BEGIN`, or any other request before the first, is
    /// `InvalidData`. After it, each request yields its command.
    pub fn process_line(&mut self, line: &str) -> (r: Result<Option<Command>, Error>)
        ensures
            final(self).client_name() == old(self).client_name(),
            match parsed(line@) {
                None => r == Err::<Option<Command>, Error>(Error { kind: ErrorKind::InvalidInput })
                    && final(self).begun() == old(self).begun(),
                Some(InputView::Begin(_, _)) => if old(self).begun() {
                    r == Err::<Option<Command>, Error>(Error { kind: ErrorKind::InvalidData }) && final(self).begun()
                } else {
                    r == Ok::<Option<Command>, Error>(None) && final(self).begun()
                },
                Some(m) => if old(self).begun() {
                    &&& final(self).begun()
                    &&& r matches Ok(Some(c))
                    &&& command_of(m, old(self).client_name()) == Some(c.view_cmd())
                } else {
                    r == Err::<Option<Command>, Error>(Error { kind: ErrorKind::InvalidData }) && !final(self).begun()
                },
            },
    {
        let msg = match MessageParser::new(line).parse() {
            Ok(m) => m,
            Err(e) => {
                return Err(e);
            },
        };
        let begun = self.client_id.is_some();
        match msg {
            RawInputMessage::Begin { version: _, client_id } => {
                if begun {
                    Err(Error::new(ErrorKind::InvalidData))
                } else {
                    self.client_id = Some(client_id);
                    Ok(None)
                }
            },
            _ if !begun => Err(Error::new(ErrorKind::InvalidData)),
            RawInputMessage::WriteLvar { lvar, value } => Ok(Some(Command::Write(Var::LVar(lvar), value))),
            RawInputMessage::WriteOffset { offset, value } => Ok(
                Some(Command::Write(Var::FsuipcOffset(offset), value)),
            ),
            RawInputMessage::ObserveLvar { lvar } => Ok(Some(Command::Observe(Var::LVar(lvar), self.client.duplicate()))),
            RawInputMessage::ObserveOffset { offset } => Ok(
                Some(Command::Observe(Var::FsuipcOffset(offset), self.client.duplicate())),
            ),
        }
    }
}

/// The line that reports `x` for variable `v`: `EVENT_LVAR <name> <value>` or
/// `EVENT_OFFSET <addr_hex> <value>`, ended by a newline.
pub open spec fn event_line(v: VarView, x: Value) -> Seq<char> {
    match v {
        VarView::LVar(n) => "EVENT_LVAR "@ + n + seq![' '] + value_text(x) + seq!['\n'],
        VarView::FsuipcOffset(o) => "EVENT_OFFSET "@ + render(o.0.0 as nat, 16) + seq![' '] + value_text(x) + seq!['\n'],
    }
}

/// An event as a client receives it.
#[derive(Debug)]
pub enum RawOutputMessage {
    EventLvar { lvar: String, value: Value },
    EventOffset { offset: Offset, value: Value },
}

/// The text of an event message, without its line end.
pub open spec fn output_text(m: &RawOutputMessage) -> Seq<char> {
    match m {
        RawOutputMessage::EventLvar { lvar, value } => "EVENT_LVAR "@ + lvar@ + seq![' '] + value_text(*value),
        RawOutputMessage::EventOffset { offset, value } => "EVENT_OFFSET "@ + render(offset.0.0 as nat, 16) + seq![
            ' ',
        ] + value_text(*value),
    }
}

impl RawOutputMessage {
    pub fn event_lvar(lvar: &str, value: Value) -> (r: RawOutputMessage)
        ensures
            r matches RawOutputMessage::EventLvar { lvar: l, value: v } && l@ == lvar@ && v == value,
    {
        RawOutputMessage::EventLvar { lvar: String::from_str(lvar), value }
    }

    pub fn event_offset(offset: Offset, value: Value) -> (r: RawOutputMessage)
        ensures
            r == (RawOutputMessage::EventOffset { offset, value }),
    {
        RawOutputMessage::EventOffset { offset, value }
    }

    /// Appends the text of this message to `out`.
    pub fn push_text(&self, out: &mut Vec<char>)
        ensures
            final(out)@ == old(out)@ + output_text(self),
    {
        match self {
            RawOutputMessage::EventLvar { lvar, value } => {
                push_str("EVENT_LVAR ", out);
                push_str(lvar.as_str(), out);
                out.push(' ');
                value.push_text(out);
            },
            RawOutputMessage::EventOffset { offset, value } => {
                push_str("EVENT_OFFSET ", out);
                crate::text::push_digits(offset.0.0 as u64, 16, out);
                out.push(' ');
                value.push_text(out);
            },
        }
        assert(final(out)@ =~= old(out)@ + output_text(self));
    }

    /// The text of this message: `EVENT_LVAR <name> <value>` or
    /// `EVENT_OFFSET <addr_hex> <value>`.
    pub fn to_string(&self) -> (r: String)
        ensures
            r@ == output_text(self),
    {
        let mut out: Vec<char> = Vec::new();
        self.push_text(&mut out);
        assert(out@ =~= output_text(self));
        string_of(out)
    }
}

/// The line that carries an event to a client; `Close` carries none.
pub fn encode_event(ev: &Event) -> (r: Option<String>)
    ensures
        match *ev {
            Event::Update(v, x) => r matches Some(s) && s@ == event_line(v.view_var(), x),
            Event::Close => r is None,
        },
{
    match ev {
        Event::Update(v, x) => {
            let raw = match v {
                Var::LVar(n) => RawOutputMessage::EventLvar { lvar: n.clone(), value: *x },
                Var::FsuipcOffset(o) => RawOutputMessage::EventOffset { offset: *o, value: *x },
            };
            let mut out: Vec<char> = Vec::new();
            raw.push_text(&mut out);
            out.push('\n');
            assert(out@ =~= event_line(v.view_var(), *x));
            Some(string_of(out))
        },
        Event::Close => None,
    }
}

} // verus!
