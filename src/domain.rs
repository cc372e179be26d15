//! The values that flow between clients and domains: variables, values,
//! clients, commands and events.
use vstd::prelude::*;
use vstd::string::*;

use crate::error::{Error, ErrorKind};
use crate::channel::clone_sender;
use crate::offset::Offset;
use crate::text::{int_in_range, push_int, render_int, string_of, parse_int};

verus! {

/// A value read from or written to the simulator.
#[derive(Clone, Copy, Debug, PartialEq, Eq, Structural)]
pub enum Value {
    Bool(bool),
    Int(isize),
    UnsignedInt(usize),
}

/// The number a value stands for: booleans count as 1 and 0.
pub open spec fn value_number(v: Value) -> int {
    match v {
        Value::Bool(b) => if b { 1 } else { 0 },
        Value::Int(i) => i as int,
        Value::UnsignedInt(u) => u as int,
    }
}

/// The text of a value on the wire.
pub open spec fn value_text(v: Value) -> Seq<char> {
    match v {
        Value::Bool(b) => if b { seq!['t', 'r', 'u', 'e'] } else { seq!['f', 'a', 'l', 's', 'e'] },
        Value::Int(i) => render_int(i as int),
        Value::UnsignedInt(u) => render_int(u as int),
    }
}

impl Value {
    /// Reads a signed integer value, as `str::parse::<isize>` does.
    pub fn parse_int(s: &str) -> (r: Result<Value, Error>)
        ensures
            r matches Ok(v) ==> int_in_range(s@, true, isize::MIN as int, isize::MAX as int)
                == Some(value_number(v)) && v is Int,
            r matches Err(e) ==> int_in_range(s@, true, isize::MIN as int, isize::MAX as int) is None
                && e.kind == ErrorKind::InvalidInput,
    {
        match parse_int(s, true, isize::MIN as i128, isize::MAX as i128) {
            Some(v) => Ok(Value::Int(v as isize)),
            None => Err(Error::new(ErrorKind::InvalidInput)),
        }
    }

    /// Reads an unsigned integer value, as `str::parse::<usize>` does.
    pub fn parse_uint(s: &str) -> (r: Result<Value, Error>)
        ensures
            r matches Ok(v) ==> int_in_range(s@, false, 0, usize::MAX as int) == Some(value_number(v))
                && v is UnsignedInt,
            r matches Err(e) ==> int_in_range(s@, false, 0, usize::MAX as int) is None
                && e.kind == ErrorKind::InvalidInput,
    {
        match parse_int(s, false, 0, usize::MAX as i128) {
            Some(v) => Ok(Value::UnsignedInt(v as usize)),
            None => Err(Error::new(ErrorKind::InvalidInput)),
        }
    }

    /// Appends the text of this value to `out`.
    pub fn push_text(&self, out: &mut Vec<char>)
        ensures
            final(out)@ == old(out)@ + value_text(*self),
    {
        match *self {
            Value::Bool(b) => {
                if b {
                    out.push('t');
                    out.push('r');
                    out.push('u');
                    out.push('e');
                } else {
                    out.push('f');
                    out.push('a');
                    out.push('l');
                    out.push('s');
                    out.push('e');
                }
                assert(final(out)@ =~= old(out)@ + value_text(*self));
            },
            Value::Int(i) => push_int(i as i128, out),
            Value::UnsignedInt(u) => push_int(u as i128, out),
        }
    }

    /// The text of this value: `true`, `false` or a decimal number.
    pub fn to_string(&self) -> (r: String)
        ensures
            r@ == value_text(*self),
    {
        let mut out: Vec<char> = Vec::new();
        self.push_text(&mut out);
        assert(out@ =~= value_text(*self));
        string_of(out)
    }
}

/// What a client observes or writes: a named panel variable or an FSUIPC offset.
#[derive(Clone, Debug)]
pub enum Var {
    LVar(String),
    FsuipcOffset(Offset),
}

impl PartialEq for Var {
    fn eq(&self, other: &Var) -> (r: bool) {
        match self {
            Var::LVar(a) => match other {
                Var::LVar(b) => a.eq(b),
                _ => false,
            },
            Var::FsuipcOffset(a) => match other {
                Var::FsuipcOffset(b) => a.0.0 == b.0.0 && a.1 == b.1,
                _ => false,
            },
        }
    }
}

impl vstd::std_specs::cmp::PartialEqSpecImpl for Var {
    open spec fn obeys_eq_spec() -> bool {
        true
    }

    open spec fn eq_spec(&self, other: &Var) -> bool {
        self.view_var() == other.view_var()
    }
}

/// The mathematical content of a variable: a name as characters, or an offset.
pub enum VarView {
    LVar(Seq<char>),
    FsuipcOffset(Offset),
}

impl Var {
    pub open spec fn view_var(&self) -> VarView {
        match self {
            Var::LVar(s) => VarView::LVar(s@),
            Var::FsuipcOffset(o) => VarView::FsuipcOffset(*o),
        }
    }

    pub fn lvar(n: &str) -> (r: Var)
        ensures
            r.view_var() == VarView::LVar(n@),
    {
        Var::LVar(String::from_str(n))
    }
}

/// The name that identifies a client: its peer address or its serial port.
pub type ClientName = String;

/// A connected client: its name and the sending half of its event queue.
pub struct Client {
    name: ClientName,
    sender: std::sync::mpsc::Sender<Event>,
}

impl Client {
    pub closed spec fn name_view(&self) -> Seq<char> {
        self.name@
    }

    pub fn new(s: &str, sender: std::sync::mpsc::Sender<Event>) -> (r: Client)
        ensures
            r.name_view() == s@,
    {
        Client { name: String::from_str(s), sender }
    }

    pub fn name(&self) -> (r: &str)
        ensures
            r@ == self.name_view(),
    {
        self.name.as_str()
    }

    pub fn sender(&self) -> &std::sync::mpsc::Sender<Event> {
        &self.sender
    }

    /// Whether this client is the one named `name`.
    pub fn name_eq(&self, name: &str) -> (r: bool)
        ensures
            r == (self.name_view() == name@),
    {
        let own = self.name.as_str();
        let n = own.unicode_len();
        if n != name.unicode_len() {
            return false;
        }
        let mut i: usize = 0;
        while i < n
            invariant
                n == own@.len(),
                n == name@.len(),
                own@ == self.name_view(),
                i <= n,
                forall|k: int| 0 <= k < i ==> own@[k] == name@[k],
            decreases n - i,
        {
            if own.get_char(i) != name.get_char(i) {
                return false;
            }
            i = i + 1;
        }
        assert(own@ =~= name@);
        true
    }

    /// Another handle on the same client: same name, same event queue.
    pub fn duplicate(&self) -> (r: Client)
        ensures
            r.name_view() == self.name_view(),
    {
        Client { name: self.name.clone(), sender: clone_sender(&self.sender) }
    }
}

/// A request that flows from a client to a domain.
pub enum Command {
    Observe(Var, Client),
    Write(Var, Value),
    Close(ClientName),
}

/// The mathematical content of a command: variables and client names as
/// characters.
pub enum CommandView {
    Observe(VarView, Seq<char>),
    Write(VarView, Value),
    Close(Seq<char>),
}

impl Command {
    pub open spec fn view_cmd(&self) -> CommandView {
        match self {
            Command::Observe(v, c) => CommandView::Observe(v.view_var(), c.name_view()),
            Command::Write(v, x) => CommandView::Write(v.view_var(), *x),
            Command::Close(n) => CommandView::Close(n@),
        }
    }

    pub fn var(&self) -> (r: Option<&Var>)
        ensures
            match *self {
                Command::Observe(v, _) => r == Some(&v),
                Command::Write(v, _) => r == Some(&v),
                Command::Close(_) => r is None,
            },
    {
        match self {
            Command::Observe(v, _) => Some(v),
            Command::Write(v, _) => Some(v),
            Command::Close(_) => None,
        }
    }

    pub fn client(&self) -> (r: Option<&Client>)
        ensures
            match *self {
                Command::Observe(_, c) => r == Some(&c),
                _ => r is None,
            },
    {
        match self {
            Command::Observe(_, c) => Some(c),
            _ => None,
        }
    }
}

/// A notice that flows from a domain to a client.
#[derive(Clone, Debug)]
pub enum Event {
    Update(Var, Value),
    Close,
}

} // verus!
