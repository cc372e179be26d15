//! The client side of OACSP: the requests a device sends, with their
//! encoding and decoding. Offsets are written here with exactly four
//! hexadecimal digits for their address.
use vstd::prelude::*;
use vstd::string::*;

use crate::error::{Error, ErrorKind};
use crate::protocol::verb_is;
use crate::text::{int_value, hex_u16, parse_hex_u16, pow16, find_single, single_char, 
    lemma_render_int_value, lemma_render_value, lemma_words_join, lemma_words_single, lemma_words_trailing_space,
    digit_value, int_in_range, is_digits, is_space, push_digits, push_int, push_str, render,
    render_int, split_words, string_of, words,
};

verus! {

/// The address of an offset.
#[derive(Clone, Copy, Debug, PartialEq, Eq, Structural)]
pub struct OffsetAddr(pub u16);

/// An address written with one to four hexadecimal digits, either case.
pub open spec fn addr_of_text(s: Seq<char>) -> Option<int> {
    hex_u16(s)
}

impl OffsetAddr {
    /// Reads an address from its hexadecimal text.
    pub fn from_hex(s: &str) -> (r: Result<OffsetAddr, Error>)
        ensures
            r matches Ok(a) ==> addr_of_text(s@) == Some(a.0 as int),
            r matches Err(e) ==> addr_of_text(s@) is None && e.kind == ErrorKind::InvalidInput,
    {
        match parse_hex_u16(s) {
            Some(v) => Ok(OffsetAddr(v)),
            None => Err(Error::new(ErrorKind::InvalidInput)),
        }
    }
}

#[derive(Clone, Copy, Debug, PartialEq, Eq, Structural)]
pub enum OffsetLen {
    Ub,
    Sb,
    Uw,
    Sw,
    Ud,
    Sd,
}

pub open spec fn len_text(l: OffsetLen) -> Seq<char> {
    match l {
        OffsetLen::Ub => seq!['U', 'B'],
        OffsetLen::Sb => seq!['S', 'B'],
        OffsetLen::Uw => seq!['U', 'W'],
        OffsetLen::Sw => seq!['S', 'W'],
        OffsetLen::Ud => seq!['U', 'D'],
        OffsetLen::Sd => seq!['S', 'D'],
    }
}

pub open spec fn len_of_text(s: Seq<char>) -> Option<OffsetLen> {
    if s == len_text(OffsetLen::Ub) {
        Some(OffsetLen::Ub)
    } else if s == len_text(OffsetLen::Sb) {
        Some(OffsetLen::Sb)
    } else if s == len_text(OffsetLen::Uw) {
        Some(OffsetLen::Uw)
    } else if s == len_text(OffsetLen::Sw) {
        Some(OffsetLen::Sw)
    } else if s == len_text(OffsetLen::Ud) {
        Some(OffsetLen::Ud)
    } else if s == len_text(OffsetLen::Sd) {
        Some(OffsetLen::Sd)
    } else {
        None
    }
}

impl OffsetLen {
    pub fn from_str(s: &str) -> (r: Result<OffsetLen, Error>)
        ensures
            r matches Ok(l) ==> len_of_text(s@) == Some(l),
            r matches Err(e) ==> len_of_text(s@) is None && e.kind == ErrorKind::InvalidInput,
    {
        if s.unicode_len() != 2 {
            return Err(Error::new(ErrorKind::InvalidInput));
        }
        let a = s.get_char(0);
        let b = s.get_char(1);
        assert(s@ =~= seq![a, b]);
        if a == 'U' && b == 'B' {
            Ok(OffsetLen::Ub)
        } else if a == 'S' && b == 'B' {
            Ok(OffsetLen::Sb)
        } else if a == 'U' && b == 'W' {
            Ok(OffsetLen::Uw)
        } else if a == 'S' && b == 'W' {
            Ok(OffsetLen::Sw)
        } else if a == 'U' && b == 'D' {
            Ok(OffsetLen::Ud)
        } else if a == 'S' && b == 'D' {
            Ok(OffsetLen::Sd)
        } else {
            Err(Error::new(ErrorKind::InvalidInput))
        }
    }

    pub fn push_text(&self, out: &mut Vec<char>)
        ensures
            final(out)@ == old(out)@ + len_text(*self),
    {
        match self {
            OffsetLen::Ub => { out.push('U'); out.push('B'); },
            OffsetLen::Sb => { out.push('S'); out.push('B'); },
            OffsetLen::Uw => { out.push('U'); out.push('W'); },
            OffsetLen::Sw => { out.push('S'); out.push('W'); },
            OffsetLen::Ud => { out.push('U'); out.push('D'); },
            OffsetLen::Sd => { out.push('S'); out.push('D'); },
        }
        assert(final(out)@ =~= old(out)@ + len_text(*self));
    }
}

#[derive(Clone, Copy, Debug, PartialEq, Eq, Structural)]
pub struct Offset(pub OffsetAddr, pub OffsetLen);

/// The offset that `s` writes as `<addr>:<len>`, if any.
pub open spec fn offset_of_text(s: Seq<char>) -> Option<Offset> {
    if exists|i: int| single_char(s, ':', i) {
        let i = choose|i: int| single_char(s, ':', i);
        match (addr_of_text(s.subrange(0, i)), len_of_text(s.subrange(i + 1, s.len() as int))) {
            (Some(a), Some(l)) => Some(Offset(OffsetAddr(a as u16), l)),
            _ => None,
        }
    } else {
        None
    }
}

/// The text of an offset: the address in hexadecimal, a colon, the length tag.
pub open spec fn offset_text(o: Offset) -> Seq<char> {
    render(o.0.0 as nat, 16) + seq![':'] + len_text(o.1)
}

impl Offset {
    pub fn from_str(s: &str) -> (r: Result<Offset, Error>)
        ensures
            r matches Ok(o) ==> offset_of_text(s@) == Some(o),
            r matches Err(e) ==> offset_of_text(s@) is None && e.kind == ErrorKind::InvalidInput,
    {
        let at = match find_single(s, ':') {
            Some(i) => i,
            None => {
                return Err(Error::new(ErrorKind::InvalidInput));
            },
        };
        let ghost k = choose|k: int| single_char(s@, ':', k);
        assert(k == at);
        let n = s.unicode_len();
        let addr = match OffsetAddr::from_hex(s.substring_char(0, at)) {
            Ok(a) => a,
            Err(e) => {
                return Err(e);
            },
        };
        let len = match OffsetLen::from_str(s.substring_char(at + 1, n)) {
            Ok(l) => l,
            Err(e) => {
                return Err(e);
            },
        };
        Ok(Offset(addr, len))
    }

    pub fn push_text(&self, out: &mut Vec<char>)
        ensures
            final(out)@ == old(out)@ + offset_text(*self),
    {
        push_digits(self.0.0 as u64, 16, out);
        out.push(':');
        self.1.push_text(out);
        assert(final(out)@ =~= old(out)@ + offset_text(*self));
    }
}

/// A request of a device.
#[derive(Debug)]
pub enum Message {
    Begin { version: u16, client_id: String },
    WriteLvar { lvar: String, value: i64 },
    WriteOffset { offset: Offset, value: i64 },
    ObserveLvar { lvar: String },
    ObserveOffset { offset: Offset },
}

/// The mathematical content of a request.
pub enum MessageView {
    Begin(int, Seq<char>),
    WriteLvar(Seq<char>, int),
    WriteOffset(Offset, int),
    ObserveLvar(Seq<char>),
    ObserveOffset(Offset),
}

impl Message {
    pub open spec fn view_msg(&self) -> MessageView {
        match self {
            Message::Begin { version, client_id } => MessageView::Begin(*version as int, client_id@),
            Message::WriteLvar { lvar, value } => MessageView::WriteLvar(lvar@, *value as int),
            Message::WriteOffset { offset, value } => MessageView::WriteOffset(*offset, *value as int),
            Message::ObserveLvar { lvar } => MessageView::ObserveLvar(lvar@),
            Message::ObserveOffset { offset } => MessageView::ObserveOffset(*offset),
        }
    }
}

impl PartialEq for Message {
    fn eq(&self, other: &Message) -> (r: bool) {
        match self {
            Message::Begin { version, client_id } => match other {
                Message::Begin { version: v2, client_id: c2 } => *version == *v2 && client_id.eq(c2),
                _ => false,
            },
            Message::WriteLvar { lvar, value } => match other {
                Message::WriteLvar { lvar: l2, value: v2 } => lvar.eq(l2) && *value == *v2,
                _ => false,
            },
            Message::WriteOffset { offset, value } => match other {
                Message::WriteOffset { offset: o2, value: v2 } => offset.0.0 == o2.0.0 && offset.1 == o2.1
                    && *value == *v2,
                _ => false,
            },
            Message::ObserveLvar { lvar } => match other {
                Message::ObserveLvar { lvar: l2 } => lvar.eq(l2),
                _ => false,
            },
            Message::ObserveOffset { offset } => match other {
                Message::ObserveOffset { offset: o2 } => offset.0.0 == o2.0.0 && offset.1 == o2.1,
                _ => false,
            },
        }
    }
}

impl vstd::std_specs::cmp::PartialEqSpecImpl for Message {
    open spec fn obeys_eq_spec() -> bool {
        true
    }

    open spec fn eq_spec(&self, other: &Message) -> bool {
        self.view_msg() == other.view_msg()
    }
}

/// The line that carries a request.
pub open spec fn message_text(m: MessageView) -> Seq<char> {
    match m {
        MessageView::Begin(v, id) => "BEGIN"@ + seq![' '] + render_int(v) + seq![' '] + id + seq!['\n'],
        MessageView::WriteLvar(n, v) => "WRITE_LVAR"@ + seq![' '] + n + seq![' '] + render_int(v) + seq!['\n'],
        MessageView::WriteOffset(o, v) => "WRITE_OFFSET"@ + seq![' '] + offset_text(o) + seq![' '] + render_int(v)
            + seq!['\n'],
        MessageView::ObserveLvar(n) => "OBS_LVAR"@ + seq![' '] + n + seq!['\n'],
        MessageView::ObserveOffset(o) => "OBS_OFFSET"@ + seq![' '] + offset_text(o) + seq!['\n'],
    }
}

/// The request that a line holds, if it is well formed.
pub open spec fn message_of(line: Seq<char>) -> Option<MessageView> {
    let w = words(line);
    if w.len() == 0 {
        None
    } else if verb_is(w[0], "BEGIN"@) {
        if w.len() != 3 {
            None
        } else {
            match int_in_range(w[1], false, 0, 0xFFFF) {
                Some(v) => Some(MessageView::Begin(v, w[2])),
                None => None,
            }
        }
    } else if verb_is(w[0], "WRITE_LVAR"@) {
        if w.len() != 3 {
            None
        } else {
            match int_in_range(w[2], true, i64::MIN as int, i64::MAX as int) {
                Some(v) => Some(MessageView::WriteLvar(w[1], v)),
                None => None,
            }
        }
    } else if verb_is(w[0], "WRITE_OFFSET"@) {
        if w.len() != 3 {
            None
        } else {
            match (offset_of_text(w[1]), int_in_range(w[2], true, i64::MIN as int, i64::MAX as int)) {
                (Some(o), Some(v)) => Some(MessageView::WriteOffset(o, v)),
                _ => None,
            }
        }
    } else if verb_is(w[0], "OBS_LVAR"@) {
        if w.len() != 2 {
            None
        } else {
            Some(MessageView::ObserveLvar(w[1]))
        }
    } else if verb_is(w[0], "OBS_OFFSET"@) {
        if w.len() != 2 {
            None
        } else {
            match offset_of_text(w[1]) {
                Some(o) => Some(MessageView::ObserveOffset(o)),
                None => None,
            }
        }
    } else {
        None
    }
}

impl Message {
    pub fn begin(version: u16, client_id: &str) -> (r: Message)
        ensures
            r.view_msg() == MessageView::Begin(version as int, client_id@),
    {
        Message::Begin { version, client_id: String::from_str(client_id) }
    }

    pub fn write_lvar(lvar: &str, value: i64) -> (r: Message)
        ensures
            r.view_msg() == MessageView::WriteLvar(lvar@, value as int),
    {
        Message::WriteLvar { lvar: String::from_str(lvar), value }
    }

    pub fn write_offset(offset: Offset, value: i64) -> (r: Message)
        ensures
            r.view_msg() == MessageView::WriteOffset(offset, value as int),
    {
        Message::WriteOffset { offset, value }
    }

    pub fn obs_lvar(lvar: &str) -> (r: Message)
        ensures
            r.view_msg() == MessageView::ObserveLvar(lvar@),
    {
        Message::ObserveLvar { lvar: String::from_str(lvar) }
    }

    pub fn obs_offset(offset: Offset) -> (r: Message)
        ensures
            r.view_msg() == MessageView::ObserveOffset(offset),
    {
        Message::ObserveOffset { offset }
    }

    /// Reads the request on a line; anything malformed is `InvalidInput`.
    pub fn decode(line: &str) -> (r: Result<Message, Error>)
        ensures
            r matches Ok(m) ==> message_of(line@) == Some(m.view_msg()),
            r matches Err(e) ==> message_of(line@) is None && e.kind == ErrorKind::InvalidInput,
    {
        let bad = Error::new(ErrorKind::InvalidInput);
        let args = split_words(line);
        if args.len() == 0 {
            return Err(bad);
        }
        let verb = args[0].as_str();
        let argc = args.len();
        if crate::protocol::verb_matches(verb, "BEGIN") {
            if argc != 3 {
                return Err(bad);
            }
            match crate::text::parse_int(args[1].as_str(), false, 0, 0xFFFF) {
                Some(v) => Ok(Message::Begin { version: v as u16, client_id: args[2].clone() }),
                None => Err(bad),
            }
        } else if crate::protocol::verb_matches(verb, "WRITE_LVAR") {
            if argc != 3 {
                return Err(bad);
            }
            match crate::text::parse_int(args[2].as_str(), true, i64::MIN as i128, i64::MAX as i128) {
                Some(v) => Ok(Message::WriteLvar { lvar: args[1].clone(), value: v as i64 }),
                None => Err(bad),
            }
        } else if crate::protocol::verb_matches(verb, "WRITE_OFFSET") {
            if argc != 3 {
                return Err(bad);
            }
            let offset = match Offset::from_str(args[1].as_str()) {
                Ok(o) => o,
                Err(e) => {
                    return Err(e);
                },
            };
            match crate::text::parse_int(args[2].as_str(), true, i64::MIN as i128, i64::MAX as i128) {
                Some(v) => Ok(Message::WriteOffset { offset, value: v as i64 }),
                None => Err(bad),
            }
        } else if crate::protocol::verb_matches(verb, "OBS_LVAR") {
            if argc != 2 {
                return Err(bad);
            }
            Ok(Message::ObserveLvar { lvar: args[1].clone() })
        } else if crate::protocol::verb_matches(verb, "OBS_OFFSET") {
            if argc != 2 {
                return Err(bad);
            }
            match Offset::from_str(args[1].as_str()) {
                Ok(o) => Ok(Message::ObserveOffset { offset: o }),
                Err(e) => Err(e),
            }
        } else {
            Err(bad)
        }
    }

    /// The line that carries this request.
    pub fn encode(&self) -> (r: String)
        ensures
            r@ == message_text(self.view_msg()),
    {
        let mut out: Vec<char> = Vec::new();
        match self {
            Message::Begin { version, client_id } => {
                push_str("BEGIN", &mut out);
                out.push(' ');
                push_int(*version as i128, &mut out);
                out.push(' ');
                push_str(client_id.as_str(), &mut out);
            },
            Message::WriteLvar { lvar, value } => {
                push_str("WRITE_LVAR", &mut out);
                out.push(' ');
                push_str(lvar.as_str(), &mut out);
                out.push(' ');
                push_int(*value as i128, &mut out);
            },
            Message::WriteOffset { offset, value } => {
                push_str("WRITE_OFFSET", &mut out);
                out.push(' ');
                offset.push_text(&mut out);
                out.push(' ');
                push_int(*value as i128, &mut out);
            },
            Message::ObserveLvar { lvar } => {
                push_str("OBS_LVAR", &mut out);
                out.push(' ');
                push_str(lvar.as_str(), &mut out);
            },
            Message::ObserveOffset { offset } => {
                push_str("OBS_OFFSET", &mut out);
                out.push(' ');
                offset.push_text(&mut out);
            },
        }
        out.push('\n');
        assert(out@ =~= message_text(self.view_msg()));
        string_of(out)
    }
}

/// A name that a request line can carry: non-empty and without whitespace.
pub open spec fn is_name(n: Seq<char>) -> bool {
    n.len() > 0 && forall|i: int| 0 <= i < n.len() ==> !is_space(#[trigger] n[i])
}

/// A request that its line carries unambiguously: names are single words and
/// numbers are in the range of their field.
pub open spec fn is_encodable(m: MessageView) -> bool {
    match m {
        MessageView::Begin(v, id) => 0 <= v <= 0xFFFF && is_name(id),
        MessageView::WriteLvar(n, v) => is_name(n) && i64::MIN <= v <= i64::MAX,
        MessageView::WriteOffset(o, v) => i64::MIN <= v <= i64::MAX,
        MessageView::ObserveLvar(n) => is_name(n),
        MessageView::ObserveOffset(o) => true,
    }
}

proof fn lemma_render_short(n: nat, k: nat)
    requires
        1 <= k,
        n < pow16(k),
    ensures
        1 <= render(n, 16).len() <= k,
    decreases k,
{
    if n >= 16 {
        if k == 1 {
            assert(pow16(1) == 16 * pow16(0));
        }
        let p = pow16((k - 1) as nat);
        assert(pow16(k) == 16 * p);
        assert(n / 16 < p) by (nonlinear_arith)
            requires n < 16 * p, n >= 0;
        lemma_render_short(n / 16, (k - 1) as nat);
        assert(render(n, 16) == render(n / 16, 16).push(crate::text::digit_char(n % 16)));
    }
}

proof fn lemma_offset_round_trip(o: Offset)
    ensures
        offset_of_text(offset_text(o)) == Some(o),
        is_name(offset_text(o)),
{
    let a = render(o.0.0 as nat, 16);
    let t = offset_text(o);
    assert(pow16(4) == 65536) by {
        assert(pow16(0) == 1);
        assert(pow16(1) == 16 * pow16(0));
        assert(pow16(2) == 16 * pow16(1));
        assert(pow16(3) == 16 * pow16(2));
        assert(pow16(4) == 16 * pow16(3));
    }
    lemma_render_short(o.0.0 as nat, 4);
    lemma_render_value(o.0.0 as nat, 16);
    let d = a.len() as int;
    assert(t.len() == d + 3);
    assert(t[d] == ':');
    assert forall|j: int| 0 <= j < t.len() && j != d implies t[j] != ':' && !is_space(t[j]) by {
        if j < d {
            assert(t[j] == a[j]);
        }
    }
    assert(single_char(t, ':', d));
    let i = choose|i: int| single_char(t, ':', i);
    assert(i == d);
    assert(t.subrange(0, d) =~= a);
    assert(t.subrange(d + 1, d + 3) =~= len_text(o.1));
    assert(addr_of_text(a) == Some(o.0.0 as int));
    assert(len_of_text(len_text(o.1)) == Some(o.1));
    assert(!is_space(t[d]));
}

proof fn lemma_verbs()
    ensures
        is_name("BEGIN"@) && "BEGIN"@.len() == 5,
        is_name("WRITE_LVAR"@) && "WRITE_LVAR"@.len() == 10,
        is_name("WRITE_OFFSET"@) && "WRITE_OFFSET"@.len() == 12,
        is_name("OBS_LVAR"@) && "OBS_LVAR"@.len() == 8,
        is_name("OBS_OFFSET"@) && "OBS_OFFSET"@.len() == 10,
        "OBS_OFFSET"@[0] == 'O' && "WRITE_LVAR"@[0] == 'W',
{
    reveal_strlit("BEGIN");
    reveal_strlit("WRITE_LVAR");
    reveal_strlit("WRITE_OFFSET");
    reveal_strlit("OBS_LVAR");
    reveal_strlit("OBS_OFFSET");
}

proof fn lemma_message_of_obs_offset(line: Seq<char>, t: Seq<char>, o: Offset)
    requires
        words(line) == seq!["OBS_OFFSET"@, t],
        offset_of_text(t) == Some(o),
    ensures
        message_of(line) == Some(MessageView::ObserveOffset(o)),
{
    lemma_verbs();
    let w = words(line);
    assert(!verb_is(w[0], "BEGIN"@));
    assert(!verb_is(w[0], "WRITE_LVAR"@)) by {
        assert(w[0][0] == 'O');
    }
    assert(!verb_is(w[0], "WRITE_OFFSET"@));
    assert(!verb_is(w[0], "OBS_LVAR"@));
    assert(verb_is(w[0], "OBS_OFFSET"@));
}

#[verifier::spinoff_prover]
proof fn lemma_round_trip_obs_offset(o: Offset)
    ensures
        message_of(message_text(MessageView::ObserveOffset(o))) == Some(MessageView::ObserveOffset(o)),
{
    lemma_verbs();
    let m = MessageView::ObserveOffset(o);
    let sp = seq![' '];
    let verb = "OBS_OFFSET"@;
    let t = offset_text(o);
    lemma_offset_round_trip(o);
    lemma_words_single(verb);
    lemma_words_single(t);
    let x = verb + sp + t;
    assert(message_text(m) =~= x.push('\n'));
    lemma_words_trailing_space(x, '\n');
    lemma_words_join(verb, t);
    let w = words(message_text(m));
    assert(w =~= seq![verb, t]);
    lemma_message_of_obs_offset(message_text(m), t, o);
}

proof fn lemma_three_words(a: Seq<char>, b: Seq<char>, c: Seq<char>)
    requires
        is_name(a),
        is_name(b),
        is_name(c),
    ensures
        words(a + seq![' '] + b + seq![' '] + c + seq!['\n']) == seq![a, b, c],
{
    let sp = seq![' '];
    lemma_words_single(a);
    lemma_words_single(b);
    lemma_words_single(c);
    let x = a + sp + b + sp + c;
    assert(x + seq!['\n'] =~= x.push('\n'));
    lemma_words_trailing_space(x, '\n');
    lemma_words_join(a + sp + b, c);
    lemma_words_join(a, b);
    assert(words(x) =~= seq![a, b, c]);
}

proof fn lemma_message_of_write_lvar(line: Seq<char>, n: Seq<char>, r: Seq<char>, v: int)
    requires
        words(line) == seq!["WRITE_LVAR"@, n, r],
        int_in_range(r, true, i64::MIN as int, i64::MAX as int) == Some(v),
    ensures
        message_of(line) == Some(MessageView::WriteLvar(n, v)),
{
    lemma_verbs();
    let w = words(line);
    assert(!verb_is(w[0], "BEGIN"@));
    assert(verb_is(w[0], "WRITE_LVAR"@));
}

proof fn lemma_message_of_write_offset(line: Seq<char>, t: Seq<char>, r: Seq<char>, o: Offset, v: int)
    requires
        words(line) == seq!["WRITE_OFFSET"@, t, r],
        offset_of_text(t) == Some(o),
        int_in_range(r, true, i64::MIN as int, i64::MAX as int) == Some(v),
    ensures
        message_of(line) == Some(MessageView::WriteOffset(o, v)),
{
    lemma_verbs();
    let w = words(line);
    assert(!verb_is(w[0], "BEGIN"@));
    assert(!verb_is(w[0], "WRITE_LVAR"@));
    assert(verb_is(w[0], "WRITE_OFFSET"@));
}

#[verifier::spinoff_prover]
proof fn lemma_round_trip_begin(v: int, id: Seq<char>)
    requires
        is_encodable(MessageView::Begin(v, id)),
    ensures
        message_of(message_text(MessageView::Begin(v, id))) == Some(MessageView::Begin(v, id)),
{
    lemma_verbs();
    let m = MessageView::Begin(v, id);
    let sp = seq![' '];
    let verb = "BEGIN"@;
    let r = render_int(v);
    lemma_render_int_value(v);
    lemma_words_single(verb);
    lemma_words_single(r);
    lemma_words_single(id);
    let x = verb + sp + r + sp + id;
    assert(message_text(m) =~= x.push('\n'));
    lemma_words_trailing_space(x, '\n');
    lemma_words_join(verb + sp + r, id);
    lemma_words_join(verb, r);
    let w = words(message_text(m));
    assert(w =~= seq![verb, r, id]);
    assert(verb_is(w[0], "BEGIN"@));
}

#[verifier::spinoff_prover]
proof fn lemma_round_trip_write_lvar(n: Seq<char>, v: int)
    requires
        is_encodable(MessageView::WriteLvar(n, v)),
    ensures
        message_of(message_text(MessageView::WriteLvar(n, v))) == Some(MessageView::WriteLvar(n, v)),
{
    lemma_verbs();
    let m = MessageView::WriteLvar(n, v);
    let sp = seq![' '];
    let verb = "WRITE_LVAR"@;
    let r = render_int(v);
    lemma_render_int_value(v);
    lemma_words_single(verb);
    lemma_words_single(r);
    lemma_words_single(n);
    let x = verb + sp + n + sp + r;
    assert(message_text(m) =~= x.push('\n'));
    lemma_words_trailing_space(x, '\n');
    lemma_words_join(verb + sp + n, r);
    lemma_words_join(verb, n);
    let w = words(message_text(m));
    assert(w =~= seq![verb, n, r]);
    assert(int_in_range(r, true, i64::MIN as int, i64::MAX as int) == Some(v));
    lemma_message_of_write_lvar(message_text(m), n, r, v);
}

#[verifier::spinoff_prover]
proof fn lemma_round_trip_write_offset(o: Offset, v: int)
    requires
        is_encodable(MessageView::WriteOffset(o, v)),
    ensures
        message_of(message_text(MessageView::WriteOffset(o, v))) == Some(MessageView::WriteOffset(o, v)),
{
    lemma_verbs();
    let m = MessageView::WriteOffset(o, v);
    let sp = seq![' '];
    let verb = "WRITE_OFFSET"@;
    let r = render_int(v);
    let t = offset_text(o);
    lemma_render_int_value(v);
    lemma_offset_round_trip(o);
    lemma_three_words(verb, t, r);
    assert(message_text(m) =~= verb + sp + t + sp + r + seq!['\n']);
    assert(int_in_range(r, true, i64::MIN as int, i64::MAX as int) == Some(v));
    lemma_message_of_write_offset(message_text(m), t, r, o, v);
}

#[verifier::spinoff_prover]
proof fn lemma_round_trip_obs_lvar(n: Seq<char>)
    requires
        is_encodable(MessageView::ObserveLvar(n)),
    ensures
        message_of(message_text(MessageView::ObserveLvar(n))) == Some(MessageView::ObserveLvar(n)),
{
    lemma_verbs();
    let m = MessageView::ObserveLvar(n);
    let sp = seq![' '];
    let verb = "OBS_LVAR"@;
    lemma_words_single(verb);
    lemma_words_single(n);
    let x = verb + sp + n;
    assert(message_text(m) =~= x.push('\n'));
    lemma_words_trailing_space(x, '\n');
    lemma_words_join(verb, n);
    let w = words(message_text(m));
    assert(w =~= seq![verb, n]);
    assert(verb_is(w[0], "OBS_LVAR"@));
}

/// Words joined by single spaces.
pub open spec fn joined(ws: Seq<Seq<char>>) -> Seq<char>
    decreases ws.len(),
{
    if ws.len() == 0 {
        seq![]
    } else if ws.len() == 1 {
        ws[0]
    } else {
        joined(ws.drop_last()) + seq![' '] + ws.last()
    }
}

/// A number written the way encoding writes it.
pub open spec fn is_plain_number(s: Seq<char>) -> bool {
    int_value(s, true) matches Some(v) && s == render_int(v)
}

/// An offset written the way encoding writes it.
pub open spec fn is_plain_offset(s: Seq<char>) -> bool {
    offset_of_text(s) matches Some(o) && s == offset_text(o)
}

/// The words of a request line in the form that encoding writes: the verb in
/// upper case, numbers without sign or leading zeros (but for `-`), and
/// addresses in lower case without leading zeros.
pub open spec fn is_canonical(w: Seq<Seq<char>>) -> bool {
    ||| w.len() == 3 && w[0] == "BEGIN"@ && is_plain_number(w[1])
    ||| w.len() == 3 && w[0] == "WRITE_LVAR"@ && is_plain_number(w[2])
    ||| w.len() == 3 && w[0] == "WRITE_OFFSET"@ && is_plain_offset(w[1]) && is_plain_number(w[2])
    ||| w.len() == 2 && w[0] == "OBS_LVAR"@
    ||| w.len() == 2 && w[0] == "OBS_OFFSET"@ && is_plain_offset(w[1])
}

proof fn lemma_joined_three(a: Seq<char>, b: Seq<char>, c: Seq<char>)
    ensures
        joined(seq![a, b, c]) == a + seq![' '] + b + seq![' '] + c,
{
    lemma_joined_two(a, b);
    assert(seq![a, b, c].drop_last() =~= seq![a, b]);
    assert(seq![a, b, c].last() == c);
    assert(joined(seq![a, b, c]) == joined(seq![a, b]) + seq![' '] + c);
}

proof fn lemma_joined_two(a: Seq<char>, b: Seq<char>)
    ensures
        joined(seq![a, b]) == a + seq![' '] + b,
{
    assert(seq![a, b].drop_last() =~= seq![a]);
    assert(joined(seq![a]) == a);
    assert(seq![a, b].last() == b);
    assert(joined(seq![a, b]) == joined(seq![a]) + seq![' '] + b);
}

/// A decoded line whose words are in encoded form is encoded back to the
/// same words, joined by single spaces and ended by one newline.
pub proof fn lemma_encode_decoded(line: Seq<char>, m: MessageView)
    requires
        message_of(line) == Some(m),
        is_canonical(words(line)),
    ensures
        message_text(m) == joined(words(line)) + seq!['\n'],
{
    lemma_verbs();
    let w = words(line);
    if w.len() == 3 {
        assert(w == seq![w[0], w[1], w[2]]);
        lemma_joined_three(w[0], w[1], w[2]);
        if w[0] == "BEGIN"@ {
            lemma_reencode_begin(line, w[0], w[1], w[2], m);
        } else if w[0] == "WRITE_LVAR"@ {
            lemma_reencode_write_lvar(line, w[0], w[1], w[2], m);
        } else {
            lemma_reencode_write_offset(line, w[0], w[1], w[2], m);
        }
    } else {
        assert(w == seq![w[0], w[1]]);
        lemma_joined_two(w[0], w[1]);
        if w[0] == "OBS_LVAR"@ {
            lemma_reencode_obs_lvar(line, w[0], w[1], m);
        } else {
            lemma_reencode_obs_offset(line, w[0], w[1], m);
        }
    }
}

proof fn lemma_reencode_begin(line: Seq<char>, a: Seq<char>, b: Seq<char>, c: Seq<char>, m: MessageView)
    requires
        message_of(line) == Some(m),
        words(line) == seq![a, b, c],
        a == "BEGIN"@,
        is_plain_number(b),
    ensures
        message_text(m) == a + seq![' '] + b + seq![' '] + c + seq!['\n'],
{
    lemma_verbs();
    let v = int_value(b, true)->Some_0;
    lemma_render_int_value(v);
    assert(verb_is(a, "BEGIN"@));
    if v < 0 {
        assert(b[0] == '-');
        assert(!is_digits(b, 10)) by {
            assert(digit_value(b[0]) == -1);
        }
        assert(int_value(b, false) is None);
    }
}

proof fn lemma_reencode_write_lvar(line: Seq<char>, a: Seq<char>, b: Seq<char>, c: Seq<char>, m: MessageView)
    requires
        message_of(line) == Some(m),
        words(line) == seq![a, b, c],
        a == "WRITE_LVAR"@,
        is_plain_number(c),
    ensures
        message_text(m) == a + seq![' '] + b + seq![' '] + c + seq!['\n'],
{
    lemma_verbs();
    lemma_render_int_value(int_value(c, true)->Some_0);
    assert(!verb_is(a, "BEGIN"@));
    assert(verb_is(a, "WRITE_LVAR"@));
}

proof fn lemma_reencode_write_offset(line: Seq<char>, a: Seq<char>, b: Seq<char>, c: Seq<char>, m: MessageView)
    requires
        message_of(line) == Some(m),
        words(line) == seq![a, b, c],
        is_canonical(seq![a, b, c]),
        a != "BEGIN"@,
        a != "WRITE_LVAR"@,
    ensures
        message_text(m) == a + seq![' '] + b + seq![' '] + c + seq!['\n'],
{
    lemma_verbs();
    assert(a == "WRITE_OFFSET"@ && is_plain_offset(b) && is_plain_number(c));
    lemma_render_int_value(int_value(c, true)->Some_0);
    assert(!verb_is(a, "BEGIN"@));
    assert(!verb_is(a, "WRITE_LVAR"@));
    assert(verb_is(a, "WRITE_OFFSET"@));
}

proof fn lemma_reencode_obs_lvar(line: Seq<char>, a: Seq<char>, b: Seq<char>, m: MessageView)
    requires
        message_of(line) == Some(m),
        words(line) == seq![a, b],
        a == "OBS_LVAR"@,
    ensures
        message_text(m) == a + seq![' '] + b + seq!['\n'],
{
    lemma_verbs();
    assert(!verb_is(a, "BEGIN"@));
    assert(!verb_is(a, "WRITE_LVAR"@));
    assert(!verb_is(a, "WRITE_OFFSET"@));
    assert(verb_is(a, "OBS_LVAR"@));
}

proof fn lemma_reencode_obs_offset(line: Seq<char>, a: Seq<char>, b: Seq<char>, m: MessageView)
    requires
        message_of(line) == Some(m),
        words(line) == seq![a, b],
        is_canonical(seq![a, b]),
        a != "OBS_LVAR"@,
    ensures
        message_text(m) == a + seq![' '] + b + seq!['\n'],
{
    lemma_verbs();
    assert(a == "OBS_OFFSET"@ && is_plain_offset(b));
    assert(!verb_is(a, "BEGIN"@));
    assert(!verb_is(a, "WRITE_LVAR"@)) by {
        assert(a[0] == 'O');
    }
    assert(!verb_is(a, "WRITE_OFFSET"@));
    assert(!verb_is(a, "OBS_LVAR"@));
    assert(verb_is(a, "OBS_OFFSET"@));
}

/// Encoding a request and decoding its line gives the request back.
pub proof fn lemma_decode_encode(m: MessageView)
    requires
        is_encodable(m),
    ensures
        message_of(message_text(m)) == Some(m),
{
    match m {
        MessageView::Begin(v, id) => lemma_round_trip_begin(v, id),
        MessageView::WriteLvar(n, v) => lemma_round_trip_write_lvar(n, v),
        MessageView::WriteOffset(o, v) => lemma_round_trip_write_offset(o, v),
        MessageView::ObserveLvar(n) => lemma_round_trip_obs_lvar(n),
        MessageView::ObserveOffset(o) => lemma_round_trip_obs_offset(o),
    }
}

} // verus!
