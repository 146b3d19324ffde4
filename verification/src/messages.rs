//! Messages that pages send to the client through the render process: what
//! each asks for, and how the arguments of an event are written out for the
//! server.
use vstd::prelude::*;
use crate::text::str_eq;

verus! {

/// A value of a message's argument list. A double arrives already written
/// out as text.
pub enum ArgValue {
    Str(String),
    Bool(bool),
    Int(i32),
    Double(String),
    Other,
}

/// What a message from a page asks for.
pub enum PageRequest {
    /// Focus (or unfocus) the sending browser.
    SetFocus(bool),
    /// Hide (or show) the sending browser.
    Hide(bool),
    /// An event named so is emitted: plugins subscribed to it see it first,
    /// then it goes to the server.
    EmitEvent(String),
    /// An `emit_event` without a name: handled, nothing to do.
    Swallow,
    /// Not a message of the client.
    Unknown,
}

/// The flag carried by the first argument: an integer equal to one, or a boolean.
pub open spec fn flag_of(a: ArgValue) -> bool {
    match a {
        ArgValue::Int(i) => i == 1,
        ArgValue::Bool(b) => b,
        _ => false,
    }
}

fn flag_value(a: &ArgValue) -> (b: bool)
    ensures
        b == flag_of(*a),
{
    match a {
        ArgValue::Int(i) => *i == 1,
        ArgValue::Bool(b) => *b,
        _ => false,
    }
}

/// A page's flag is carried through as it was sent: a boolean as itself, an
/// integer as whether it is one, anything else as unset.
pub proof fn law_flag_is_carried_through(b: bool, i: i32, s: String)
    ensures
        flag_of(ArgValue::Bool(b)) == b,
        flag_of(ArgValue::Int(i)) == (i == 1),
        !flag_of(ArgValue::Str(s)),
        !flag_of(ArgValue::Double(s)),
        !flag_of(ArgValue::Other),
{
}

/// Reads a message named `name` whose first argument is `first`.
pub fn on_process_message(name: &str, first: &ArgValue) -> (r: PageRequest)
    ensures
        name@ == "set_focus"@ ==> r == PageRequest::SetFocus(flag_of(*first)),
        name@ == "hide"@ ==> r == PageRequest::Hide(flag_of(*first)),
        forall|b: bool| *first == ArgValue::Bool(b) ==> (name@ == "set_focus"@ ==> r == PageRequest::SetFocus(b))
            && (name@ == "hide"@ ==> r == PageRequest::Hide(b)),
        forall|i: i32| *first == ArgValue::Int(i) ==> (name@ == "set_focus"@ ==> r == PageRequest::SetFocus(i == 1))
            && (name@ == "hide"@ ==> r == PageRequest::Hide(i == 1)),
        name@ == "emit_event"@ ==> match *first {
            ArgValue::Str(s) => r matches PageRequest::EmitEvent(n) && n@ == s@,
            _ => r is Swallow,
        },
        name@ != "set_focus"@ && name@ != "hide"@ && name@ != "emit_event"@ ==> r is Unknown,
{
    proof {
        reveal_strlit("set_focus");
        reveal_strlit("hide");
        reveal_strlit("emit_event");
        assert("set_focus"@.len() == 9 && "hide"@.len() == 4 && "emit_event"@.len() == 10);
    }
    if str_eq(name, "set_focus") {
        PageRequest::SetFocus(flag_value(first))
    } else if str_eq(name, "hide") {
        PageRequest::Hide(flag_value(first))
    } else if str_eq(name, "emit_event") {
        match first {
            ArgValue::Str(s) => PageRequest::EmitEvent(s.clone()),
            _ => PageRequest::Swallow,
        }
    } else {
        PageRequest::Unknown
    }
}

/// What CEF is answered for a page's message: handled for a request to
/// focus or hide the browser and for an `emit_event` that names no event, not
/// handled for a message that is not the client's. For an event, the answer
/// depends on where it went (`route_handled`), so there is none here.
pub fn request_answer(r: &PageRequest) -> (a: Option<bool>)
    ensures
        a == (match *r {
            PageRequest::SetFocus(_) | PageRequest::Hide(_) | PageRequest::Swallow => Some(true),
            PageRequest::Unknown => Some(false),
            PageRequest::EmitEvent(_) => None::<bool>,
        }),
{
    match r {
        PageRequest::SetFocus(_) | PageRequest::Hide(_) | PageRequest::Swallow => Some(true),
        PageRequest::Unknown => Some(false),
        PageRequest::EmitEvent(_) => None,
    }
}

/// The decimal digits of `n`.
pub open spec fn digits(n: nat) -> Seq<char>
    decreases n,
{
    if n < 10 {
        seq![digit_char(n)]
    } else {
        digits(n / 10).push(digit_char(n % 10))
    }
}

pub open spec fn digit_char(d: nat) -> char {
    if d == 0 {
        '0'
    } else if d == 1 {
        '1'
    } else if d == 2 {
        '2'
    } else if d == 3 {
        '3'
    } else if d == 4 {
        '4'
    } else if d == 5 {
        '5'
    } else if d == 6 {
        '6'
    } else if d == 7 {
        '7'
    } else if d == 8 {
        '8'
    } else {
        '9'
    }
}

/// An integer written in decimal, with a minus sign when negative.
pub open spec fn decimal(n: int) -> Seq<char> {
    if n < 0 {
        seq!['-'] + digits((-n) as nat)
    } else {
        digits(n as nat)
    }
}

fn digit_str(d: u64) -> (s: &'static str)
    requires
        d < 10,
    ensures
        s@ == seq![digit_char(d as nat)],
{
    proof {
        reveal_strlit("0");
        reveal_strlit("1");
        reveal_strlit("2");
        reveal_strlit("3");
        reveal_strlit("4");
        reveal_strlit("5");
        reveal_strlit("6");
        reveal_strlit("7");
        reveal_strlit("8");
        reveal_strlit("9");
    }
    match d {
        0 => "0",
        1 => "1",
        2 => "2",
        3 => "3",
        4 => "4",
        5 => "5",
        6 => "6",
        7 => "7",
        8 => "8",
        _ => "9",
    }
}

fn append_digits(out: &mut String, n: u64)
    ensures
        final(out)@ == old(out)@ + digits(n as nat),
    decreases n,
{
    if n >= 10 {
        append_digits(out, n / 10);
    }
    out.append(digit_str(n % 10));
    proof {
        if n >= 10 {
            assert(digits(n as nat) == digits((n / 10) as nat).push(digit_char((n % 10) as nat)));
        }
    }
}

/// Appends `n` written in decimal.
pub fn append_decimal(out: &mut String, n: i32)
    ensures
        final(out)@ == old(out)@ + decimal(n as int),
{
    if n < 0 {
        let minus = "-";
        proof {
            reveal_strlit("-");
        }
        out.append(minus);
        let m: u64 = (0i64 - (n as i64)) as u64;
        append_digits(out, m);
    } else {
        append_digits(out, n as u64);
    }
}

/// How one argument is written for the server.
pub open spec fn arg_text(a: ArgValue) -> Seq<char> {
    match a {
        ArgValue::Str(s) => s@,
        ArgValue::Bool(b) => if b { seq!['1'] } else { seq!['0'] },
        ArgValue::Int(i) => decimal(i as int),
        ArgValue::Double(t) => t@,
        ArgValue::Other => "CEF_NULL"@,
    }
}

/// The arguments after the event name, each written out and followed by a space.
pub open spec fn arguments_text(args: Seq<ArgValue>) -> Seq<char>
    decreases args.len(),
{
    if args.len() <= 1 {
        seq![]
    } else {
        arguments_text(args.drop_last()) + arg_text(args.last()) + seq![' ']
    }
}

/// Writes out the arguments of an event (all but the first, its name) for the server.
pub fn event_arguments(args: &Vec<ArgValue>) -> (s: String)
    ensures
        s@ == arguments_text(args@),
{
    let mut out = String::new();
    let mut idx: usize = 1;
    if args.len() <= 1 {
        return out;
    }
    proof {
        assert(args@.take(1).len() == 1);
    }
    while idx < args.len()
        invariant
            1 <= idx <= args@.len(),
            out@ == arguments_text(args@.take(idx as int)),
        decreases args@.len() - idx,
    {
        proof {
            assert(args@.take(idx + 1).drop_last() =~= args@.take(idx as int));
            assert(args@.take(idx + 1).last() == args@[idx as int]);
        }
        let ghost before = out@;
        match &args[idx] {
            ArgValue::Str(s) => out.append(s.as_str()),
            ArgValue::Bool(b) => {
                let t = if *b { "1" } else { "0" };
                proof {
                    reveal_strlit("1");
                    reveal_strlit("0");
                }
                out.append(t);
            },
            ArgValue::Int(i) => append_decimal(&mut out, *i),
            ArgValue::Double(t) => out.append(t.as_str()),
            ArgValue::Other => out.append("CEF_NULL"),
        }
        let space = " ";
        proof {
            reveal_strlit(" ");
        }
        out.append(space);
        proof {
            assert(out@ =~= before + arg_text(args@[idx as int]) + seq![' ']);
        }
        idx = idx + 1;
    }
    proof {
        assert(args@.take(args@.len() as int) =~= args@);
    }
    out
}

/// What a plugin subscribed to an event answers when it handled the event
/// itself: the event then goes no further.
pub const EXTERNAL_BREAK: i32 = 1;

/// Where an `emit_event` message from a page goes.
pub enum EventRoute {
    /// The message named no event: handled, nothing to do.
    Swallow,
    /// A plugin handled the event: it does not go to the server.
    HandledByPlugin,
    /// The event goes to the server, with its name and its arguments written out.
    ToServer(String, String),
}

/// The event's name, when the first argument is a string.
pub open spec fn event_name(args: Seq<ArgValue>) -> Option<Seq<char>> {
    if args.len() > 0 && args[0] is Str {
        Some(args[0]->Str_0@)
    } else {
        None
    }
}

/// Routes the arguments `args` of an `emit_event` message. `plugin_answer`
/// is what the plugin subscribed to the event answered when it was handed the
/// event, `None` when no plugin is subscribed to it (it is asked only when the
/// message names an event). A plugin answering `EXTERNAL_BREAK` keeps the event
/// from the server; otherwise it goes to the server.
pub fn route_event(args: &Vec<ArgValue>, plugin_answer: Option<i32>) -> (r: EventRoute)
    ensures
        event_name(args@) is None ==> r is Swallow,
        event_name(args@) matches Some(n) ==> (if plugin_answer == Some(EXTERNAL_BREAK) {
            r is HandledByPlugin
        } else {
            r matches EventRoute::ToServer(name, text) && name@ == n && text@ == arguments_text(args@)
        }),
{
    if args.len() == 0 {
        return EventRoute::Swallow;
    }
    match &args[0] {
        ArgValue::Str(name) => {
            if plugin_answer == Some(EXTERNAL_BREAK) {
                EventRoute::HandledByPlugin
            } else {
                EventRoute::ToServer(name.clone(), event_arguments(args))
            }
        },
        _ => EventRoute::Swallow,
    }
}

/// What the page's message handler answers CEF: handled (`true`) unless the
/// event went on to the server.
pub fn route_handled(r: &EventRoute) -> (b: bool)
    ensures
        b == !(r is ToServer),
{
    match r {
        EventRoute::ToServer(_, _) => false,
        _ => true,
    }
}

} // verus!
