//! The messages this client sends and their wire text: one JSON object per
//! message, tagged by the message's name, written without white space.

use vstd::prelude::*;
use vstd::string::*;
use crate::room::{hyphenated, RoomId};
use crate::text::{
    all_digits, chars_of, decimal, digits_value, expect, is_digit, is_numeral,
    lemma_decimal_reads_back, lemma_digit_run_ends, lemma_numeral_is_decimal, occurs_at,
    push_decimal, read_digits, scan_digits,
};

verus! {

/// A cell of the output grid: column `x`, row `y`, counted from the top-left.
#[derive(Clone, Copy, Debug, PartialEq, Eq, Structural)]
pub struct Coordinate {
    pub x: u32,
    pub y: u32,
}

/// The colours this client draws with.
#[derive(Clone, Copy, Debug, PartialEq, Eq, Structural)]
pub enum Colour {
    White,
}

/// A request to set one cell of the room's surface to a colour.
#[derive(Clone, Copy, Debug, PartialEq, Eq, Structural)]
pub struct DrawCommand {
    pub at: Coordinate,
    pub colour: Colour,
}

/// A message from this client to the server.
#[derive(Clone, Copy, Debug, PartialEq, Eq)]
pub enum ClientMessage {
    /// Attach to an existing room.
    JoinRoom(RoomId),
    /// Set one cell of the room's surface.
    Draw(DrawCommand),
}

/// The name of a colour on the wire.
pub open spec fn colour_name(colour: Colour) -> Seq<char> {
    match colour {
        Colour::White => "White"@,
    }
}

/// The wire text of a join request: `{"JoinRoom":"<hyphenated room id>"}`.
pub open spec fn join_text(room: u128) -> Seq<char> {
    "{\"JoinRoom\":\""@ + hyphenated(room) + "\"}"@
}

/// The wire text of a draw command:
/// `{"Draw":{"x":<x>,"y":<y>,"colour":"<colour>"}}`, the coordinates as
/// decimal numerals.
pub open spec fn draw_text(cmd: DrawCommand) -> Seq<char> {
    "{\"Draw\":{\"x\":"@ + decimal(cmd.at.x as nat) + ",\"y\":"@ + decimal(cmd.at.y as nat)
        + ",\"colour\":\""@ + colour_name(cmd.colour) + "\"}}"@
}

impl Colour {
    /// The name of the colour on the wire.
    pub fn name(&self) -> (s: &'static str)
        ensures
            s@ == colour_name(*self),
    {
        match self {
            Colour::White => "White",
        }
    }
}

impl DrawCommand {
    /// The wire text of the command.
    pub fn encode(&self) -> (s: String)
        ensures
            s@ == draw_text(*self),
    {
        let mut s = String::from_str("{\"Draw\":{\"x\":");
        push_decimal(&mut s, self.at.x);
        s.append(",\"y\":");
        push_decimal(&mut s, self.at.y);
        s.append(",\"colour\":\"");
        s.append(self.colour.name());
        s.append("\"}}");
        s
    }
}

impl ClientMessage {
    /// The wire text of the message.
    pub open spec fn wire_text(&self) -> Seq<char> {
        match self {
            ClientMessage::JoinRoom(room) => join_text(room.spec_value()),
            ClientMessage::Draw(cmd) => draw_text(*cmd),
        }
    }

    /// The wire text of the message. Every message has one: encoding cannot
    /// fail.
    pub fn encode(&self) -> (s: String)
        ensures
            s@ == self.wire_text(),
    {
        match self {
            ClientMessage::JoinRoom(room) => {
                let mut s = String::from_str("{\"JoinRoom\":\"");
                let id = room.to_text();
                s.append(id.as_str());
                s.append("\"}");
                s
            },
            ClientMessage::Draw(cmd) => cmd.encode(),
        }
    }
}

/// The command that a wire text stands for: the one whose wire text it is, if
/// there is one.
pub open spec fn draw_decoded(text: Seq<char>) -> Option<DrawCommand> {
    if exists|cmd: DrawCommand| #[trigger] draw_text(cmd) == text {
        Some(choose|cmd: DrawCommand| #[trigger] draw_text(cmd) == text)
    } else {
        None
    }
}

/// How the wire text of a draw command is laid out: where each of its parts
/// stands, and that each coordinate is a numeral followed by a comma.
pub proof fn lemma_draw_text_layout(cmd: DrawCommand)
    ensures
        ({
            let t = draw_text(cmd);
            let dx = decimal(cmd.at.x as nat);
            let dy = decimal(cmd.at.y as nat);
            let name = colour_name(cmd.colour);
            let x_at = "{\"Draw\":{\"x\":"@.len() as int;
            let y_at = x_at + dx.len() + ",\"y\":"@.len();
            let name_at = y_at + dy.len() + ",\"colour\":\""@.len();
            &&& occurs_at(t, 0, "{\"Draw\":{\"x\":"@)
            &&& occurs_at(t, x_at, dx)
            &&& occurs_at(t, x_at + dx.len(), ",\"y\":"@)
            &&& occurs_at(t, y_at, dy)
            &&& occurs_at(t, y_at + dy.len(), ",\"colour\":\""@)
            &&& occurs_at(t, name_at, name)
            &&& occurs_at(t, name_at + name.len(), "\"}}"@)
            &&& t.len() == name_at + name.len() + "\"}}"@.len()
            &&& is_numeral(dx)
            &&& is_numeral(dy)
            &&& digits_value(dx) == cmd.at.x
            &&& digits_value(dy) == cmd.at.y
            &&& !is_digit(t[x_at + dx.len()])
            &&& !is_digit(t[y_at + dy.len()])
        }),
{
    let t = draw_text(cmd);
    let a = "{\"Draw\":{\"x\":"@;
    let b = ",\"y\":"@;
    let c = ",\"colour\":\""@;
    let d = "\"}}"@;
    let dx = decimal(cmd.at.x as nat);
    let dy = decimal(cmd.at.y as nat);
    let name = colour_name(cmd.colour);
    reveal_strlit(",\"y\":");
    reveal_strlit(",\"colour\":\"");
    lemma_decimal_reads_back(cmd.at.x as nat);
    lemma_decimal_reads_back(cmd.at.y as nat);
    let x_at = a.len() as int;
    let y_at = x_at + dx.len() + b.len();
    let name_at = y_at + dy.len() + c.len();
    assert(t == a + dx + b + dy + c + name + d);
    assert(t.subrange(0, x_at) =~= a);
    assert(t.subrange(x_at, x_at + dx.len()) =~= dx);
    assert(t.subrange(x_at + dx.len(), y_at) =~= b);
    assert(t.subrange(y_at, y_at + dy.len()) =~= dy);
    assert(t.subrange(y_at + dy.len(), name_at) =~= c);
    assert(t.subrange(name_at, name_at + name.len()) =~= name);
    assert(t.subrange(name_at + name.len(), name_at + name.len() + d.len()) =~= d);
    assert(t[x_at + dx.len()] == b[0]);
    assert(t[y_at + dy.len()] == c[0]);
}

/// Two draw commands with the same wire text are the same command.
pub proof fn lemma_draw_text_is_injective(first: DrawCommand, second: DrawCommand)
    requires
        draw_text(first) == draw_text(second),
    ensures
        first == second,
{
    let t = draw_text(first);
    lemma_draw_text_layout(first);
    lemma_draw_text_layout(second);
    let x_at = "{\"Draw\":{\"x\":"@.len() as int;
    let dx1 = decimal(first.at.x as nat);
    let dx2 = decimal(second.at.x as nat);
    assert(all_digits(t.subrange(x_at, x_at + dx1.len())));
    lemma_digit_run_ends(t, x_at, dx2, x_at + dx1.len());
    assert(dx1 == dx2);
    let y_at = x_at + dx1.len() + ",\"y\":"@.len();
    let dy1 = decimal(first.at.y as nat);
    let dy2 = decimal(second.at.y as nat);
    assert(all_digits(t.subrange(y_at, y_at + dy1.len())));
    lemma_digit_run_ends(t, y_at, dy2, y_at + dy1.len());
    assert(dy1 == dy2);
}

/// Round trip: the wire text of a draw command stands for that very command,
/// coordinate and colour.
pub proof fn lemma_draw_round_trip(cmd: DrawCommand)
    ensures
        draw_decoded(draw_text(cmd)) == Some(cmd),
{
    let back = choose|other: DrawCommand| #[trigger] draw_text(other) == draw_text(cmd);
    lemma_draw_text_is_injective(back, cmd);
}

/// A text that is laid out as a draw command is the wire text of that
/// command.
proof fn lemma_layout_is_draw_text(t: Seq<char>, x_end: int, y_at: int, y_end: int, cmd: DrawCommand)
    requires
        occurs_at(t, 0, "{\"Draw\":{\"x\":"@),
        "{\"Draw\":{\"x\":"@.len() <= x_end,
        t.subrange("{\"Draw\":{\"x\":"@.len() as int, x_end) == decimal(cmd.at.x as nat),
        occurs_at(t, x_end, ",\"y\":"@),
        y_at == x_end + ",\"y\":"@.len(),
        y_at <= y_end,
        t.subrange(y_at, y_end) == decimal(cmd.at.y as nat),
        occurs_at(t, y_end, ",\"colour\":\""@),
        occurs_at(t, y_end + ",\"colour\":\""@.len(), colour_name(cmd.colour)),
        occurs_at(
            t,
            y_end + ",\"colour\":\""@.len() + colour_name(cmd.colour).len(),
            "\"}}"@,
        ),
        t.len() == y_end + ",\"colour\":\""@.len() + colour_name(cmd.colour).len() + "\"}}"@.len(),
    ensures
        t == draw_text(cmd),
{
    assert(t =~= draw_text(cmd));
}

impl DrawCommand {
    /// Reads a draw command back from its wire text, as the receiving side
    /// does. A text that is not the wire text of a draw command gives `None`.
    pub fn decode(text: &str) -> (r: Option<DrawCommand>)
        ensures
            r == draw_decoded(text@),
    {
        let chars = chars_of(text);
        let ghost t = chars@;
        proof {
            assert forall|cmd: DrawCommand| #[trigger] draw_text(cmd) == t implies {
                let dx = decimal(cmd.at.x as nat);
                let dy = decimal(cmd.at.y as nat);
                let name = colour_name(cmd.colour);
                let x_at = "{\"Draw\":{\"x\":"@.len() as int;
                let y_at = x_at + dx.len() + ",\"y\":"@.len();
                let name_at = y_at + dy.len() + ",\"colour\":\""@.len();
                &&& occurs_at(t, 0, "{\"Draw\":{\"x\":"@)
                &&& occurs_at(t, x_at, dx)
                &&& occurs_at(t, x_at + dx.len(), ",\"y\":"@)
                &&& occurs_at(t, y_at, dy)
                &&& occurs_at(t, y_at + dy.len(), ",\"colour\":\""@)
                &&& occurs_at(t, name_at, name)
                &&& occurs_at(t, name_at + name.len(), "\"}}"@)
                &&& t.len() == name_at + name.len() + "\"}}"@.len()
                &&& is_numeral(dx)
                &&& is_numeral(dy)
                &&& digits_value(dx) == cmd.at.x
                &&& digits_value(dy) == cmd.at.y
                &&& !is_digit(t[x_at + dx.len()])
                &&& !is_digit(t[y_at + dy.len()])
            } by {
                lemma_draw_text_layout(cmd);
            }
        }
        let x_at = match expect(&chars, 0, "{\"Draw\":{\"x\":") {
            Some(at) => at,
            None => {
                return None;
            },
        };
        let x_end = scan_digits(&chars, x_at);
        proof {
            assert forall|cmd: DrawCommand| #[trigger] draw_text(cmd) == t implies x_end == x_at
                + decimal(cmd.at.x as nat).len() by {
                lemma_digit_run_ends(t, x_at as int, decimal(cmd.at.x as nat), x_end as int);
            }
        }
        if x_end == x_at || (x_end - x_at > 1 && chars[x_at] == '0') {
            proof {
                if x_end > x_at {
                    assert(t.subrange(x_at as int, x_end as int)[0] == t[x_at as int]);
                }
            }
            return None;
        }
        let x: u32 = match read_digits(&chars, x_at, x_end, 0xffff_ffff) {
            Some(x) => x as u32,
            None => {
                return None;
            },
        };
        let y_at = match expect(&chars, x_end, ",\"y\":") {
            Some(at) => at,
            None => {
                return None;
            },
        };
        let y_end = scan_digits(&chars, y_at);
        proof {
            assert forall|cmd: DrawCommand| #[trigger] draw_text(cmd) == t implies y_end == y_at
                + decimal(cmd.at.y as nat).len() by {
                lemma_digit_run_ends(t, y_at as int, decimal(cmd.at.y as nat), y_end as int);
            }
        }
        if y_end == y_at || (y_end - y_at > 1 && chars[y_at] == '0') {
            proof {
                if y_end > y_at {
                    assert(t.subrange(y_at as int, y_end as int)[0] == t[y_at as int]);
                }
            }
            return None;
        }
        let y: u32 = match read_digits(&chars, y_at, y_end, 0xffff_ffff) {
            Some(y) => y as u32,
            None => {
                return None;
            },
        };
        let name_at = match expect(&chars, y_end, ",\"colour\":\"") {
            Some(at) => at,
            None => {
                return None;
            },
        };
        let colour = Colour::White;
        let name_end = match expect(&chars, name_at, colour.name()) {
            Some(at) => at,
            None => {
                return None;
            },
        };
        let end = match expect(&chars, name_end, "\"}}") {
            Some(at) => at,
            None => {
                return None;
            },
        };
        if end != chars.len() {
            return None;
        }
        let cmd = DrawCommand { at: Coordinate { x, y }, colour };
        proof {
            let run_x = t.subrange(x_at as int, x_end as int);
            let run_y = t.subrange(y_at as int, y_end as int);
            assert(run_x[0] == t[x_at as int]);
            assert(run_y[0] == t[y_at as int]);
            lemma_numeral_is_decimal(run_x);
            lemma_numeral_is_decimal(run_y);
            lemma_layout_is_draw_text(t, x_end as int, y_at as int, y_end as int, cmd);
            lemma_draw_round_trip(cmd);
        }
        Some(cmd)
    }
}

} // verus!
