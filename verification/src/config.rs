//! The run's configuration, as read from the command line's arguments.

use vstd::prelude::*;
use crate::error::Failure;
use crate::text::{all_digits, chars_of, digits_value, read_digits, scan_digits};

verus! {

/// What a run needs to know.
#[derive(Clone, Debug, PartialEq, Eq)]
pub struct Args {
    /// The endpoint of the drawing server.
    pub server_url: String,
    /// The path of the image file.
    pub filename: String,
    /// Source pixels per output column; at least 1.
    pub scale: usize,
}

/// The digits of a scale argument: the text itself, without the plus sign it
/// may begin with.
pub open spec fn scale_digits(text: Seq<char>) -> Seq<char> {
    if text.len() > 0 && text[0] == '+' {
        text.skip(1)
    } else {
        text
    }
}

/// The scale that an argument stands for: a run of one or more decimal
/// digits, with or without a plus sign before it, that reads as a number
/// from 1 to `usize::MAX`. Anything else stands for none.
pub open spec fn scale_of(text: Seq<char>) -> Option<usize> {
    let digits = scale_digits(text);
    if digits.len() >= 1 && all_digits(digits) && 1 <= digits_value(digits) <= usize::MAX {
        Some(digits_value(digits) as usize)
    } else {
        None
    }
}

/// Reads a scale argument. A text that stands for no scale, zero and numbers
/// beyond `usize::MAX` among them, is a configuration error that carries the
/// text.
pub fn parse_scale(text: &str) -> (r: Result<usize, Failure>)
    ensures
        r is Ok <==> scale_of(text@) is Some,
        r is Ok ==> Some(r->Ok_0) == scale_of(text@),
        r is Err ==> (r matches Err(Failure::InvalidScale(t)) && t@ == text@),
{
    let chars = chars_of(text);
    let from: usize = if chars.len() > 0 && chars[0] == '+' {
        1
    } else {
        0
    };
    proof {
        assert(scale_digits(text@) =~= chars@.subrange(from as int, chars@.len() as int));
    }
    let end = scan_digits(&chars, from);
    if end == chars.len() && end > from {
        match read_digits(&chars, from, end, usize::MAX as u64) {
            Some(v) => {
                if v >= 1 {
                    return Ok(v as usize);
                }
            },
            None => {},
        }
    } else if end < chars.len() {
        proof {
            assert(scale_digits(text@)[end - from] == chars@[end as int]);
        }
    }
    Err(Failure::InvalidScale(String::from_str(text)))
}

/// Reads the arguments that follow the program's name: the server's endpoint,
/// the image's path and, optionally, the scale, which is 1 where it is not
/// given. Further arguments are ignored. Without endpoint or path the result
/// is [`Failure::Usage`]; with a third argument that stands for no scale it
/// is [`Failure::InvalidScale`] with that argument.
pub fn get_args(args: &Vec<String>) -> (r: Result<Args, Failure>)
    ensures
        args@.len() < 2 ==> r == Err::<Args, Failure>(Failure::Usage),
        args@.len() == 2 ==> (r matches Ok(a) && a.server_url@ == args@[0]@ && a.filename@
            == args@[1]@ && a.scale == 1),
        args@.len() > 2 ==> match scale_of(args@[2]@) {
            Some(scale) => r matches Ok(a) && a.server_url@ == args@[0]@ && a.filename@
                == args@[1]@ && a.scale == scale,
            None => r matches Err(Failure::InvalidScale(t)) && t@ == args@[2]@,
        },
{
    if args.len() < 2 {
        return Err(Failure::Usage);
    }
    let scale: usize = if args.len() > 2 {
        match parse_scale(args[2].as_str()) {
            Ok(scale) => scale,
            Err(e) => {
                return Err(e);
            },
        }
    } else {
        1
    };
    Ok(Args { server_url: args[0].clone(), filename: args[1].clone(), scale })
}

} // verus!
