//! The built-in functions. Each computes what the host is to do: the text
//! to print, the code to exit with. Performing it is left to the caller.

use super::value::{name_of_type, value_text, Value, ValueView};
use crate::error::{Error, ErrorKind, Location};
use crate::number::to_i32;
use crate::text::{natural_text, push_natural};
use vstd::prelude::*;
use vstd::string::*;

verus! {

/// The texts of `values`, with one space between each two.
pub open spec fn joined(values: Seq<Value>) -> Seq<char>
    decreases values.len(),
{
    if values.len() == 0 {
        Seq::empty()
    } else if values.len() == 1 {
        value_text(values[0]@)
    } else {
        joined(values.drop_last()) + " "@ + value_text(values.last()@)
    }
}

/// What a built-in called `name` says when it is not given its one argument.
pub open spec fn arity_message(name: Seq<char>, supplied: nat) -> Seq<char> {
    "Function '"@ + name + "' takes 1 argument, however "@ + natural_text(supplied)
        + " were supplied"@
}

fn arity_error<'f>(name: &str, supplied: usize, start_loc: Location<'f>, end_loc: Location<'f>) -> (r:
    Error<'f>)
    ensures
        r.is(ErrorKind::TypeError, start_loc, end_loc, arity_message(name@, supplied as nat)),
{
    let mut message = String::from_str("Function '");
    message.append(name);
    message.append("' takes 1 argument, however ");
    push_natural(&mut message, supplied);
    message.append(" were supplied");
    Error::new(ErrorKind::TypeError, start_loc, end_loc, message)
}

fn join(args: &Vec<Value>) -> (r: String)
    ensures
        r@ == joined(args@),
{
    let mut r = String::new();
    let mut i: usize = 0;
    while i < args.len()
        invariant
            0 <= i <= args.len(),
            r@ == joined(args@.take(i as int)),
        decreases args.len() - i,
    {
        let text = args[i].to_string();
        if i > 0 {
            r.append(" ");
        }
        r.append(text.as_str());
        i += 1;
        proof {
            let now = args@.take(i as int);
            assert(now.drop_last() == args@.take(i - 1));
            assert(now.last() == args@[i - 1]);
            if i == 1 {
                assert(joined(now.drop_last()) == Seq::<char>::empty());
                assert(Seq::<char>::empty() + value_text(now[0]@) == value_text(now[0]@));
            }
        }
    }
    assert(args@.take(args.len() as int) == args@);
    r
}

/// The line that `print` hands to the host: the texts of the arguments with
/// one space between each two.
pub fn print(args: Vec<Value>) -> (r: String)
    ensures
        r@ == joined(args@),
{
    join(&args)
}

/// As `print`, with a line feed at the end.
pub fn printl(args: Vec<Value>) -> (r: String)
    ensures
        r@ == joined(args@) + "\n"@,
{
    let mut r = join(&args);
    r.append("\n");
    r
}

/// `typeOf`: the name of the type of its one argument, as a string value.
/// Any other count of arguments is a `TypeError` over the span of the call.
pub fn type_of<'f>(args: Vec<Value>, start_loc: Location<'f>, end_loc: Location<'f>) -> (r: Result<
    Value,
    Error<'f>,
>)
    ensures
        args.len() == 1 ==> (r matches Ok(v) && v@ == ValueView::String(name_of_type(args[0]@))),
        args.len() != 1 ==> (r matches Err(e) && e.is(
            ErrorKind::TypeError,
            start_loc,
            end_loc,
            arity_message("typeOf"@, args.len() as nat),
        )),
{
    if args.len() != 1 {
        return Err(arity_error("typeOf", args.len(), start_loc, end_loc));
    }
    Ok(Value::String(String::from_str(super::value::type_of(&args[0]))))
}

/// What `exit` comes to on `args`: the exit code, or the kind and message of
/// the error.
pub open spec fn exit_outcome(args: Seq<Value>) -> Result<i32, (ErrorKind, Seq<char>)> {
    if args.len() != 1 {
        Err((ErrorKind::TypeError, arity_message("exit"@, args.len())))
    } else {
        match args[0] {
            Value::Number(n) => if !n.is_integer() {
                Err((ErrorKind::ValueError, "Exit code has to be an integer"@))
            } else if !(i32::MIN <= n.trunc() <= i32::MAX) {
                Err((ErrorKind::ValueError, "Exit code is too high or too low"@))
            } else {
                Ok(n.trunc() as i32)
            },
            _ => Err(
                (
                    ErrorKind::TypeError,
                    "First argument of function 'exit' has to be of type number"@,
                ),
            ),
        }
    }
}

/// `exit`: the code with which the host is to end the process. The one
/// argument has to be a number that is an integer within the range of `i32`;
/// each other case is an error over the span of the call.
pub fn exit<'f>(args: Vec<Value>, start_loc: Location<'f>, end_loc: Location<'f>) -> (r: Result<
    i32,
    Error<'f>,
>)
    ensures
        match exit_outcome(args@) {
            Ok(code) => r == Ok::<i32, Error<'f>>(code),
            Err((kind, message)) => r matches Err(e) && e.is(kind, start_loc, end_loc, message),
        },
{
    if args.len() != 1 {
        return Err(arity_error("exit", args.len(), start_loc, end_loc));
    }
    match &args[0] {
        Value::Number(num) => {
            if !num.has_no_fraction() {
                return Err(
                    Error::new(
                        ErrorKind::ValueError,
                        start_loc,
                        end_loc,
                        String::from_str("Exit code has to be an integer"),
                    ),
                );
            }
            match to_i32(*num) {
                Some(code) => Ok(code),
                None => Err(
                    Error::new(
                        ErrorKind::ValueError,
                        start_loc,
                        end_loc,
                        String::from_str("Exit code is too high or too low"),
                    ),
                ),
            }
        },
        _ => Err(
            Error::new(
                ErrorKind::TypeError,
                start_loc,
                end_loc,
                String::from_str("First argument of function 'exit' has to be of type number"),
            ),
        ),
    }
}

} // verus!
