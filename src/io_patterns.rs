use vstd::prelude::*;
use vstd::string::StringExecFns;

verus! {

/// The prefix that the echo service puts before every message.
pub const ECHO_PREFIX: &'static str = "Echo: ";

/// The text that the echo service answers for one message.
pub open spec fn echo_of(inp: Seq<char>) -> Seq<char> {
    ECHO_PREFIX@ + inp
}

/// Answers one message of the echo service: the message behind a fixed prefix.
pub fn process(inp: String) -> (r: String)
    ensures
        r@ == echo_of(inp@),
{
    let prefix = String::from_str(ECHO_PREFIX);
    prefix.concat(inp.as_str())
}

/// Twice `value`, where that fits an `i64`.
pub fn double_value(value: i64) -> (r: Option<i64>)
    ensures
        r == (if i64::MIN <= 2 * value <= i64::MAX {
            Some((2 * value) as i64)
        } else {
            None::<i64>
        }),
{
    value.checked_mul(2)
}

} // verus!
