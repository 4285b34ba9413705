//! What a connected device makes of the replies to its queries.
use vstd::prelude::*;

use crate::error::Error;
use crate::protocol::{aux_of_reply, aux_reply_problem, parse_aux_text};
use crate::text::{decimal, decimal_string};

verus! {

pub open spec fn port_mismatch_message(requested: u8, got: u8) -> Seq<char> {
    "AUX port mismatch: requested port "@ + decimal(requested as nat) + ", got port "@ + decimal(
        got as nat,
    )
}

/// The value in the reply to `?AUX{requested}`: the reply must be well formed
/// and name the port that was asked for.
pub fn aux_value_of_reply(requested: u8, line: &str) -> (r: Result<u8, Error>)
    ensures
        aux_of_reply(line@) is None ==> (r matches Err(Error::Protocol(m)) && m@
            == aux_reply_problem(line@)),
        aux_of_reply(line@) matches Some((p, v)) ==> (p == requested ==> r == Ok::<u8, Error>(v)),
        aux_of_reply(line@) matches Some((p, v)) ==> (p != requested ==> (r matches Err(
            Error::Protocol(m),
        ) && m@ == port_mismatch_message(requested, p))),
{
    let (port, value) = parse_aux_text(line)?;
    if port != requested {
        let mut m = String::from_str("AUX port mismatch: requested port ");
        m.append(decimal_string(requested).as_str());
        m.append(", got port ");
        m.append(decimal_string(port).as_str());
        return Err(Error::Protocol(m));
    }
    Ok(value)
}

} // verus!
