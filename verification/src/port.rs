//! Which port the loopback listener uses.
//!
//! A port given on the command line wins over one recorded in the
//! configuration file, and that one over a port found free by scanning.

use crate::decimal::{decimal_u16, parse_u16};
use crate::text::{same_text, trim, trimmed};
use vstd::prelude::*;

verus! {

/// Where the configuration file with the port lies.
pub const PORT_FILE: &'static str = "/etc/time-shell/port";

/// The command-line flag that is followed by the port.
pub const PORT_FLAG: &'static str = "--port";

/// The port that the content of a configuration file records: the content is
/// one decimal number, white space around it aside. Anything else records no
/// port.
pub open spec fn config_port(content: Seq<char>) -> Option<u16> {
    decimal_u16(trimmed(content))
}

/// The port that a command line asks for. The line is the program's name, the
/// flag and the port, and nothing more; any other line asks for none.
pub open spec fn flag_port(args: Seq<String>) -> Option<u16> {
    if args.len() == 3 && args[1]@ == PORT_FLAG@ {
        decimal_u16(args[2]@)
    } else {
        None
    }
}

/// The port to listen on, by precedence: command line, configuration file,
/// the port that was found free.
pub open spec fn resolved_port(available_port: u16, config: Seq<char>, args: Seq<String>) -> u16 {
    match flag_port(args) {
        Some(port) => port,
        None => match config_port(config) {
            Some(port) => port,
            None => available_port,
        },
    }
}

/// Reads the port out of the configuration file's content. An absent file is
/// passed as the empty text.
pub fn get_port_from_config_file(content: &str) -> (port: Option<u16>)
    ensures
        port == config_port(content@),
{
    parse_u16(trim(content))
}

/// Reads the port out of the program's command line, the program's name
/// included.
pub fn get_port_from_args(args: &[String]) -> (port: Option<u16>)
    ensures
        port == flag_port(args@),
{
    if args.len() == 3 && same_text(args[1].as_str(), PORT_FLAG) {
        parse_u16(args[2].as_str())
    } else {
        None
    }
}

/// Settles the port to listen on.
pub fn get_port(available_port: u16, config: &str, args: &[String]) -> (port: u16)
    ensures
        port == resolved_port(available_port, config@, args@),
{
    let config_file_port = match get_port_from_config_file(config) {
        Some(port) => port,
        None => available_port,
    };
    match get_port_from_args(args) {
        Some(port) => port,
        None => config_file_port,
    }
}

} // verus!
