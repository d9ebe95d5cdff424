//! The dispatcher: resolve a command, supply its input when one is
//! required, run its transformation, and surface any failure unchanged.

use vstd::prelude::*;
use vstd::string::StringSliceAdditionalSpecFns;
use crate::binary::binary_decode;
use crate::binary::binary_encode;
use crate::binary::byte_chars;
use crate::binary::spec_decode;
use crate::binary::spec_encode;
use crate::casing::spec_spongebob;
use crate::casing::spongebob;
use crate::command::spec_lookup;
use crate::command::lookup;
use crate::command::Command;
use crate::command::InputKind;
use crate::errors::TransformError;
use crate::espanso::config_espanso;
use crate::espanso::spec_config;
use crate::jsonfmt::format_json;
use crate::jsonfmt::json_pretty;
use crate::jsonfmt::json_valid;
use crate::jsonfmt::json_value_of;
use crate::password::gen_password;
use crate::password::is_alnum_char;
use crate::password::spec_password_len;
use crate::redditurl::reddit_top;
use crate::redditurl::spec_new_pairs;
use crate::redditurl::spec_new_path;
use crate::redditurl::spec_reddit_ok;
use crate::redditurl::url_path_of;
use crate::redditurl::url_pairs_of;
use crate::redditurl::url_rebuilt;
use crate::strutil::spec_i64_dec;
use crate::strutil::spec_trim;
use crate::strutil::trim_text;
use crate::timeid::gen_uuid4;
use crate::timeid::gen_uuid7;
use crate::timeid::get_iso_timestamp;
use crate::timeid::spec_uuid_shape;
use crate::timeid::spec_uuid7_millis;
use crate::timeid::spec_uuid7_time_prefix;

verus! {

/// What running `cmd` on the supplied input guarantees of the result: the
/// transformation's own contract when its input is present, and an
/// `InputUnavailable` failure exactly when a required input is missing.
pub open spec fn spec_execute_post(
    cmd: Command,
    supplied: Option<&str>,
    r: Result<String, TransformError>,
) -> bool {
    &&& ((r == Err::<String, TransformError>(TransformError::InputUnavailable)) <==> (
    cmd.spec_input_kind() != InputKind::NoInput && supplied is None))
    &&& match cmd {
        Command::ConfigEspanso => supplied is Some ==> r is Ok && r->Ok_0@ == spec_config(
            supplied->0@,
        ),
        Command::BinaryDecode => supplied is Some ==> match spec_decode(supplied->0@) {
            Some(bs) => r is Ok && r->Ok_0@ == byte_chars(bs),
            None => r == Err::<String, TransformError>(TransformError::InvalidEncoding),
        },
        Command::BinaryEncode => supplied is Some ==> r is Ok && r->Ok_0@ == spec_encode(
            supplied->0.spec_bytes(),
        ),
        Command::FormatJson => supplied is Some ==> {
            &&& r is Ok <==> json_valid(supplied->0@)
            &&& r is Ok ==> r->Ok_0@ == json_pretty(json_value_of(supplied->0@))
            &&& r is Ok ==> json_valid(r->Ok_0@) && json_value_of(r->Ok_0@) == json_value_of(
                supplied->0@,
            )
            &&& !json_valid(supplied->0@) ==> r == Err::<String, TransformError>(
                TransformError::InvalidJson,
            )
        },
        Command::Ip => supplied is Some ==> r is Ok && r->Ok_0@ == spec_trim(supplied->0@),
        Command::Password => supplied is Some ==> r is Ok && r->Ok_0@.len() == spec_password_len(
            supplied->0@,
        ) && (forall|k: int| 0 <= k < r->Ok_0@.len() ==> is_alnum_char(#[trigger] r->Ok_0@[k])),
        Command::RedditTop => supplied is Some ==> {
            &&& r is Ok <==> spec_reddit_ok(supplied->0@)
            &&& r is Ok ==> r->Ok_0@ == url_rebuilt(
                supplied->0@,
                spec_new_path(url_path_of(supplied->0@)),
                spec_new_pairs(url_pairs_of(supplied->0@), url_path_of(supplied->0@)),
            )
            &&& !spec_reddit_ok(supplied->0@) ==> r == Err::<String, TransformError>(
                TransformError::InvalidUrl,
            )
        },
        Command::Spongebob => supplied is Some ==> r is Ok && r->Ok_0@ == spec_spongebob(
            supplied->0@,
        ),
        Command::Timestamp => r is Ok && (exists|s: int|
            i64::MIN <= s <= i64::MAX && r->Ok_0@ == spec_i64_dec(s)),
        Command::Uuid4 => r is Ok && spec_uuid_shape(r->Ok_0@, '4'),
        Command::Uuid7 => r is Ok && spec_uuid_shape(r->Ok_0@, '7') && (exists|s: int, n: int|
            #[trigger] spec_uuid7_time_prefix(r->Ok_0@, spec_uuid7_millis(s, n))),
    }
}

/// Run one command's transformation. `supplied` carries the text the
/// command consumes, already read from wherever its input kind says it
/// comes from; commands that need no input ignore it.
pub fn execute(cmd: &Command, supplied: Option<&str>) -> (r: Result<String, TransformError>)
    ensures
        spec_execute_post(*cmd, supplied, r),
{
    match cmd {
        Command::Timestamp => Ok(get_iso_timestamp()),
        Command::Uuid4 => Ok(gen_uuid4()),
        Command::Uuid7 => Ok(gen_uuid7()),
        _ => {
            let input = match supplied {
                Some(s) => s,
                None => {
                    return Err(TransformError::InputUnavailable);
                },
            };
            match cmd {
                Command::ConfigEspanso => Ok(config_espanso(input)),
                Command::BinaryDecode => binary_decode(input),
                Command::BinaryEncode => Ok(binary_encode(input)),
                Command::FormatJson => format_json(input),
                Command::Ip => Ok(trim_text(input)),
                Command::Password => Ok(gen_password(input)),
                Command::RedditTop => reddit_top(input),
                Command::Spongebob => Ok(spongebob(input)),
                _ => {
                    proof {
                        assert(false);
                    }
                    Err(TransformError::UnknownCommand)
                },
            }
        },
    }
}

/// Resolve a command name in the registry and run it: an unregistered name
/// fails with `UnknownCommand`, and a resolved command's run guarantees
/// everything `execute` does.
pub fn dispatch(name: &str, supplied: Option<&str>) -> (r: Result<String, TransformError>)
    ensures
        match spec_lookup(name@) {
            Some(cmd) => spec_execute_post(cmd, supplied, r),
            None => r == Err::<String, TransformError>(TransformError::UnknownCommand),
        },
{
    match lookup(name) {
        Some(cmd) => execute(&cmd, supplied),
        None => Err(TransformError::UnknownCommand),
    }
}

} // verus!
