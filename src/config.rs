//! Text rules of the configuration store: what a load returns and what it
//! writes back, and what a save puts in the configuration file.

use vstd::prelude::*;
use crate::json::{encode_string, escaped, escaped_char, json_string};

verus! {

/// The blob handed out when no configuration could be read: `{}`.
pub open spec fn default_config_spec() -> Seq<char> {
    seq!['{', '}']
}

/// The text of the configuration file after `blob` was saved: the blob
/// encoded as a JSON string literal.
pub open spec fn saved_file_text(blob: Seq<char>) -> Seq<char> {
    json_string(blob)
}

/// The blob that a load returns, given what the read of the file gave.
pub open spec fn loaded_value(read: Option<Seq<char>>) -> Seq<char> {
    match read {
        Some(text) => text,
        None => default_config_spec(),
    }
}

/// What a load writes to the configuration file, given what the read gave:
/// nothing after a read, the saved form of the default after a miss.
pub open spec fn load_write_back(read: Option<Seq<char>>) -> Option<Seq<char>> {
    match read {
        Some(_) => None,
        None => Some(saved_file_text(default_config_spec())),
    }
}

/// The default configuration blob.
pub fn default_config() -> (r: String)
    ensures
        r@ == default_config_spec(),
{
    let r = String::from_str("{}");
    proof {
        reveal_strlit("{}");
    }
    r
}

/// The text that saving `blob` writes to the configuration file.
pub fn config_file_text(blob: &str) -> (r: String)
    ensures
        r@ == saved_file_text(blob@),
{
    encode_string(blob)
}

/// What a load of the configuration hands back, and what it must write to
/// the current configuration file before doing so.
pub struct LoadOutcome {
    pub value: String,
    pub write_back: Option<String>,
}

/// Settles a load of the configuration (current or legacy) from the result
/// of reading its file: the contents verbatim when the read succeeded;
/// otherwise the default blob, which is also saved to the current
/// configuration file.
pub fn resolve_load(read: Option<String>) -> (r: LoadOutcome)
    ensures
        r.value@ == loaded_value(read.deep_view()),
        r.write_back.deep_view() == load_write_back(read.deep_view()),
{
    match read {
        Some(text) => LoadOutcome { value: text, write_back: None },
        None => {
            let value = default_config();
            let written = config_file_text(value.as_str());
            LoadOutcome { value, write_back: Some(written) }
        },
    }
}

/// A save followed by a load returns the saved blob in its file form, the
/// JSON string literal of the blob, not the blob itself.
pub proof fn lemma_save_then_load(blob: Seq<char>)
    ensures
        loaded_value(Some(saved_file_text(blob))) == json_string(blob),
        load_write_back(Some(saved_file_text(blob))) is None,
{
}

/// A load that finds no file returns `{}` and leaves the file holding the
/// four characters `"{}"`.
pub proof fn lemma_load_missing()
    ensures
        loaded_value(None) == seq!['{', '}'],
        load_write_back(None) == Some(seq!['"', '{', '}', '"']),
{
    let d = default_config_spec();
    let open_brace = d.drop_last();
    assert(open_brace.drop_last() =~= Seq::<char>::empty());
    assert(escaped(open_brace.drop_last()) == Seq::<char>::empty());
    assert(open_brace.last() == '{');
    assert(d.last() == '}');
    assert(escaped_char('{') == seq!['{']);
    assert(escaped_char('}') == seq!['}']);
    assert(escaped(open_brace) =~= seq!['{']);
    assert(escaped(d) =~= seq!['{', '}']);
    assert(json_string(d) =~= seq!['"', '{', '}', '"']);
}

} // verus!
