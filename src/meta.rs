use vstd::prelude::*;
use vstd::string::*;
use crate::json::{
    items_view, lemma_compound_view, parse_json, parsed_json, push_item, Json, JsonValue,
};
use crate::rpc::{MorayError, RpcCall};

verus! {

/// The options a raw query sends: options given as a string are JSON text
/// and are sent as the value that text holds; any other value is sent as it
/// is.
pub open spec fn sql_options(opts: Json) -> Option<Json> {
    match opts {
        Json::Str(text) => parsed_json(text),
        _ => Some(opts),
    }
}

/// The call that runs a raw SQL statement: the statement, its values as an
/// array of strings, and the options. Options given as a text that is not
/// JSON are refused with `InvalidOptions`.
pub fn sql_request(stmt: &str, vals: &[&str], opts: JsonValue) -> (r: Result<RpcCall, MorayError>)
    ensures
        sql_options(opts@) is None ==> r == Err::<RpcCall, MorayError>(MorayError::InvalidOptions),
        sql_options(opts@) matches Some(o) ==> (r matches Ok(c) && c.method@ == "sql"@ && c.args@
            == Json::Array(
            seq![
                Json::Str(stmt@),
                Json::Array(Seq::new(vals@.len(), |i: int| Json::Str(vals@[i]@))),
                o,
            ],
        )),
{
    let ghost opts_view = opts@;
    let options = match opts {
        JsonValue::String(text) => match parse_json(text.as_str()) {
            Some(v) => v,
            None => {
                return Err(MorayError::InvalidOptions);
            },
        },
        other => other,
    };
    let mut values: Vec<JsonValue> = Vec::new();
    let mut i: usize = 0;
    while i < vals.len()
        invariant
            i <= vals@.len(),
            items_view(values@) =~= Seq::new(i as nat, |j: int| Json::Str(vals@[j]@)),
        decreases vals@.len() - i,
    {
        push_item(&mut values, JsonValue::String(String::from_str(vals[i])));
        i = i + 1;
    }
    let values = JsonValue::Array(values);
    let ghost options_view = options@;
    let mut args: Vec<JsonValue> = Vec::new();
    push_item(&mut args, JsonValue::String(String::from_str(stmt)));
    push_item(&mut args, values);
    push_item(&mut args, options);
    let r = RpcCall { method: String::from_str("sql"), args: JsonValue::Array(args) };
    proof {
        lemma_compound_view(values);
        lemma_compound_view(r.args);
        assert(items_view(args@) =~= seq![
            Json::Str(stmt@),
            Json::Array(Seq::new(vals@.len(), |i: int| Json::Str(vals@[i]@))),
            options_view,
        ]);
    }
    Ok(r)
}

} // verus!
