use vstd::prelude::*;
use vstd::string::*;
use crate::json::{
    decimal_u64, items_view, lemma_compound_view, parse_decimal_u64, parse_json, parsed_json,
    lemma_bare_object_is_single_element, payload_items, push_entry, push_item, spec_text_field, text_field, Json, JsonValue,
};
use crate::objects::new_request_id;
use crate::rpc::{MorayError, RpcCall};

verus! {

/// Properties of a bucket itself, as opposed to the options of a call.
#[derive(Debug, PartialEq, Eq, Clone, Copy)]
pub struct BucketOptions {
    pub version: u32,
    pub guarantee_order: bool,
    pub sync_updates: bool,
}

/// A flag that may be written under either of two names: false where both
/// are absent, a failure where both are present or the value is not a
/// boolean.
pub open spec fn flag_of_json(j: Json, name: Seq<char>, alias: Seq<char>) -> Option<bool> {
    match (j.get(name), j.get(alias)) {
        (None, None) => Some(false),
        (Some(Json::Bool(b)), None) => Some(b),
        (None, Some(Json::Bool(b))) => Some(b),
        _ => None,
    }
}

/// The bucket version: zero where absent, else a number that fits `u32`.
pub open spec fn version_of_json(j: Json) -> Option<u32> {
    match j.get("version"@) {
        None => Some(0),
        Some(Json::Number(t)) => match decimal_u64(t) {
            Some(n) => if n <= u32::MAX {
                Some(n as u32)
            } else {
                None
            },
            None => None,
        },
        _ => None,
    }
}

/// The bucket options that a JSON object describes.
pub open spec fn bucket_options_of_json(j: Json) -> Option<BucketOptions> {
    let version = version_of_json(j);
    let guarantee_order = flag_of_json(j, "guarantee_order"@, "guaranteeOrder"@);
    let sync_updates = flag_of_json(j, "sync_updates"@, "syncUpdates"@);
    if j is Object && version is Some && guarantee_order is Some && sync_updates is Some {
        Some(
            BucketOptions {
                version: version->0,
                guarantee_order: guarantee_order->0,
                sync_updates: sync_updates->0,
            },
        )
    } else {
        None
    }
}

/// Reads a flag written under `name` or under `alias`.
pub fn flag_field(v: &JsonValue, name: &str, alias: &str) -> (r: Option<bool>)
    ensures
        r == flag_of_json(v@, name@, alias@),
{
    match (v.get(name), v.get(alias)) {
        (None, None) => Some(false),
        (Some(JsonValue::Bool(b)), None) => Some(*b),
        (None, Some(JsonValue::Bool(b))) => Some(*b),
        _ => None,
    }
}

impl BucketOptions {
    pub fn from_json(v: &JsonValue) -> (r: Option<BucketOptions>)
        ensures
            r == bucket_options_of_json(v@),
    {
        let version: Option<u32> = match v.get("version") {
            None => Some(0),
            Some(JsonValue::Number(t)) => match parse_decimal_u64(t.as_str()) {
                Some(n) => if n <= u32::MAX as u64 {
                    Some(n as u32)
                } else {
                    None
                },
                None => None,
            },
            _ => None,
        };
        let guarantee_order = flag_field(v, "guarantee_order", "guaranteeOrder");
        let sync_updates = flag_field(v, "sync_updates", "syncUpdates");
        proof {
            lemma_compound_view(*v);
        }
        match (v, version, guarantee_order, sync_updates) {
            (JsonValue::Object(_), Some(version), Some(guarantee_order), Some(sync_updates)) => {
                Some(BucketOptions { version, guarantee_order, sync_updates })
            },
            _ => None,
        }
    }
}

/// The texts that a JSON array of strings holds.
pub open spec fn texts_of_json(j: Json) -> Option<Seq<Seq<char>>> {
    match j {
        Json::Array(items) => if forall|i: int| 0 <= i < items.len() ==> #[trigger] items[i] is Str {
            Some(Seq::new(items.len(), |i: int| items[i]->Str_0))
        } else {
            None
        },
        _ => None,
    }
}

/// Reads an array of strings.
pub fn texts_from_json(v: &JsonValue) -> (r: Option<Vec<String>>)
    ensures
        match r {
            Some(t) => texts_of_json(v@) == Some(t@.map_values(|s: String| s@)),
            None => texts_of_json(v@) is None,
        },
{
    proof {
        lemma_compound_view(*v);
    }
    match v {
        JsonValue::Array(elements) => {
            let ghost items = v@->Array_0;
            let mut out: Vec<String> = Vec::new();
            let mut i: usize = 0;
            while i < elements.len()
                invariant
                    i <= elements.len(),
                    items == items_view(elements@),
                    v@ == Json::Array(items),
                    out.len() == i,
                    forall|j: int|
                        0 <= j < i ==> #[trigger] items[j] == Json::Str(out@[j]@),
                decreases elements.len() - i,
            {
                assert(items[i as int] == elements@[i as int]@);
                match &elements[i] {
                    JsonValue::String(s) => {
                        out.push(s.clone());
                    },
                    _ => {
                        return None;
                    },
                }
                i = i + 1;
            }
            assert(Seq::new(items.len(), |i: int| items[i]->Str_0) =~= out@.map_values(
                |s: String| s@,
            ));
            Some(out)
        },
        _ => None,
    }
}

/// A bucket: its name, its index description, its properties and its
/// trigger lists.
#[derive(Clone, Debug, PartialEq)]
pub struct Bucket {
    pub index: JsonValue,
    pub mtime: String,
    pub name: String,
    pub options: BucketOptions,
    pub post: Vec<String>,
    pub pre: Vec<String>,
}

/// The mathematical form of a [`Bucket`].
pub struct BucketModel {
    pub index: Json,
    pub mtime: Seq<char>,
    pub name: Seq<char>,
    pub options: BucketOptions,
    pub post: Seq<Seq<char>>,
    pub pre: Seq<Seq<char>>,
}

impl Bucket {
    pub open spec fn view(&self) -> BucketModel {
        BucketModel {
            index: self.index@,
            mtime: self.mtime@,
            name: self.name@,
            options: self.options,
            post: self.post@.map_values(|s: String| s@),
            pre: self.pre@.map_values(|s: String| s@),
        }
    }
}

/// The bucket that a payload element describes. The element holds six
/// strings; `index`, `options`, `post` and `pre` are each JSON text in turn,
/// which is read before the bucket is put together: the index as any JSON
/// value, the options as bucket options, the trigger lists as arrays of
/// strings.
pub open spec fn bucket_of_json(j: Json) -> Option<BucketModel> {
    let index = spec_text_field(j, "index"@);
    let mtime = spec_text_field(j, "mtime"@);
    let name = spec_text_field(j, "name"@);
    let options = spec_text_field(j, "options"@);
    let post = spec_text_field(j, "post"@);
    let pre = spec_text_field(j, "pre"@);
    if index is Some && mtime is Some && name is Some && options is Some && post is Some
        && pre is Some {
        let index_value = parsed_json(index->0);
        let options_value = parsed_json(options->0);
        let post_value = parsed_json(post->0);
        let pre_value = parsed_json(pre->0);
        if index_value is Some && options_value is Some && post_value is Some && pre_value is Some {
            let opts = bucket_options_of_json(options_value->0);
            let post_texts = texts_of_json(post_value->0);
            let pre_texts = texts_of_json(pre_value->0);
            if opts is Some && post_texts is Some && pre_texts is Some {
                Some(
                    BucketModel {
                        index: index_value->0,
                        mtime: mtime->0,
                        name: name->0,
                        options: opts->0,
                        post: post_texts->0,
                        pre: pre_texts->0,
                    },
                )
            } else {
                None
            }
        } else {
            None
        }
    } else {
        None
    }
}

/// Reads a JSON text and then an array of strings from it.
fn texts_from_text(text: &String) -> (r: Option<Vec<String>>)
    ensures
        match r {
            Some(t) => parsed_json(text@) matches Some(j) && texts_of_json(j) == Some(
                t@.map_values(|s: String| s@),
            ),
            None => parsed_json(text@) matches Some(j) ==> texts_of_json(j) is None,
        },
{
    match parse_json(text.as_str()) {
        Some(v) => texts_from_json(&v),
        None => None,
    }
}

impl Bucket {
    /// Reads a bucket from a payload element.
    pub fn from_json(v: &JsonValue) -> (r: Option<Bucket>)
        ensures
            match r {
                Some(b) => bucket_of_json(v@) == Some(b@),
                None => bucket_of_json(v@) is None,
            },
    {
        let index = text_field(v, "index");
        let mtime = text_field(v, "mtime");
        let name = text_field(v, "name");
        let options = text_field(v, "options");
        let post = text_field(v, "post");
        let pre = text_field(v, "pre");
        match (index, mtime, name, options, post, pre) {
            (Some(index), Some(mtime), Some(name), Some(options), Some(post), Some(pre)) => {
                let index_value = match parse_json(index.as_str()) {
                    Some(x) => x,
                    None => {
                        return None;
                    },
                };
                let options_value = match parse_json(options.as_str()) {
                    Some(x) => x,
                    None => {
                        return None;
                    },
                };
                let opts = match BucketOptions::from_json(&options_value) {
                    Some(o) => o,
                    None => {
                        return None;
                    },
                };
                let post_texts = texts_from_text(&post);
                let pre_texts = texts_from_text(&pre);
                match (post_texts, pre_texts) {
                    (Some(post), Some(pre)) => Some(
                        Bucket { index: index_value, mtime, name, options: opts, post, pre },
                    ),
                    _ => None,
                }
            },
            _ => None,
        }
    }
}

/// Bucket methods.
pub enum Methods {
    List,
    Get,
    Create,
}

impl Methods {
    /// The name of the method on the wire.
    pub open spec fn name(&self) -> Seq<char> {
        match self {
            Methods::List => "listBuckets"@,
            Methods::Get => "getBucket"@,
            Methods::Create => "createBucket"@,
        }
    }

    pub fn method(&self) -> (r: String)
        ensures
            r@ == self.name(),
    {
        match self {
            Methods::List => String::from_str("listBuckets"),
            Methods::Get => String::from_str("getBucket"),
            Methods::Create => String::from_str("createBucket"),
        }
    }
}

/// The options of a bucket method.
#[derive(Clone, Debug)]
pub struct MethodOptions {
    pub req_id: String,
}

impl MethodOptions {
    /// The options' wire object.
    pub open spec fn wire(&self) -> Json {
        Json::Object(seq![("req_id"@, Json::Str(self.req_id@))])
    }

    pub fn to_wire(&self) -> (r: JsonValue)
        ensures
            r@ == self.wire(),
    {
        let mut es: Vec<(String, JsonValue)> = Vec::new();
        push_entry(&mut es, "req_id", JsonValue::String(self.req_id.clone()));
        let r = JsonValue::Object(es);
        proof {
            lemma_compound_view(r);
            assert(crate::json::entries_view(es@) =~= self.wire()->Object_0);
        }
        r
    }
}

impl Default for MethodOptions {
    /// Options with a fresh request id.
    fn default() -> (r: Self)
        ensures
            crate::objects::is_v4_uuid_text(r.req_id@),
    {
        MethodOptions { req_id: new_request_id() }
    }
}

/// Whether `handler` may accept the bucket that `m` describes.
pub open spec fn accepts_bucket<F: FnMut(&Bucket) -> Result<(), MorayError>>(
    handler: F,
    m: BucketModel,
) -> bool {
    exists|b: Bucket| b@ == m && #[trigger] call_ensures(handler, (&b,), Ok::<(), MorayError>(()))
}

/// Whether `handler` may refuse the bucket that `m` describes with `e`.
pub open spec fn refuses_bucket<F: FnMut(&Bucket) -> Result<(), MorayError>>(
    handler: F,
    m: BucketModel,
    e: MorayError,
) -> bool {
    exists|b: Bucket| b@ == m && #[trigger] call_ensures(handler, (&b,), Err::<(), MorayError>(e))
}

/// Each element before `k` describes a bucket and the handler accepted it.
pub open spec fn buckets_accepted<F: FnMut(&Bucket) -> Result<(), MorayError>>(
    handler: F,
    items: Seq<Json>,
    k: int,
) -> bool {
    forall|i: int|
        0 <= i < k ==> bucket_of_json(#[trigger] items[i]) is Some && accepts_bucket(
            handler,
            bucket_of_json(items[i])->0,
        )
}

/// What decoding a bucket payload with `handler` may lead to, given the
/// payload's elements: no elements at all is `PayloadShape`; `Ok` only where
/// every element describes a bucket and the handler accepted each; an error
/// is either `Decode` at the first element that describes no bucket, or an
/// error the handler gave for an element, every earlier one accepted.
pub open spec fn bucket_outcome<F: FnMut(&Bucket) -> Result<(), MorayError>>(
    handler: F,
    elements: Option<Seq<Json>>,
    r: Result<(), MorayError>,
) -> bool {
    &&& elements is None ==> r == Err::<(), MorayError>(MorayError::PayloadShape)
    &&& elements matches Some(items) ==> {
        &&& r is Ok ==> buckets_accepted(handler, items, items.len() as int)
        &&& (exists|i: int| 0 <= i < items.len() && bucket_of_json(#[trigger] items[i]) is None)
            ==> r is Err
        &&& r matches Err(e) ==> {
            ||| (e matches MorayError::Decode(k) && k < items.len() && bucket_of_json(
                items[k as int],
            ) is None && buckets_accepted(handler, items, k as int))
            ||| exists|k: int|
                0 <= k < items.len() && buckets_accepted(handler, items, k) && (
                bucket_of_json(#[trigger] items[k]) matches Some(m) && refuses_bucket(
                    handler,
                    m,
                    e,
                ))
        }
    }
}

/// Decodes the buckets of a payload and hands each one to `handler` in turn,
/// before it decodes the next. The first element that does not describe a
/// bucket ends the call with `Decode`; the first refusal of the handler ends
/// it with the handler's error.
pub fn decode_bucket<F>(payload: &JsonValue, handler: &mut F) -> (r: Result<(), MorayError>)
    where
        F: FnMut(&Bucket) -> Result<(), MorayError>,
    requires
        forall|b: &Bucket| call_requires(*old(handler), (b,)),
    ensures
        bucket_outcome(*old(handler), payload_items(payload@), r),
{
    proof {
        lemma_compound_view(*payload);
    }
    match payload {
        JsonValue::Object(_) => {
            let ghost items = seq![payload@];
            assert(payload_items(payload@) == Some(items));
            assert(items[0] == payload@);
            match Bucket::from_json(payload) {
                Some(b) => {
                    let res = handler(&b);
                    match res {
                        Ok(u) => {
                            assert(accepts_bucket(*old(handler), b@));
                            assert(buckets_accepted(*old(handler), items, 1));
                            Ok(u)
                        },
                        Err(e) => {
                            assert(refuses_bucket(*old(handler), b@, e));
                            assert(buckets_accepted(*old(handler), items, 0));
                            Err(e)
                        },
                    }
                },
                None => {
                    assert(buckets_accepted(*old(handler), items, 0));
                    Err(MorayError::Decode(0))
                },
            }
        },
        JsonValue::Array(elements) => {
            let ghost items = payload@->Array_0;
            let mut i: usize = 0;
            while i < elements.len()
                invariant
                    i <= elements.len(),
                    items == items_view(elements@),
                    payload@ == Json::Array(items),
                    *handler == *old(handler),
                    forall|b: &Bucket| call_requires(*handler, (b,)),
                    buckets_accepted(*old(handler), items, i as int),
                decreases elements.len() - i,
            {
                assert(items[i as int] == elements@[i as int]@);
                match Bucket::from_json(&elements[i]) {
                    Some(b) => {
                        let res = handler(&b);
                        match res {
                            Ok(u) => {
                                assert(accepts_bucket(*old(handler), b@));
                            },
                            Err(e) => {
                                assert(refuses_bucket(*old(handler), b@, e));
                                return Err(e);
                            },
                        }
                    },
                    None => {
                        return Err(MorayError::Decode(i));
                    },
                }
                i = i + 1;
            }
            Ok(())
        },
        _ => Err(MorayError::PayloadShape),
    }
}

/// Decodes the one bucket that a get answers with and hands it to
/// `handler`. An answer of no buckets or of several is `UnexpectedCount`,
/// and the handler is then not called.
pub fn decode_single_bucket<F>(payload: &JsonValue, handler: &mut F) -> (r: Result<
    (),
    MorayError,
>)
    where
        F: FnMut(&Bucket) -> Result<(), MorayError>,
    requires
        forall|b: &Bucket| call_requires(*old(handler), (b,)),
    ensures
        payload_items(payload@) is Some && payload_items(payload@)->0.len() != 1 ==> (r matches Err(
            MorayError::UnexpectedCount(n),
        ) && n == payload_items(payload@)->0.len()),
        !(payload_items(payload@) is Some && payload_items(payload@)->0.len() != 1) ==> bucket_outcome(
            *old(handler),
            payload_items(payload@),
            r,
        ),
{
    proof {
        lemma_compound_view(*payload);
    }
    match payload {
        JsonValue::Array(elements) => {
            if elements.len() != 1 {
                return Err(MorayError::UnexpectedCount(elements.len()));
            }
        },
        _ => {},
    }
    decode_bucket(payload, handler)
}

/// A bare bucket object and an array that holds only that object decode
/// alike: every outcome that one may lead to, with any handler, the other
/// may too.
pub proof fn lemma_bare_bucket_decodes_as_single_element<F: FnMut(&Bucket) -> Result<(), MorayError>>(
    handler: F,
    v: Json,
    r: Result<(), MorayError>,
)
    requires
        v is Object,
    ensures
        bucket_outcome(handler, payload_items(v), r) == bucket_outcome(
            handler,
            payload_items(Json::Array(seq![v])),
            r,
        ),
{
    lemma_bare_object_is_single_element(v);
}

/// The call that lists all buckets, with the options alone, or gets one
/// bucket, with the options and then its name. Creating a bucket is a call
/// of another shape.
pub fn get_list_request(name: &str, opts: &MethodOptions, method: Methods) -> (r: Result<
    RpcCall,
    MorayError,
>)
    ensures
        method is List ==> (r matches Ok(c) && c.method@ == "listBuckets"@ && c.args@ == Json::Array(
            seq![opts.wire()],
        )),
        method is Get ==> (r matches Ok(c) && c.method@ == "getBucket"@ && c.args@ == Json::Array(
            seq![opts.wire(), Json::Str(name@)],
        )),
        method is Create ==> r == Err::<RpcCall, MorayError>(MorayError::UnsupportedMethod),
{
    let mut args: Vec<JsonValue> = Vec::new();
    push_item(&mut args, opts.to_wire());
    match method {
        Methods::Get => {
            push_item(&mut args, JsonValue::String(String::from_str(name)));
        },
        Methods::List => {},
        Methods::Create => {
            return Err(MorayError::UnsupportedMethod);
        },
    }
    let r = RpcCall { method: method.method(), args: JsonValue::Array(args) };
    proof {
        lemma_compound_view(r.args);
        if method is Get {
            assert(items_view(args@) =~= seq![opts.wire(), Json::Str(name@)]);
        } else {
            assert(items_view(args@) =~= seq![opts.wire()]);
        }
    }
    Ok(r)
}

/// The call that creates a bucket: its name, its index configuration and the
/// options.
pub fn create_bucket_request(name: &str, config: JsonValue, opts: &MethodOptions) -> (r: RpcCall)
    ensures
        r.method@ == "createBucket"@,
        r.args@ == Json::Array(seq![Json::Str(name@), config@, opts.wire()]),
{
    let ghost config_view = config@;
    let mut args: Vec<JsonValue> = Vec::new();
    push_item(&mut args, JsonValue::String(String::from_str(name)));
    push_item(&mut args, config);
    push_item(&mut args, opts.to_wire());
    let r = RpcCall { method: Methods::Create.method(), args: JsonValue::Array(args) };
    proof {
        lemma_compound_view(r.args);
        assert(items_view(args@) =~= seq![Json::Str(name@), config_view, opts.wire()]);
    }
    r
}

} // verus!
