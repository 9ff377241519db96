use vstd::prelude::*;
use vstd::string::*;
use crate::json::{
    decimal_text, decimal_text_of, entries_view, items_view, lemma_compound_view,
    lemma_lookup_absent, lemma_lookup_first, optional_u64_field, push_entry, push_item,
    spec_optional_u64_field, spec_text_field, spec_u64_field, text_field, u64_field, Json,
    JsonValue, lemma_bare_object_is_single_element, payload_items,
};
use crate::rpc::{MorayError, RpcCall};

verus! {

/// The concurrency check of a write.
/// * Undefined: the write replaces whatever is stored
/// * Nulled: the write succeeds only where no object has the key
/// * Specified: the write succeeds only where the stored object's etag is
///   this text
#[derive(Clone, Debug, PartialEq, Eq)]
pub enum Etag {
    Undefined,
    Nulled,
    Specified(String),
}

/// The mathematical form of an [`Etag`].
pub enum EtagModel {
    Undefined,
    Nulled,
    Specified(Seq<char>),
}

impl EtagModel {
    /// The wire value of a defined etag: null, or the etag's text.
    pub open spec fn wire(self) -> Json {
        match self {
            EtagModel::Specified(s) => Json::Str(s),
            _ => Json::Null,
        }
    }
}

/// The etag that a wire value stands for: null for `Nulled`, a string for
/// `Specified`.
pub open spec fn etag_of_json(j: Json) -> Option<EtagModel> {
    match j {
        Json::Null => Some(EtagModel::Nulled),
        Json::Str(s) => Some(EtagModel::Specified(s)),
        _ => None,
    }
}

impl Etag {
    pub open spec fn view(&self) -> EtagModel {
        match self {
            Etag::Undefined => EtagModel::Undefined,
            Etag::Nulled => EtagModel::Nulled,
            Etag::Specified(s) => EtagModel::Specified(s@),
        }
    }

    pub fn is_undefined(&self) -> (r: bool)
        ensures
            r == (self is Undefined),
    {
        match self {
            Etag::Undefined => true,
            _ => false,
        }
    }

    /// The etag's text, where one is specified.
    pub fn specified_value(&self) -> (r: Option<&String>)
        ensures
            match self {
                Etag::Specified(s) => r == Some(s),
                _ => r is None,
            },
    {
        match self {
            Etag::Undefined | Etag::Nulled => None,
            Etag::Specified(s) => Some(s),
        }
    }

    /// The wire value of a defined etag. An undefined etag has none: it is
    /// left out of the options instead.
    pub fn serialize(&self) -> (r: JsonValue)
        requires
            !(self is Undefined),
        ensures
            r@ == self@.wire(),
    {
        match self {
            Etag::Specified(s) => JsonValue::String(s.clone()),
            _ => JsonValue::Null,
        }
    }

    /// The etag that a wire value stands for, where it stands for one.
    pub fn from_wire(v: &JsonValue) -> (r: Option<Etag>)
        ensures
            match r {
                Some(e) => etag_of_json(v@) == Some(e@),
                None => etag_of_json(v@) is None,
            },
    {
        match v {
            JsonValue::Null => Some(Etag::Nulled),
            JsonValue::String(s) => Some(Etag::Specified(s.clone())),
            _ => None,
        }
    }
}

pub open spec fn is_lower_hex_digit(c: char) -> bool {
    ('0' <= c && c <= '9') || ('a' <= c && c <= 'f')
}

/// The text of a random (version 4) UUID in hyphenated lower-case form:
/// 32 hex digits in groups of 8, 4, 4, 4 and 12, the version digit `4`, and
/// the variant digit one of `8`, `9`, `a`, `b`.
pub open spec fn is_v4_uuid_text(s: Seq<char>) -> bool {
    &&& s.len() == 36
    &&& forall|i: int|
        0 <= i < 36 ==> if i == 8 || i == 13 || i == 18 || i == 23 {
            #[trigger] s[i] == '-'
        } else {
            is_lower_hex_digit(s[i])
        }
    &&& s[14] == '4'
    &&& (s[19] == '8' || s[19] == '9' || s[19] == 'a' || s[19] == 'b')
}

/// Relies on uuid::Uuid::new_v4, which draws 128 random bits and sets the
/// version and variant bits, and on the uuid's `Display`, which writes the
/// hyphenated lower-case form.
#[verifier::external_body]
pub(crate) fn new_request_id() -> (r: String)
    ensures
        is_v4_uuid_text(r@),
{
    uuid::Uuid::new_v4().to_string()
}

/// The options of an object method.
#[derive(Clone, Debug)]
pub struct MethodOptions {
    pub req_id: String,
    pub etag: Etag,
    pub headers: JsonValue,
    pub no_count: bool,
    pub sql_only: bool,
    pub no_cache: bool,
    pub limit: Option<u64>,
}

/// The entries of the options' wire object, in order. An undefined etag and
/// an absent limit have no entry.
pub open spec fn options_entries(
    req_id: Seq<char>,
    etag: EtagModel,
    headers: Json,
    no_count: bool,
    sql_only: bool,
    no_cache: bool,
    limit: Option<u64>,
) -> Seq<(Seq<char>, Json)> {
    seq![("req_id"@, Json::Str(req_id))] + (if etag is Undefined {
        Seq::empty()
    } else {
        seq![("etag"@, etag.wire())]
    }) + seq![
        ("headers"@, headers),
        ("no_count"@, Json::Bool(no_count)),
        ("sql_only"@, Json::Bool(sql_only)),
        ("noCache"@, Json::Bool(no_cache)),
    ] + match limit {
        Some(n) => seq![("limit"@, Json::Number(decimal_text(n as nat)))],
        None => Seq::empty(),
    }
}

/// The keys of the options' entries other than `etag` differ from `etag`.
proof fn lemma_option_keys_not_etag()
    ensures
        "req_id"@ != "etag"@,
        "headers"@ != "etag"@,
        "no_count"@ != "etag"@,
        "sql_only"@ != "etag"@,
        "noCache"@ != "etag"@,
        "limit"@ != "etag"@,
{
    reveal_strlit("req_id");
    reveal_strlit("etag");
    reveal_strlit("headers");
    reveal_strlit("no_count");
    reveal_strlit("sql_only");
    reveal_strlit("noCache");
    reveal_strlit("limit");
    assert("req_id"@[0] != "etag"@[0]);
    assert("headers"@[0] != "etag"@[0]);
    assert("no_count"@[0] != "etag"@[0]);
    assert("sql_only"@[0] != "etag"@[0]);
    assert("noCache"@[0] != "etag"@[0]);
    assert("limit"@[0] != "etag"@[0]);
}

impl MethodOptions {
    /// The options' wire object.
    pub open spec fn wire(&self) -> Json {
        Json::Object(
            options_entries(
                self.req_id@,
                self.etag@,
                self.headers@,
                self.no_count,
                self.sql_only,
                self.no_cache,
                self.limit,
            ),
        )
    }

    pub fn set_limit(&mut self, limit: u64)
        ensures
            final(self).limit == Some(limit),
            final(self).req_id == old(self).req_id,
            final(self).etag == old(self).etag,
            final(self).headers == old(self).headers,
            final(self).no_count == old(self).no_count,
            final(self).sql_only == old(self).sql_only,
            final(self).no_cache == old(self).no_cache,
    {
        self.limit = Some(limit);
    }

    pub fn unset_limit(&mut self)
        ensures
            final(self).limit is None,
            final(self).req_id == old(self).req_id,
            final(self).etag == old(self).etag,
            final(self).headers == old(self).headers,
            final(self).no_count == old(self).no_count,
            final(self).sql_only == old(self).sql_only,
            final(self).no_cache == old(self).no_cache,
    {
        self.limit = None;
    }

    /// The options' wire object. An undefined etag is left out, never sent.
    pub fn to_wire(&self) -> (r: JsonValue)
        ensures
            r@ == self.wire(),
            self.etag is Undefined ==> r@.get("etag"@) is None,
            self.etag is Nulled ==> r@.get("etag"@) == Some(Json::Null),
            self.etag matches Etag::Specified(s) ==> r@.get("etag"@) == Some(Json::Str(s@)),
    {
        let mut es: Vec<(String, JsonValue)> = Vec::new();
        push_entry(&mut es, "req_id", JsonValue::String(self.req_id.clone()));
        if !self.etag.is_undefined() {
            push_entry(&mut es, "etag", self.etag.serialize());
        }
        push_entry(&mut es, "headers", self.headers.deep_clone());
        push_entry(&mut es, "no_count", JsonValue::Bool(self.no_count));
        push_entry(&mut es, "sql_only", JsonValue::Bool(self.sql_only));
        push_entry(&mut es, "noCache", JsonValue::Bool(self.no_cache));
        match self.limit {
            Some(n) => {
                push_entry(&mut es, "limit", JsonValue::Number(decimal_text_of(n)));
            },
            None => {},
        }
        let r = JsonValue::Object(es);
        proof {
            lemma_compound_view(r);
            assert(entries_view(es@) =~= options_entries(
                self.req_id@,
                self.etag@,
                self.headers@,
                self.no_count,
                self.sql_only,
                self.no_cache,
                self.limit,
            ));
        }
        proof {
            lemma_etag_entry(*self);
        }
        r
    }
}

/// Where the etag in the options is undefined, their wire object has no
/// `etag` entry; where it is nulled, the entry is null; where it is
/// specified, the entry is the etag's text, which reads back as the same
/// specified etag.
pub proof fn lemma_etag_entry(o: MethodOptions)
    ensures
        o.etag is Undefined ==> o.wire().get("etag"@) is None,
        o.etag is Nulled ==> o.wire().get("etag"@) == Some(Json::Null),
        o.etag matches Etag::Specified(s) ==> {
            &&& o.wire().get("etag"@) == Some(Json::Str(s@))
            &&& etag_of_json(Json::Str(s@)) == Some(o.etag@)
        },
{
    let es = options_entries(
        o.req_id@,
        o.etag@,
        o.headers@,
        o.no_count,
        o.sql_only,
        o.no_cache,
        o.limit,
    );
    lemma_option_keys_not_etag();
    if o.etag is Undefined {
        assert forall|i: int| 0 <= i < es.len() implies (#[trigger] es[i]).0 != "etag"@ by {
            if i >= 5 {
                assert(es[i].0 == "limit"@);
            }
        }
        lemma_lookup_absent(es, "etag"@);
    } else {
        assert(es[1].0 == "etag"@);
        assert(es[0].0 != "etag"@);
        lemma_lookup_first(es, "etag"@, 1);
    }
}

/// Object methods.
pub enum Methods {
    Get,
    Find,
    Put,
}

impl Methods {
    /// The name of the method on the wire.
    pub open spec fn name(&self) -> Seq<char> {
        match self {
            Methods::Get => "getObject"@,
            Methods::Find => "findObjects"@,
            Methods::Put => "putObject"@,
        }
    }

    pub fn method(&self) -> (r: String)
        ensures
            r@ == self.name(),
    {
        match self {
            Methods::Get => String::from_str("getObject"),
            Methods::Find => String::from_str("findObjects"),
            Methods::Put => String::from_str("putObject"),
        }
    }
}

impl Default for MethodOptions {
    /// Options with a fresh request id, no etag, no headers, caching off and
    /// no limit.
    fn default() -> (r: Self)
        ensures
            is_v4_uuid_text(r.req_id@),
            r.etag is Undefined,
            r.headers@ == Json::Object(Seq::empty()),
            !r.no_count,
            !r.sql_only,
            r.no_cache,
            r.limit is None,
    {
        let headers = JsonValue::Object(Vec::new());
        proof {
            lemma_compound_view(headers);
            assert(entries_view(Seq::<(String, JsonValue)>::empty()) =~= Seq::empty());
        }
        MethodOptions {
            req_id: new_request_id(),
            etag: Etag::Undefined,
            headers,
            no_count: false,
            sql_only: false,
            no_cache: true,
            limit: None,
        }
    }
}

/// An object as the service stores it: its bucket, key and value, and the
/// metadata the service assigns.
#[derive(Clone, Debug, PartialEq)]
pub struct MorayObject {
    pub bucket: String,
    pub _count: u64,
    pub _etag: String,
    pub _id: u64,
    pub _mtime: u64,
    pub _txn_snap: Option<u64>,
    pub key: String,
    pub value: JsonValue,
}

/// The mathematical form of a [`MorayObject`].
pub struct MorayObjectModel {
    pub bucket: Seq<char>,
    pub count: u64,
    pub etag: Seq<char>,
    pub id: u64,
    pub mtime: u64,
    pub txn_snap: Option<u64>,
    pub key: Seq<char>,
    pub value: Json,
}

impl MorayObject {
    pub open spec fn view(&self) -> MorayObjectModel {
        MorayObjectModel {
            bucket: self.bucket@,
            count: self._count,
            etag: self._etag@,
            id: self._id,
            mtime: self._mtime,
            txn_snap: self._txn_snap,
            key: self.key@,
            value: self.value@,
        }
    }
}

/// The object that a payload element describes: an object with the texts
/// `bucket`, `_etag` and `key`, the numbers `_id` and `_mtime`, and a
/// `value`. `_count` and `_txn_snap` may be absent or null; an absent count
/// is zero. Other entries are ignored.
pub open spec fn object_of_json(j: Json) -> Option<MorayObjectModel> {
    let bucket = spec_text_field(j, "bucket"@);
    let count = spec_optional_u64_field(j, "_count"@);
    let etag = spec_text_field(j, "_etag"@);
    let id = spec_u64_field(j, "_id"@);
    let mtime = spec_u64_field(j, "_mtime"@);
    let txn_snap = spec_optional_u64_field(j, "_txn_snap"@);
    let key = spec_text_field(j, "key"@);
    let value = j.get("value"@);
    if bucket is Some && count is Some && etag is Some && id is Some && mtime is Some
        && txn_snap is Some && key is Some && value is Some {
        Some(
            MorayObjectModel {
                bucket: bucket->0,
                count: match count->0 {
                    Some(n) => n,
                    None => 0,
                },
                etag: etag->0,
                id: id->0,
                mtime: mtime->0,
                txn_snap: txn_snap->0,
                key: key->0,
                value: value->0,
            },
        )
    } else {
        None
    }
}

impl MorayObject {
    /// Reads an object from a payload element.
    pub fn from_json(v: &JsonValue) -> (r: Option<MorayObject>)
        ensures
            match r {
                Some(o) => object_of_json(v@) == Some(o@),
                None => object_of_json(v@) is None,
            },
    {
        let bucket = text_field(v, "bucket");
        let count = optional_u64_field(v, "_count");
        let etag = text_field(v, "_etag");
        let id = u64_field(v, "_id");
        let mtime = u64_field(v, "_mtime");
        let txn_snap = optional_u64_field(v, "_txn_snap");
        let key = text_field(v, "key");
        let value = v.get("value");
        match (bucket, count, etag, id, mtime, txn_snap, key, value) {
            (Some(bucket), Some(count), Some(etag), Some(id), Some(mtime), Some(txn_snap), Some(key), Some(value)) => {
                Some(
                    MorayObject {
                        bucket,
                        _count: match count {
                            Some(n) => n,
                            None => 0,
                        },
                        _etag: etag,
                        _id: id,
                        _mtime: mtime,
                        _txn_snap: txn_snap,
                        key,
                        value: value.deep_clone(),
                    },
                )
            },
            _ => None,
        }
    }
}

/// Whether `handler` may accept the object that `m` describes.
pub open spec fn accepts_object<F: FnMut(&MorayObject) -> Result<(), MorayError>>(
    handler: F,
    m: MorayObjectModel,
) -> bool {
    exists|o: MorayObject| o@ == m && #[trigger] call_ensures(handler, (&o,), Ok::<(), MorayError>(()))
}

/// Whether `handler` may refuse the object that `m` describes with `e`.
pub open spec fn refuses_object<F: FnMut(&MorayObject) -> Result<(), MorayError>>(
    handler: F,
    m: MorayObjectModel,
    e: MorayError,
) -> bool {
    exists|o: MorayObject| o@ == m && #[trigger] call_ensures(handler, (&o,), Err::<(), MorayError>(e))
}

/// What the elements of an object payload lead to: each element before
/// `k` describes an object and the handler accepted it.
pub open spec fn objects_accepted<F: FnMut(&MorayObject) -> Result<(), MorayError>>(
    handler: F,
    items: Seq<Json>,
    k: int,
) -> bool {
    forall|i: int|
        0 <= i < k ==> object_of_json(#[trigger] items[i]) is Some && accepts_object(
            handler,
            object_of_json(items[i])->0,
        )
}

/// What decoding an object payload with `handler` may lead to, given the
/// payload's elements: no elements at all is `PayloadShape`; `Ok` only where
/// every element describes an object and the handler accepted each; an error
/// is either `Decode` at the first element that describes no object, or an
/// error the handler gave for an element, every earlier one accepted.
pub open spec fn object_outcome<F: FnMut(&MorayObject) -> Result<(), MorayError>>(
    handler: F,
    elements: Option<Seq<Json>>,
    r: Result<(), MorayError>,
) -> bool {
    &&& elements is None ==> r == Err::<(), MorayError>(MorayError::PayloadShape)
    &&& elements matches Some(items) ==> {
        &&& r is Ok ==> objects_accepted(handler, items, items.len() as int)
        &&& (exists|i: int| 0 <= i < items.len() && object_of_json(#[trigger] items[i]) is None)
            ==> r is Err
        &&& r matches Err(e) ==> {
            ||| (e matches MorayError::Decode(k) && k < items.len() && object_of_json(
                items[k as int],
            ) is None && objects_accepted(handler, items, k as int))
            ||| exists|k: int|
                0 <= k < items.len() && objects_accepted(handler, items, k) && (
                object_of_json(#[trigger] items[k]) matches Some(m) && refuses_object(
                    handler,
                    m,
                    e,
                ))
        }
    }
}

/// Decodes the objects of a payload and hands each one to `handler` in turn,
/// before it decodes the next. The first element that does not describe an
/// object ends the call with `Decode`; the first refusal of the handler ends
/// it with the handler's error.
pub fn decode_object<F>(payload: &JsonValue, handler: &mut F) -> (r: Result<(), MorayError>)
    where
        F: FnMut(&MorayObject) -> Result<(), MorayError>,
    requires
        forall|o: &MorayObject| call_requires(*old(handler), (o,)),
    ensures
        object_outcome(*old(handler), payload_items(payload@), r),
{
    proof {
        lemma_compound_view(*payload);
    }
    match payload {
        JsonValue::Object(_) => {
            let ghost items = seq![payload@];
            assert(payload_items(payload@) == Some(items));
            assert(items[0] == payload@);
            match MorayObject::from_json(payload) {
                Some(o) => {
                    let res = handler(&o);
                    match res {
                        Ok(u) => {
                            assert(accepts_object(*old(handler), o@));
                            assert(objects_accepted(*old(handler), items, 1));
                            Ok(u)
                        },
                        Err(e) => {
                            assert(refuses_object(*old(handler), o@, e));
                            assert(objects_accepted(*old(handler), items, 0));
                            Err(e)
                        },
                    }
                },
                None => {
                    assert(objects_accepted(*old(handler), items, 0));
                    Err(MorayError::Decode(0))
                },
            }
        },
        JsonValue::Array(elements) => {
            let ghost items = payload@->Array_0;
            let mut i: usize = 0;
            while i < elements.len()
                invariant
                    i <= elements.len(),
                    items == items_view(elements@),
                    payload@ == Json::Array(items),
                    *handler == *old(handler),
                    forall|o: &MorayObject| call_requires(*handler, (o,)),
                    objects_accepted(*old(handler), items, i as int),
                decreases elements.len() - i,
            {
                assert(items[i as int] == elements@[i as int]@);
                match MorayObject::from_json(&elements[i]) {
                    Some(o) => {
                        let res = handler(&o);
                        match res {
                            Ok(u) => {
                                assert(accepts_object(*old(handler), o@));
                            },
                            Err(e) => {
                                assert(refuses_object(*old(handler), o@, e));
                                return Err(e);
                            },
                        }
                    },
                    None => {
                        return Err(MorayError::Decode(i));
                    },
                }
                i = i + 1;
            }
            Ok(())
        },
        _ => Err(MorayError::PayloadShape),
    }
}

/// Decodes the one object that a get answers with and hands it to
/// `handler`. An answer of no objects or of several is `UnexpectedCount`,
/// and the handler is then not called.
pub fn decode_single_object<F>(payload: &JsonValue, handler: &mut F) -> (r: Result<
    (),
    MorayError,
>)
    where
        F: FnMut(&MorayObject) -> Result<(), MorayError>,
    requires
        forall|o: &MorayObject| call_requires(*old(handler), (o,)),
    ensures
        payload_items(payload@) is Some && payload_items(payload@)->0.len() != 1 ==> (r matches Err(
            MorayError::UnexpectedCount(n),
        ) && n == payload_items(payload@)->0.len()),
        !(payload_items(payload@) is Some && payload_items(payload@)->0.len() != 1) ==> object_outcome(
            *old(handler),
            payload_items(payload@),
            r,
        ),
{
    proof {
        lemma_compound_view(*payload);
    }
    match payload {
        JsonValue::Array(elements) => {
            if elements.len() != 1 {
                return Err(MorayError::UnexpectedCount(elements.len()));
            }
        },
        _ => {},
    }
    decode_object(payload, handler)
}

/// A bare object and an array that holds only that object decode alike:
/// every outcome that one may lead to, with any handler, the other may too.
pub proof fn lemma_bare_object_decodes_as_single_element<F: FnMut(&MorayObject) -> Result<(), MorayError>>(
    handler: F,
    v: Json,
    r: Result<(), MorayError>,
)
    requires
        v is Object,
    ensures
        object_outcome(handler, payload_items(v), r) == object_outcome(
            handler,
            payload_items(Json::Array(seq![v])),
            r,
        ),
{
    lemma_bare_object_is_single_element(v);
}

/// The arguments of a get or a find: the bucket, the key or filter, and the
/// options.
pub fn get_find_request(bucket: &str, key_filter: &str, opts: &MethodOptions, method: Methods) -> (r:
    RpcCall)
    ensures
        r.method@ == method.name(),
        r.args@ == Json::Array(seq![Json::Str(bucket@), Json::Str(key_filter@), opts.wire()]),
{
    let mut args: Vec<JsonValue> = Vec::new();
    push_item(&mut args, JsonValue::String(String::from_str(bucket)));
    push_item(&mut args, JsonValue::String(String::from_str(key_filter)));
    push_item(&mut args, opts.to_wire());
    let r = RpcCall { method: method.method(), args: JsonValue::Array(args) };
    proof {
        lemma_compound_view(r.args);
        assert(items_view(args@) =~= seq![Json::Str(bucket@), Json::Str(key_filter@), opts.wire()]);
    }
    r
}

/// The arguments of a put: the bucket, the key, the value and the options.
pub fn put_request(bucket: &str, key: &str, value: JsonValue, opts: &MethodOptions) -> (r: RpcCall)
    ensures
        r.method@ == Methods::Put.name(),
        r.args@ == Json::Array(
            seq![Json::Str(bucket@), Json::Str(key@), value@, opts.wire()],
        ),
{
    let ghost value_view = value@;
    let mut args: Vec<JsonValue> = Vec::new();
    push_item(&mut args, JsonValue::String(String::from_str(bucket)));
    push_item(&mut args, JsonValue::String(String::from_str(key)));
    push_item(&mut args, value);
    push_item(&mut args, opts.to_wire());
    let r = RpcCall { method: Methods::Put.method(), args: JsonValue::Array(args) };
    proof {
        lemma_compound_view(r.args);
        assert(items_view(args@) =~= seq![
            Json::Str(bucket@),
            Json::Str(key@),
            value_view,
            opts.wire(),
        ]);
    }
    r
}

/// One element of a put's answer: the etag the stored object now has.
#[derive(Debug)]
pub struct PutObjectReturn {
    etag: String,
}

/// The etag that an element of a put's answer holds: an object with the
/// text `etag`.
pub open spec fn put_return_of_json(j: Json) -> Option<Seq<char>> {
    spec_text_field(j, "etag"@)
}

impl PutObjectReturn {
    pub closed spec fn view(&self) -> Seq<char> {
        self.etag@
    }

    pub fn from_json(v: &JsonValue) -> (r: Option<PutObjectReturn>)
        ensures
            match r {
                Some(p) => put_return_of_json(v@) == Some(p@),
                None => put_return_of_json(v@) is None,
            },
    {
        match text_field(v, "etag") {
            Some(etag) => Some(PutObjectReturn { etag }),
            None => None,
        }
    }

    pub fn etag(&self) -> (r: &String)
        ensures
            r@ == self@,
    {
        &self.etag
    }
}

/// The etag that a put's answer reports. The answer must be an array of
/// elements that each hold an etag, and exactly one of them: another count
/// is `UnexpectedCount`, never a pick among them.
pub fn put_object_etag(payload: &JsonValue) -> (r: Result<String, MorayError>)
    ensures
        !(payload@ is Array) ==> r == Err::<String, MorayError>(MorayError::PayloadShape),
        payload@ matches Json::Array(items) ==> {
            let all_decode = forall|i: int|
                0 <= i < items.len() ==> put_return_of_json(#[trigger] items[i]) is Some;
            &&& !all_decode ==> (r matches Err(MorayError::Decode(k)) && k < items.len()
                && put_return_of_json(items[k as int]) is None && forall|i: int|
                0 <= i < k ==> put_return_of_json(#[trigger] items[i]) is Some)
            &&& all_decode && items.len() != 1 ==> (r matches Err(MorayError::UnexpectedCount(n))
                && n == items.len())
            &&& all_decode && items.len() == 1 ==> (r matches Ok(e) && put_return_of_json(items[0])
                == Some(e@))
        },
{
    proof {
        lemma_compound_view(*payload);
    }
    match payload {
        JsonValue::Array(elements) => {
            let ghost items = payload@->Array_0;
            let mut answers: Vec<PutObjectReturn> = Vec::new();
            let mut i: usize = 0;
            while i < elements.len()
                invariant
                    i <= elements.len(),
                    items == items_view(elements@),
                    payload@ == Json::Array(items),
                    answers.len() == i,
                    forall|j: int|
                        0 <= j < i ==> put_return_of_json(#[trigger] items[j]) == Some(
                            answers@[j]@,
                        ),
                decreases elements.len() - i,
            {
                assert(items[i as int] == elements@[i as int]@);
                match PutObjectReturn::from_json(&elements[i]) {
                    Some(p) => {
                        answers.push(p);
                    },
                    None => {
                        return Err(MorayError::Decode(i));
                    },
                }
                i = i + 1;
            }
            if answers.len() != 1 {
                return Err(MorayError::UnexpectedCount(answers.len()));
            }
            let first = answers.remove(0);
            Ok(first.etag)
        },
        _ => Err(MorayError::PayloadShape),
    }
}

/// A put within a batch.
#[derive(Clone, Debug)]
pub struct BatchPutOp {
    pub bucket: String,
    pub options: MethodOptions,
    pub key: String,
    pub value: JsonValue,
}

/// An update within a batch. Not sent by this client.
#[derive(Clone, Debug)]
pub struct BatchUpdateOp {
    pub bucket: String,
    pub options: MethodOptions,
    pub key: String,
    pub fields: JsonValue,
    pub filter: String,
}

/// A delete within a batch. Not sent by this client.
#[derive(Clone, Debug)]
pub struct BatchDeleteOp {
    pub bucket: String,
    pub options: MethodOptions,
    pub key: String,
}

/// A delete of every object a filter selects, within a batch. Not sent by
/// this client.
#[derive(Clone, Debug)]
pub struct BatchDeleteManyOp {
    pub bucket: String,
    pub options: MethodOptions,
    pub filter: String,
}

/// One operation of a batch.
#[derive(Debug)]
pub enum BatchRequest {
    Put(BatchPutOp),
    Update(BatchUpdateOp),
    Delete(BatchDeleteOp),
    DeleteMany(BatchDeleteManyOp),
}

impl BatchRequest {
    /// The operation's wire object: `operation` names its kind, the kind's
    /// own fields follow in order.
    pub open spec fn wire(&self) -> Json {
        match self {
            BatchRequest::Put(op) => Json::Object(
                seq![
                    ("operation"@, Json::Str("put"@)),
                    ("bucket"@, Json::Str(op.bucket@)),
                    ("options"@, op.options.wire()),
                    ("key"@, Json::Str(op.key@)),
                    ("value"@, op.value@),
                ],
            ),
            BatchRequest::Update(op) => Json::Object(
                seq![
                    ("operation"@, Json::Str("update"@)),
                    ("bucket"@, Json::Str(op.bucket@)),
                    ("options"@, op.options.wire()),
                    ("key"@, Json::Str(op.key@)),
                    ("fields"@, op.fields@),
                    ("filter"@, Json::Str(op.filter@)),
                ],
            ),
            BatchRequest::Delete(op) => Json::Object(
                seq![
                    ("operation"@, Json::Str("delete"@)),
                    ("bucket"@, Json::Str(op.bucket@)),
                    ("options"@, op.options.wire()),
                    ("key"@, Json::Str(op.key@)),
                ],
            ),
            BatchRequest::DeleteMany(op) => Json::Object(
                seq![
                    ("operation"@, Json::Str("deleteMany"@)),
                    ("bucket"@, Json::Str(op.bucket@)),
                    ("options"@, op.options.wire()),
                    ("filter"@, Json::Str(op.filter@)),
                ],
            ),
        }
    }

    pub fn to_wire(&self) -> (r: JsonValue)
        ensures
            r@ == self.wire(),
    {
        let mut es: Vec<(String, JsonValue)> = Vec::new();
        match self {
            BatchRequest::Put(op) => {
                push_entry(&mut es, "operation", JsonValue::String(String::from_str("put")));
                push_entry(&mut es, "bucket", JsonValue::String(op.bucket.clone()));
                push_entry(&mut es, "options", op.options.to_wire());
                push_entry(&mut es, "key", JsonValue::String(op.key.clone()));
                push_entry(&mut es, "value", op.value.deep_clone());
            },
            BatchRequest::Update(op) => {
                push_entry(&mut es, "operation", JsonValue::String(String::from_str("update")));
                push_entry(&mut es, "bucket", JsonValue::String(op.bucket.clone()));
                push_entry(&mut es, "options", op.options.to_wire());
                push_entry(&mut es, "key", JsonValue::String(op.key.clone()));
                push_entry(&mut es, "fields", op.fields.deep_clone());
                push_entry(&mut es, "filter", JsonValue::String(op.filter.clone()));
            },
            BatchRequest::Delete(op) => {
                push_entry(&mut es, "operation", JsonValue::String(String::from_str("delete")));
                push_entry(&mut es, "bucket", JsonValue::String(op.bucket.clone()));
                push_entry(&mut es, "options", op.options.to_wire());
                push_entry(&mut es, "key", JsonValue::String(op.key.clone()));
            },
            BatchRequest::DeleteMany(op) => {
                push_entry(
                    &mut es,
                    "operation",
                    JsonValue::String(String::from_str("deleteMany")),
                );
                push_entry(&mut es, "bucket", JsonValue::String(op.bucket.clone()));
                push_entry(&mut es, "options", op.options.to_wire());
                push_entry(&mut es, "filter", JsonValue::String(op.filter.clone()));
            },
        }
        let r = JsonValue::Object(es);
        proof {
            lemma_compound_view(r);
            assert(entries_view(es@) =~= self.wire()->Object_0);
        }
        r
    }
}

/// The wire objects of a sequence of batch operations.
pub open spec fn batch_wire(requests: Seq<BatchRequest>) -> Seq<Json> {
    Seq::new(requests.len(), |i: int| requests[i].wire())
}

/// The call that submits a batch: the operations' wire objects in order,
/// then the options. This client sends puts only: a batch that holds any
/// other kind fails here, before anything is sent, naming the first such
/// operation.
pub fn batch_request(requests: &[BatchRequest], opts: &MethodOptions) -> (r: Result<
    RpcCall,
    MorayError,
>)
    ensures
        (exists|i: int| 0 <= i < requests@.len() && !(#[trigger] requests@[i] is Put)) ==> (r matches Err(
            MorayError::UnsupportedOperation(k),
        ) && k < requests@.len() && !(requests@[k as int] is Put) && forall|i: int|
            0 <= i < k ==> #[trigger] requests@[i] is Put),
        (forall|i: int| 0 <= i < requests@.len() ==> #[trigger] requests@[i] is Put) ==> (r matches Ok(
            c,
        ) && c.method@ == "batch"@ && c.args@ == Json::Array(
            seq![Json::Array(batch_wire(requests@)), opts.wire()],
        )),
{
    let mut i: usize = 0;
    while i < requests.len()
        invariant
            i <= requests@.len(),
            forall|j: int| 0 <= j < i ==> #[trigger] requests@[j] is Put,
        decreases requests@.len() - i,
    {
        match &requests[i] {
            BatchRequest::Put(_) => {},
            _ => {
                return Err(MorayError::UnsupportedOperation(i));
            },
        }
        i = i + 1;
    }
    let mut ops: Vec<JsonValue> = Vec::new();
    let mut i: usize = 0;
    while i < requests.len()
        invariant
            i <= requests@.len(),
            items_view(ops@) == batch_wire(requests@).subrange(0, i as int),
        decreases requests@.len() - i,
    {
        push_item(&mut ops, requests[i].to_wire());
        assert(batch_wire(requests@).subrange(0, i + 1) =~= batch_wire(requests@).subrange(
            0,
            i as int,
        ).push(requests@[i as int].wire()));
        i = i + 1;
    }
    let ops = JsonValue::Array(ops);
    let mut args: Vec<JsonValue> = Vec::new();
    push_item(&mut args, ops);
    push_item(&mut args, opts.to_wire());
    let r = RpcCall { method: String::from_str("batch"), args: JsonValue::Array(args) };
    proof {
        lemma_compound_view(ops);
        lemma_compound_view(r.args);
        assert(batch_wire(requests@).subrange(0, requests@.len() as int) =~= batch_wire(requests@));
        assert(items_view(args@) =~= seq![Json::Array(batch_wire(requests@)), opts.wire()]);
    }
    Ok(r)
}

/// The results of a batch that the service applied: one value per
/// operation, as the service sent them, in the service's order.
pub fn batch_results(payload: &JsonValue) -> (r: Result<Vec<JsonValue>, MorayError>)
    ensures
        payload@ matches Json::Array(items) ==> (r matches Ok(v) && items_view(v@) == items),
        !(payload@ is Array) ==> r == Err::<Vec<JsonValue>, MorayError>(MorayError::PayloadShape),
{
    proof {
        lemma_compound_view(*payload);
    }
    match payload {
        JsonValue::Array(elements) => {
            let mut out: Vec<JsonValue> = Vec::new();
            let mut i: usize = 0;
            while i < elements.len()
                invariant
                    i <= elements.len(),
                    items_view(out@) == items_view(elements@).subrange(0, i as int),
                decreases elements.len() - i,
            {
                push_item(&mut out, elements[i].deep_clone());
                assert(items_view(elements@).subrange(0, i + 1) =~= items_view(elements@).subrange(
                    0,
                    i as int,
                ).push(elements@[i as int]@));
                i = i + 1;
            }
            assert(items_view(elements@).subrange(0, elements.len() as int) =~= items_view(
                elements@,
            ));
            Ok(out)
        },
        _ => Err(MorayError::PayloadShape),
    }
}

} // verus!
