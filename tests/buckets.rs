use moray::buckets::{
    create_bucket_request, decode_bucket, decode_single_bucket, get_list_request, Bucket,
    BucketOptions, MethodOptions, Methods,
};
use moray::json::JsonValue;
use moray::meta::sql_request;
use moray::rpc::MorayError;

fn text(s: &str) -> JsonValue {
    JsonValue::String(String::from(s))
}

fn object(entries: Vec<(&str, JsonValue)>) -> JsonValue {
    JsonValue::Object(entries.into_iter().map(|(k, v)| (String::from(k), v)).collect())
}

fn bucket_element(name: &str, options: &str) -> JsonValue {
    object(vec![
        ("index", text("{\"email\":{\"type\":\"string\",\"unique\":true}}")),
        ("mtime", text("2020-01-01T00:00:00.000Z")),
        ("name", text(name)),
        ("options", text(options)),
        ("post", text("[\"after\"]")),
        ("pre", text("[\"first\",\"second\"]")),
    ])
}

#[test]
fn bucket_fields_are_read_from_their_json_text() {
    let b = Bucket::from_json(&bucket_element("users", "{\"version\":2,\"guaranteeOrder\":true}"))
        .expect("decodes");
    assert_eq!(b.name, "users");
    assert_eq!(b.mtime, "2020-01-01T00:00:00.000Z");
    assert_eq!(
        b.options,
        BucketOptions { version: 2, guarantee_order: true, sync_updates: false }
    );
    assert_eq!(b.post, vec![String::from("after")]);
    assert_eq!(b.pre, vec![String::from("first"), String::from("second")]);
    let email = b.index.get("email").expect("index entry");
    assert_eq!(email.get("type"), Some(&text("string")));
    assert_eq!(email.get("unique"), Some(&JsonValue::Bool(true)));
}

#[test]
fn bucket_options_names_and_defaults() {
    let plain = object(vec![("sync_updates", JsonValue::Bool(true))]);
    assert_eq!(
        BucketOptions::from_json(&plain),
        Some(BucketOptions { version: 0, guarantee_order: false, sync_updates: true })
    );
    let both = object(vec![
        ("guarantee_order", JsonValue::Bool(true)),
        ("guaranteeOrder", JsonValue::Bool(true)),
    ]);
    assert_eq!(BucketOptions::from_json(&both), None);
    let too_big = object(vec![("version", JsonValue::Number(String::from("4294967296")))]);
    assert_eq!(BucketOptions::from_json(&too_big), None);
    assert_eq!(BucketOptions::from_json(&JsonValue::Null), None);
}

#[test]
fn bucket_with_bad_json_text_is_refused() {
    assert!(Bucket::from_json(&bucket_element("users", "{not json")).is_none());
    assert!(Bucket::from_json(&bucket_element("users", "[1, 2]")).is_none());
    let mut element = bucket_element("users", "{}");
    if let JsonValue::Object(entries) = &mut element {
        entries.retain(|(k, _)| k != "pre");
    }
    assert!(Bucket::from_json(&element).is_none());
}

#[test]
fn buckets_decode_one_by_one() {
    let payload = JsonValue::Array(vec![
        bucket_element("a", "{}"),
        bucket_element("b", "{}"),
        bucket_element("c", "{bad"),
    ]);
    let mut names: Vec<String> = Vec::new();
    let mut handler = |b: &Bucket| {
        names.push(b.name.clone());
        Ok(())
    };
    let r = decode_bucket(&payload, &mut handler);
    assert_eq!(r, Err(MorayError::Decode(2)));
    assert_eq!(names, vec![String::from("a"), String::from("b")]);

    let mut count = 0;
    let mut handler = |_: &Bucket| {
        count += 1;
        Ok(())
    };
    assert_eq!(decode_bucket(&bucket_element("solo", "{}"), &mut handler), Ok(()));
    assert_eq!(count, 1);
    let mut handler = |_: &Bucket| Ok(());
    assert_eq!(decode_bucket(&JsonValue::Bool(false), &mut handler), Err(MorayError::PayloadShape));
}

#[test]
fn bucket_method_arguments() {
    let opts = MethodOptions { req_id: String::from("rid") };
    let wire = object(vec![("req_id", text("rid"))]);
    assert_eq!(opts.to_wire(), wire);
    assert_eq!(MethodOptions::default().req_id.len(), 36);

    let list = get_list_request("ignored", &opts, Methods::List).expect("list");
    assert_eq!(list.method, "listBuckets");
    assert_eq!(list.args, JsonValue::Array(vec![object(vec![("req_id", text("rid"))])]));

    let get = get_list_request("users", &opts, Methods::Get).expect("get");
    assert_eq!(get.method, "getBucket");
    assert_eq!(
        get.args,
        JsonValue::Array(vec![object(vec![("req_id", text("rid"))]), text("users")])
    );

    assert_eq!(
        get_list_request("users", &opts, Methods::Create).unwrap_err(),
        MorayError::UnsupportedMethod
    );

    let create = create_bucket_request("users", object(vec![("index", JsonValue::Null)]), &opts);
    assert_eq!(create.method, "createBucket");
    assert_eq!(
        create.args,
        JsonValue::Array(vec![
            text("users"),
            object(vec![("index", JsonValue::Null)]),
            object(vec![("req_id", text("rid"))]),
        ])
    );
}

#[test]
fn sql_options_given_as_text_are_parsed() {
    let call = sql_request("select 1", &["a", "b"], text("{\"timeout\": 5}")).expect("json");
    assert_eq!(call.method, "sql");
    assert_eq!(
        call.args,
        JsonValue::Array(vec![
            text("select 1"),
            JsonValue::Array(vec![text("a"), text("b")]),
            object(vec![("timeout", JsonValue::Number(String::from("5")))]),
        ])
    );
    let call = sql_request("select 1", &[], object(vec![])).expect("object");
    assert_eq!(
        call.args,
        JsonValue::Array(vec![text("select 1"), JsonValue::Array(vec![]), object(vec![])])
    );
    assert_eq!(
        sql_request("select 1", &[], text("{oops")).unwrap_err(),
        MorayError::InvalidOptions
    );
}

#[test]
fn get_bucket_answered_with_zero_or_many_is_refused() {
    let mut calls = 0;
    let mut handler = |_: &Bucket| {
        calls += 1;
        Ok(())
    };
    let two = JsonValue::Array(vec![bucket_element("a", "{}"), bucket_element("b", "{}")]);
    assert_eq!(decode_single_bucket(&two, &mut handler), Err(MorayError::UnexpectedCount(2)));
    assert_eq!(
        decode_single_bucket(&JsonValue::Array(vec![]), &mut handler),
        Err(MorayError::UnexpectedCount(0))
    );
    assert_eq!(decode_single_bucket(&bucket_element("a", "{}"), &mut handler), Ok(()));
    let one = JsonValue::Array(vec![bucket_element("b", "{}")]);
    assert_eq!(decode_single_bucket(&one, &mut handler), Ok(()));
    assert_eq!(calls, 2);
}
