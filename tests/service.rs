use moray::json::JsonValue;
use moray::objects::{
    batch_request, batch_results, decode_object, get_find_request, put_object_etag, put_request,
    BatchPutOp, BatchRequest, Etag, MethodOptions, Methods, MorayObject,
};
use moray::rpc::{MorayError, RpcCall};

fn text(s: &str) -> JsonValue {
    JsonValue::String(String::from(s))
}

fn object(entries: Vec<(&str, JsonValue)>) -> JsonValue {
    JsonValue::Object(entries.into_iter().map(|(k, v)| (String::from(k), v)).collect())
}

fn as_text(v: &JsonValue) -> String {
    match v {
        JsonValue::String(s) => s.clone(),
        other => panic!("not a string: {:?}", other),
    }
}

fn as_items(v: &JsonValue) -> &Vec<JsonValue> {
    match v {
        JsonValue::Array(items) => items,
        other => panic!("not an array: {:?}", other),
    }
}

struct Stored {
    bucket: String,
    key: String,
    value: JsonValue,
    etag: String,
}

/// An in-memory stand-in for the service: it reads the calls as they would
/// go on the wire and answers with the payloads the service would send, one
/// per message.
struct FakeService {
    objects: Vec<Stored>,
    next_etag: u64,
    calls: usize,
}

impl FakeService {
    fn new() -> FakeService {
        FakeService { objects: Vec::new(), next_etag: 1, calls: 0 }
    }

    fn find(&self, bucket: &str, key: &str) -> Option<usize> {
        self.objects.iter().position(|o| o.bucket == bucket && o.key == key)
    }

    fn check_etag(&self, bucket: &str, key: &str, opts: &JsonValue) -> Result<(), MorayError> {
        let current = self.find(bucket, key).map(|i| self.objects[i].etag.clone());
        let ok = match (opts.get("etag"), current) {
            (None, _) => true,
            (Some(JsonValue::Null), current) => current.is_none(),
            (Some(JsonValue::String(e)), Some(c)) => *e == c,
            _ => false,
        };
        if ok {
            Ok(())
        } else {
            Err(MorayError::from_service_message(format!(
                "EtagConflictError: {}::{} changed",
                bucket, key
            )))
        }
    }

    fn store(&mut self, bucket: &str, key: &str, value: &JsonValue) -> String {
        let etag = format!("E{}", self.next_etag);
        self.next_etag += 1;
        let stored = Stored {
            bucket: String::from(bucket),
            key: String::from(key),
            value: value.deep_clone(),
            etag: etag.clone(),
        };
        match self.find(bucket, key) {
            Some(i) => self.objects[i] = stored,
            None => self.objects.push(stored),
        }
        etag
    }

    fn record(o: &Stored, id: usize) -> JsonValue {
        object(vec![
            ("bucket", text(&o.bucket)),
            ("key", text(&o.key)),
            ("value", o.value.deep_clone()),
            ("_id", JsonValue::Number(id.to_string())),
            ("_etag", text(&o.etag)),
            ("_mtime", JsonValue::Number(String::from("1580000000000"))),
        ])
    }

    fn call(&mut self, call: &RpcCall) -> Result<Vec<JsonValue>, MorayError> {
        self.calls += 1;
        let args = as_items(&call.args);
        match call.method.as_str() {
            "putObject" => {
                let (bucket, key) = (as_text(&args[0]), as_text(&args[1]));
                self.check_etag(&bucket, &key, &args[3])?;
                let etag = self.store(&bucket, &key, &args[2]);
                Ok(vec![JsonValue::Array(vec![object(vec![("etag", text(&etag))])])])
            }
            "getObject" => {
                let (bucket, key) = (as_text(&args[0]), as_text(&args[1]));
                match self.find(&bucket, &key) {
                    Some(i) => Ok(vec![Self::record(&self.objects[i], i)]),
                    None => Err(MorayError::from_service_message(String::from(
                        "ObjectNotFoundError: no such key",
                    ))),
                }
            }
            "findObjects" => {
                let (bucket, filter) = (as_text(&args[0]), as_text(&args[1]));
                assert_eq!(filter, "(type=object)");
                let limit = match args[2].get("limit") {
                    Some(JsonValue::Number(n)) => n.parse::<usize>().expect("limit"),
                    _ => usize::MAX,
                };
                Ok(self
                    .objects
                    .iter()
                    .enumerate()
                    .filter(|(_, o)| o.bucket == bucket && o.value.get("type") == Some(&text("object")))
                    .take(limit)
                    .map(|(i, o)| Self::record(o, i))
                    .collect())
            }
            "batch" => {
                let ops = as_items(&args[0]);
                for op in ops {
                    assert_eq!(op.get("operation"), Some(&text("put")));
                    let bucket = as_text(op.get("bucket").expect("bucket"));
                    let key = as_text(op.get("key").expect("key"));
                    self.check_etag(&bucket, &key, op.get("options").expect("options"))?;
                }
                let mut results = Vec::new();
                for op in ops {
                    let bucket = as_text(op.get("bucket").expect("bucket"));
                    let key = as_text(op.get("key").expect("key"));
                    let etag = self.store(&bucket, &key, op.get("value").expect("value"));
                    results.push(object(vec![("etag", text(&etag))]));
                }
                Ok(vec![JsonValue::Array(results)])
            }
            other => panic!("unexpected method {}", other),
        }
    }
}

fn put(svc: &mut FakeService, key: &str, value: JsonValue, opts: &MethodOptions) -> Result<String, MorayError> {
    let call = put_request("fixtures", key, value, opts);
    let payloads = svc.call(&call)?;
    assert_eq!(payloads.len(), 1);
    put_object_etag(&payloads[0])
}

fn get_value(svc: &mut FakeService, key: &str) -> JsonValue {
    let call = get_find_request("fixtures", key, &MethodOptions::default(), Methods::Get);
    let payloads = svc.call(&call).expect("object exists");
    let mut found: Vec<JsonValue> = Vec::new();
    for payload in &payloads {
        let mut handler = |o: &MorayObject| {
            found.push(o.value.deep_clone());
            Ok(())
        };
        decode_object(payload, &mut handler).expect("decodes");
    }
    assert_eq!(found.len(), 1);
    found.remove(0)
}

fn batch_put(key: &str, value: JsonValue, etag: Etag) -> BatchRequest {
    let mut options = MethodOptions::default();
    options.etag = etag;
    BatchRequest::Put(BatchPutOp {
        bucket: String::from("fixtures"),
        options,
        key: String::from(key),
        value,
    })
}

#[test]
fn batch_with_a_wrong_etag_applies_nothing() {
    let mut svc = FakeService::new();
    let opts = MethodOptions::default();
    put(&mut svc, "guarded", object(vec![("v", text("before"))]), &opts).expect("put");
    put(&mut svc, "plain", object(vec![("v", text("before"))]), &opts).expect("put");

    let requests = [
        batch_put("guarded", object(vec![("v", text("after"))]), Etag::Specified(String::from("wrong"))),
        batch_put("plain", object(vec![("v", text("after"))]), Etag::Undefined),
    ];
    let call = batch_request(&requests, &opts).expect("puts only");
    let mut handled = false;
    let r = svc.call(&call).and_then(|payloads| {
        handled = true;
        batch_results(&payloads[0]).map(|_| ())
    });
    assert!(matches!(r, Err(MorayError::EtagConflict(_))));
    assert!(!handled);
    assert_eq!(get_value(&mut svc, "plain"), object(vec![("v", text("before"))]));
    assert_eq!(get_value(&mut svc, "guarded"), object(vec![("v", text("before"))]));
}

#[test]
fn batch_of_three_puts_applies_all() {
    let mut svc = FakeService::new();
    let opts = MethodOptions::default();
    let existing = put(&mut svc, "k2", object(vec![("v", text("old"))]), &opts).expect("put");
    let requests = [
        batch_put("k1", object(vec![("v", text("one"))]), Etag::Nulled),
        batch_put("k2", object(vec![("v", text("two"))]), Etag::Specified(existing)),
        batch_put("k3", object(vec![("v", text("three"))]), Etag::Undefined),
    ];
    let call = batch_request(&requests, &opts).expect("puts only");
    let payloads = svc.call(&call).expect("applied");
    let results = batch_results(&payloads[0]).expect("array");
    assert_eq!(results.len(), 3);
    assert_eq!(get_value(&mut svc, "k1"), object(vec![("v", text("one"))]));
    assert_eq!(get_value(&mut svc, "k2"), object(vec![("v", text("two"))]));
    assert_eq!(get_value(&mut svc, "k3"), object(vec![("v", text("three"))]));
}

#[test]
fn find_with_limit_calls_back_at_most_limit_times() {
    let mut svc = FakeService::new();
    let opts = MethodOptions::default();
    for i in 0..15 {
        put(&mut svc, &format!("obj{}", i), object(vec![("type", text("object"))]), &opts)
            .expect("put");
    }
    let mut find_opts = MethodOptions::default();
    find_opts.set_limit(10);
    let call = get_find_request("fixtures", "(type=object)", &find_opts, Methods::Find);
    let payloads = svc.call(&call).expect("found");
    let mut callbacks = 0;
    for payload in &payloads {
        let mut handler = |_: &MorayObject| {
            callbacks += 1;
            Ok(())
        };
        assert_eq!(decode_object(payload, &mut handler), Ok(()));
    }
    assert!(callbacks <= 10);
    assert_eq!(callbacks, 10);
}

#[test]
fn nulled_etag_refuses_an_existing_key() {
    let mut svc = FakeService::new();
    let mut opts = MethodOptions::default();
    put(&mut svc, "k", object(vec![]), &opts).expect("first put");
    opts.etag = Etag::Nulled;
    assert!(matches!(
        put(&mut svc, "k", object(vec![]), &opts),
        Err(MorayError::EtagConflict(_))
    ));
    let calls_before = svc.calls;
    let update_free = [batch_put("k", object(vec![]), Etag::Undefined)];
    assert!(batch_request(&update_free, &opts).is_ok());
    assert_eq!(svc.calls, calls_before);
}
