// The operations in the order in which a session uses them, against a
// scripted store: each step names the request that the store expects and
// the response that it gives.

use etcd_client::{EtcdClient, EtcdError, EtcdNode, Method, Operation, Request, Response};

const TEST_HOST: &str = "localhost";
const TEST_PORT: u16 = 4001;

const TEST_DIR: &str = "rs_test_dir";
const TEST_KEY: &str = "rs_test_dir/rs_test_key";

struct Store {
    steps: Vec<(Method, &'static str, Option<&'static str>, u16, &'static str)>,
    next: usize,
}

impl Store {
    fn send(&mut self, request: Request) -> Response {
        let (method, url, body, status, answer) = self.steps[self.next];
        self.next += 1;
        assert_eq!(request.method, method);
        assert_eq!(request.url, url);
        assert_eq!(request.body.as_deref(), body);
        assert_eq!(request.headers[0], ("Accept".to_string(), "application/json".to_string()));
        assert_eq!(request.headers.len(), if body.is_some() { 2 } else { 1 });
        Response {
            status,
            headers: vec![("X-Etcd-Index".to_string(), (self.next + 10).to_string())],
            body: answer.as_bytes().to_vec(),
        }
    }

    fn run(&mut self, op: Operation) -> Result<Option<EtcdNode>, EtcdError> {
        let request = client().request(&op).expect("error parsing url");
        let response = self.send(request);
        EtcdClient::complete(&op, &response)
    }
}

fn client() -> EtcdClient {
    return EtcdClient { etcd_host: TEST_HOST.to_string(), etcd_port: TEST_PORT };
}

fn store() -> Store {
    Store {
        steps: vec![
            (
                Method::Delete,
                "http://localhost:4001/v2/keys/rs_test_dir?dir=true&recursive=true",
                None,
                404,
                "{\"errorCode\":100,\"message\":\"Key not found\",\"cause\":\"/rs_test_dir\",\"index\":10}",
            ),
            (
                Method::Put,
                "http://localhost:4001/v2/keys/rs_test_dir?",
                Some("dir=true"),
                201,
                "{\"action\":\"set\",\"node\":{\"key\":\"/rs_test_dir\",\"dir\":true,\"modifiedIndex\":11,\"createdIndex\":11}}",
            ),
            (
                Method::Put,
                "http://localhost:4001/v2/keys/rs_test_dir/rs_test_key?",
                Some("value="),
                201,
                "{\"action\":\"set\",\"node\":{\"key\":\"/rs_test_dir/rs_test_key\",\"value\":\"\",\"modifiedIndex\":12,\"createdIndex\":12}}",
            ),
            (
                Method::Put,
                "http://localhost:4001/v2/keys/rs_test_dir/rs_test_key?",
                Some("value=testvalue"),
                200,
                "{\"action\":\"set\",\"node\":{\"key\":\"/rs_test_dir/rs_test_key\",\"value\":\"testvalue\",\"modifiedIndex\":13,\"createdIndex\":13},\"prevNode\":{\"key\":\"/rs_test_dir/rs_test_key\",\"value\":\"\",\"modifiedIndex\":12,\"createdIndex\":12}}",
            ),
            (
                Method::Get,
                "http://localhost:4001/v2/keys/rs_test_dir/rs_test_key?",
                None,
                200,
                "{\"action\":\"get\",\"node\":{\"key\":\"/rs_test_dir/rs_test_key\",\"value\":\"testvalue\",\"modifiedIndex\":13,\"createdIndex\":13}}",
            ),
            (
                Method::Get,
                "http://localhost:4001/v2/keys/rs_test_dir?",
                None,
                200,
                "{\"action\":\"get\",\"node\":{\"key\":\"/rs_test_dir\",\"dir\":true,\"nodes\":[{\"key\":\"/rs_test_dir/rs_test_key\",\"value\":\"testvalue\",\"modifiedIndex\":13,\"createdIndex\":13}],\"modifiedIndex\":11,\"createdIndex\":11}}",
            ),
            (
                Method::Delete,
                "http://localhost:4001/v2/keys/rs_test_dir/rs_test_key?",
                None,
                200,
                "{\"action\":\"delete\",\"node\":{\"key\":\"/rs_test_dir/rs_test_key\",\"modifiedIndex\":14,\"createdIndex\":13},\"prevNode\":{\"key\":\"/rs_test_dir/rs_test_key\",\"value\":\"testvalue\",\"modifiedIndex\":13,\"createdIndex\":13}}",
            ),
            (
                Method::Post,
                "http://localhost:4001/v2/keys/rs_test_dir/test_index?",
                Some("value=test_value1"),
                201,
                "{\"action\":\"create\",\"node\":{\"key\":\"/rs_test_dir/test_index/00000000000000000015\",\"value\":\"test_value1\",\"modifiedIndex\":15,\"createdIndex\":15}}",
            ),
            (
                Method::Post,
                "http://localhost:4001/v2/keys/rs_test_dir/test_index?",
                Some("value=test_value2"),
                201,
                "{\"action\":\"create\",\"node\":{\"key\":\"/rs_test_dir/test_index/00000000000000000016\",\"value\":\"test_value2\",\"modifiedIndex\":16,\"createdIndex\":16}}",
            ),
            (
                Method::Get,
                "http://localhost:4001/v2/keys/rs_test_dir/test_index?recursive=true&sorted=true",
                None,
                200,
                "{\"action\":\"get\",\"node\":{\"key\":\"/rs_test_dir/test_index\",\"dir\":true,\"nodes\":[{\"key\":\"/rs_test_dir/test_index/00000000000000000015\",\"value\":\"test_value1\",\"modifiedIndex\":15,\"createdIndex\":15},{\"key\":\"/rs_test_dir/test_index/00000000000000000016\",\"value\":\"test_value2\",\"modifiedIndex\":16,\"createdIndex\":16}],\"modifiedIndex\":15,\"createdIndex\":15}}",
            ),
            (
                Method::Delete,
                "http://localhost:4001/v2/keys/rs_test_dir?dir=true&recursive=true",
                None,
                200,
                "{\"action\":\"delete\",\"node\":{\"key\":\"/rs_test_dir\",\"dir\":true,\"modifiedIndex\":17,\"createdIndex\":11},\"prevNode\":{\"key\":\"/rs_test_dir\",\"dir\":true,\"modifiedIndex\":11,\"createdIndex\":11}}",
            ),
        ],
        next: 0,
    }
}

/// these are functional tests that need to be executed in order...
#[test]
fn ordered_tests() {
    let mut store = store();

    println!("testing: test_remove_dir(false)");
    test_remove_dir(&mut store, false);
    println!("success: test_remove_dir(false)");

    println!("testing: test_make_dir()");
    test_make_dir(&mut store);
    println!("success: test_make_dir()");

    println!("testing: test_set()");
    test_set(&mut store);
    println!("success: test_set()");

    println!("testing: test_get()");
    test_get(&mut store);
    println!("success: test_get()");

    println!("testing: test_list()");
    test_list(&mut store);
    println!("success: test_list()");

    println!("testing: test_remove()");
    test_remove(&mut store);
    println!("success: test_remove()");

    println!("testing: test_index_append()");
    test_index_append(&mut store);
    println!("success: test_index_append()");

    println!("testing: test_remove_dir(true)");
    test_remove_dir(&mut store, true);
    println!("success: test_remove_dir(true)");

    assert_eq!(store.next, store.steps.len());
}

fn test_remove_dir(store: &mut Store, assert_success: bool) {
    let result = store.run(Operation::RemoveDir { dir: TEST_DIR, recursive: true });

    if !assert_success {
        assert_eq!(result, Err(EtcdError::Unsuccessful(404)));
        return;
    }

    if let Err(e) = result {
        panic!("error: {:?}", e);
    }

    let old_dir = result.unwrap();

    assert!(old_dir.is_some());

    println!("old_dir: {:?}", old_dir);
    assert!(old_dir.unwrap().dir);
}

fn test_make_dir(store: &mut Store) {
    let result = store.run(Operation::MakeDir { name: TEST_DIR }); // now set it

    if let Err(e) = result {
        panic!("error: {:?}", e);
    }

    println!("result: {:?}", result);
    assert!(result.unwrap().unwrap().dir)
}

fn test_set(store: &mut Store) {
    let result = store.run(Operation::SetValue { key: TEST_KEY, value: "" }); // null it...
    assert_eq!(result, Ok(None));
    let result = store.run(Operation::SetValue { key: TEST_KEY, value: "testvalue" }); // now set it

    if let Err(e) = result {
        panic!("error: {:?}", e);
    }

    println!("result: {:?}", result);

    assert_eq!(result.unwrap().unwrap().value.unwrap(), ""); // should have been null before because of the first clear...
}

fn test_get(store: &mut Store) {
    let result = store.run(Operation::Get { key: TEST_KEY });

    if let Err(e) = result {
        panic!("error: {:?}", e);
    }

    let object = result.unwrap();

    assert_eq!(object.unwrap().value.unwrap(), "testvalue");
}

fn test_list(store: &mut Store) {
    let result = store.run(Operation::Get { key: TEST_DIR });

    if let Err(e) = result {
        panic!("error: {:?}", e);
    }

    let paths = result.unwrap();
    assert!(paths.is_some());

    let paths = paths.unwrap();

    assert!(paths.nodes.is_some());

    let paths = paths.nodes.unwrap();

    assert_eq!(paths.len(), 1);

    let ref zero = paths[0].value;

    assert!(zero.is_some());
    assert_eq!(zero, &Some("testvalue".to_string()));
}

fn test_remove(store: &mut Store) {
    let result = store.run(Operation::Remove { key: TEST_KEY }); // now set it

    if let Err(e) = result {
        panic!("error: {:?}", e);
    }

    println!("result: {:?}", result);

    assert_eq!(result.unwrap().unwrap().value.unwrap(), "testvalue");
}

/// this test focuses on creating ordered indexes, it combines both the creation and listing for the
///  tests, which is generally inapropriate.
fn test_index_append(store: &mut Store) {
    let index: &str = &format!("{}/{}", TEST_DIR, "test_index");

    let result = store.run(Operation::IndexAppend { key: index, value: "test_value1" });

    if let Err(e) = result {
        panic!("error: {:?}", e)
    }

    let result = store.run(Operation::IndexAppend { key: index, value: "test_value2" });

    if let Err(e) = result {
        panic!("error: {:?}", e)
    }

    let result: Result<Option<EtcdNode>, EtcdError> = store.run(Operation::IndexList { key: index });

    if let Err(e) = result {
        panic!("error: {:?}", e)
    }

    let result: Option<EtcdNode> = result.unwrap();
    assert!(result.is_some());

    let result: EtcdNode = result.unwrap();
    assert!(result.nodes.is_some());

    let indexes = result.nodes.unwrap();
    assert_eq!(indexes.len(), 2);

    let ref zero = indexes[0].value;
    assert!(zero.is_some());
    assert_eq!(zero, &Some("test_value1".to_string()));

    let ref one = indexes[1].value;
    assert!(one.is_some());
    assert_eq!(one, &Some("test_value2".to_string()));

    assert!(indexes[0].created_index < indexes[1].created_index);
}
