use std::collections::HashMap;

use persistentcache::error::CacheError;
use persistentcache::key::derive_key;
use persistentcache::memo::{Action, CachedCall, Event};
use persistentcache::storage::file::FileStorage;
use persistentcache::storage::PersistentCache;

/// A directory of files held in memory: full path to contents.
struct MemDir {
    files: FileStorage,
    contents: HashMap<String, Vec<u8>>,
}

impl MemDir {
    fn new(dir: &str) -> MemDir {
        MemDir { files: FileStorage::new(dir), contents: HashMap::new() }
    }
}

impl PersistentCache for MemDir {
    fn get(&mut self, key: &str) -> Result<Vec<u8>, CacheError> {
        Ok(self.contents.get(&self.files.entry_path(key)).cloned().unwrap_or_default())
    }

    fn set(&mut self, key: &str, value: &[u8]) -> Result<(), CacheError> {
        self.contents.insert(self.files.entry_path(key), value.to_vec());
        Ok(())
    }

    fn flush(&mut self) -> Result<(), CacheError> {
        let mut paths: Vec<String> = self.contents.keys().cloned().collect();
        paths.sort();
        for p in self.files.flush_targets(&paths)? {
            self.contents.remove(&p);
        }
        Ok(())
    }
}

fn arg<A: serde::Serialize>(a: &A) -> Vec<u8> {
    bincode::serialize(a).unwrap()
}

fn cached<S, T, F>(storage: &mut S, namespace: &str, name: &str, args: &[Vec<u8>], f: F) -> Result<T, CacheError>
where
    S: PersistentCache,
    T: serde::Serialize + serde::de::DeserializeOwned,
    F: FnOnce() -> T,
{
    let key = derive_key(namespace, name, &args.to_vec());
    let (mut call, mut action) = CachedCall::start(key);
    let mut f = Some(f);
    let mut computed: Option<T> = None;
    loop {
        action = match action {
            Action::Fetch(k) => call.advance(Event::Fetched(storage.get(&k)?)),
            Action::Compute => {
                let v = (f.take().unwrap())();
                let bytes = bincode::serialize(&v).map_err(|_| CacheError::Encode)?;
                computed = Some(v);
                call.advance(Event::Computed(bytes))
            }
            Action::Store(k, bytes) => {
                storage.set(&k, &bytes)?;
                call.advance(Event::Stored)
            }
            Action::UseStored(bytes) => {
                return bincode::deserialize(&bytes).map_err(|_| CacheError::Decode);
            }
            Action::UseComputed => return Ok(computed.take().unwrap()),
        };
    }
}

fn test_func_1(a: i64, counter: &mut i64) -> i64 {
    *counter += 1;
    a * 10
}

fn test_func_2(a: i64, b: i64, counter: &mut i64) -> i64 {
    *counter += 1;
    a * b
}

fn test_func_3(a: &[i64], counter: &mut i64) -> Vec<i64> {
    *counter += 1;
    vec![a[1], a[0]]
}

fn add_two(n: u64) -> u64 {
    n + 2
}

fn panic() {
    panic!("nothing");
}

#[test]
fn test_func() {
    let mut s = MemDir::new("file_test");
    s.flush().unwrap();
    let n: u64 = 10;
    let r: u64 = cached(&mut s, "test", "add_two", &[arg(&n)], || add_two(n)).unwrap();
    assert_eq!(12, r);
    s.flush().unwrap();
}

#[test]
fn test_func_procmacro() {
    let mut s = MemDir::new("file_test");
    s.flush().unwrap();
    let n: u64 = 10;
    let r: u64 = cached(&mut s, "DEF", "add_two", &[arg(&n)], || add_two(n)).unwrap();
    assert_eq!(12, r);
    s.flush().unwrap();
}

#[test]
fn test_func_procmacro2() {
    let mut s = MemDir::new("file_test");
    s.flush().unwrap();
    let mut counter: i64 = 0;
    // the counter is an argument too, so each call has a new key
    let a = vec![2, 1];
    let c0 = counter;
    let r: Vec<i64> = cached(&mut s, "DEF", "test_func_proc", &[arg(&a), arg(&c0)], || test_func_3(&a, &mut counter)).unwrap();
    assert_eq!(vec![1, 2], r);
    assert_eq!(counter, 1);
    let c1 = counter;
    let r: Vec<i64> = cached(&mut s, "DEF", "test_func_proc", &[arg(&a), arg(&c1)], || test_func_3(&a, &mut counter)).unwrap();
    assert_eq!(vec![1, 2], r);
    assert_eq!(counter, 2);
    s.flush().unwrap();
}

#[test]
fn test_file_storage() {
    let a: i64 = 6;
    let mut counter: i64 = 0;
    let mut s = MemDir::new("file_test");
    s.flush().unwrap();
    assert_eq!(a * 10, test_func_1(a, &mut counter));
    assert_eq!(counter, 1);
    let c = counter;
    assert_eq!(a * 10, cached(&mut s, "DEF", "test_func_1", &[arg(&a), arg(&c)], || test_func_1(a, &mut counter)).unwrap());
    assert_eq!(counter, 2);
    let mut counter: i64 = 1;
    let c = counter;
    assert_eq!(a * 10, cached(&mut s, "DEF", "test_func_1", &[arg(&a), arg(&c)], || test_func_1(a, &mut counter)).unwrap());
    assert_eq!(counter, 1);
    s.flush().unwrap();
}

#[test]
fn test_hashing() {
    // swapping the arguments changes the key
    let a: i64 = 6;
    let b: i64 = 2;
    let mut counter: i64 = 0;
    let mut s = MemDir::new("file_test");
    s.flush().unwrap();
    assert_eq!(a * b, cached(&mut s, "DEF", "test_func_2", &[arg(&a), arg(&b)], || test_func_2(a, b, &mut counter)).unwrap());
    assert_eq!(counter, 1);
    let mut counter: i64 = 0;
    assert_eq!(a * b, cached(&mut s, "DEF", "test_func_2", &[arg(&b), arg(&a)], || test_func_2(b, a, &mut counter)).unwrap());
    assert_eq!(counter, 1);
}

#[test]
fn test_vectors() {
    let a: Vec<i64> = vec![1, 2, 3];
    let mut counter: i64 = 0;
    let mut s = MemDir::new("file_test");
    s.flush().unwrap();
    assert_eq!(vec![2, 1], test_func_3(&a, &mut counter));
    assert_eq!(counter, 1);
    let c = counter;
    assert_eq!(vec![2, 1], cached::<_, Vec<i64>, _>(&mut s, "DEF", "test_func_3", &[arg(&a), arg(&c)], || test_func_3(&a, &mut counter)).unwrap());
    assert_eq!(counter, 2);
    let mut counter: i64 = 1;
    let c = counter;
    assert_eq!(vec![2, 1], cached::<_, Vec<i64>, _>(&mut s, "DEF", "test_func_3", &[arg(&a), arg(&c)], || test_func_3(&a, &mut counter)).unwrap());
    assert_eq!(counter, 1);
    s.flush().unwrap();
}

#[test]
#[should_panic]
fn failing_function() {
    let mut s = MemDir::new("file_test");
    s.flush().unwrap();
    let _: () = cached(&mut s, "DEF", "panic", &[], panic).unwrap();
}

#[test]
fn add_two_is_computed_once_per_argument() {
    let mut s = MemDir::new("D");
    let mut counter = 0;
    for (n, expected, count) in [(2u64, 4u64, 1), (2, 4, 1), (3, 5, 2), (3, 5, 2)] {
        let r: u64 = cached(&mut s, "DEF", "add_two", &[arg(&n)], || {
            counter += 1;
            add_two(n)
        })
        .unwrap();
        assert_eq!(r, expected);
        assert_eq!(counter, count);
    }
}

#[test]
fn file_scenario_set_get_flush() {
    let mut s = MemDir::new("D");
    s.set("pc_DEF_add_1", &[4]).unwrap();
    assert_eq!(s.get("pc_DEF_add_1").unwrap(), vec![4]);
    s.flush().unwrap();
    assert!(s.contents.is_empty());
    assert_eq!(s.get("pc_DEF_add_1").unwrap(), Vec::<u8>::new());
}

#[test]
fn stored_value_is_decoded_not_recomputed() {
    let mut s = MemDir::new("D");
    let key = derive_key("DEF", "f", &vec![arg(&1u64)]);
    s.set(&key, &bincode::serialize(&99u64).unwrap()).unwrap();
    let r: u64 = cached(&mut s, "DEF", "f", &[arg(&1u64)], || panic!("must not compute")).unwrap();
    assert_eq!(r, 99);
}

#[test]
fn corrupt_entry_is_a_decode_error() {
    let mut s = MemDir::new("D");
    let key = derive_key("DEF", "f", &vec![]);
    s.set(&key, &[1]).unwrap();
    let r: Result<u64, CacheError> = cached(&mut s, "DEF", "f", &[], || 5);
    assert_eq!(r, Err(CacheError::Decode));
}
