//! Entries kept in a Redis database over one connection.
//!
//! The connection is opened once by `new` and used for every operation;
//! nothing is retried and a dropped connection fails every later operation.
use redis::Commands;
use vstd::prelude::*;
use vstd::string::StringExecFns;

use crate::error::CacheError;
use crate::storage::PersistentCache;
use crate::PREFIX;

verus! {

#[verifier::external_type_specification]
#[verifier::external_body]
pub struct ExRedisClient(redis::Client);

#[verifier::external_type_specification]
#[verifier::external_body]
pub struct ExRedisConnection(redis::Connection);

#[verifier::external_type_specification]
#[verifier::external_body]
pub struct ExRedisError(redis::RedisError);

/// Whether `redis::Client::open` accepts a connection string.
pub uninterp spec fn redis_url_accepted(host: Seq<char>) -> bool;

/// Relies on redis::Client::open: it only parses the connection string, so
/// whether it succeeds depends on the string alone.
#[verifier::external_body]
fn open_client(host: &str) -> (r: Result<redis::Client, redis::RedisError>)
    ensures
        r is Ok <==> redis_url_accepted(host@),
{
    redis::Client::open(host)
}

/// Relies on redis::Client::get_connection: opens a connection to the
/// server; the outcome depends on the network.
#[verifier::external_body]
fn open_connection(client: &redis::Client) -> (r: Result<redis::Connection, redis::RedisError>) {
    client.get_connection()
}

/// Relies on redis::Commands::get: issues GET; a missing key reads as `None`.
#[verifier::external_body]
fn remote_get(con: &mut redis::Connection, key: &str) -> (r: Result<Option<Vec<u8>>, redis::RedisError>) {
    con.get(key)
}

/// Relies on redis::Commands::set: issues SET with the bytes as the value.
#[verifier::external_body]
fn remote_set(con: &mut redis::Connection, key: &str, value: &[u8]) -> (r: Result<(), redis::RedisError>) {
    con.set(key, value)
}

/// Relies on redis::Commands::keys: issues KEYS with a glob pattern.
#[verifier::external_body]
fn remote_keys(con: &mut redis::Connection, pattern: &str) -> (r: Result<Vec<String>, redis::RedisError>) {
    con.keys(pattern)
}

/// Relies on redis::Commands::del: issues one DEL over all the given keys.
#[verifier::external_body]
fn remote_del(con: &mut redis::Connection, keys: &Vec<String>) -> (r: Result<(), redis::RedisError>) {
    con.del(keys)
}

/// The glob that lists the keys a flush removes.
pub open spec fn flush_glob_text() -> Seq<char> {
    PREFIX@ + seq!['_', '*']
}

/// The glob that lists the keys a flush removes: the prefix, `_`, anything.
pub fn flush_glob() -> (r: String)
    ensures
        r@ == flush_glob_text(),
{
    let mut p = String::from_str(PREFIX);
    p.append("_*");
    proof {
        reveal_strlit("_*");
    }
    p
}

/// The bytes a GET reply stands for: a missing key is empty bytes.
pub fn reply_bytes(reply: Option<Vec<u8>>) -> (r: Vec<u8>)
    ensures
        r@ == match reply {
            Some(v) => v@,
            None => Seq::<u8>::empty(),
        },
{
    match reply {
        Some(v) => v,
        None => Vec::new(),
    }
}

/// Whether a flush that listed `keys` must send a delete: the store rejects
/// a delete of no keys, so it is sent only when something was listed.
pub fn needs_delete(keys: &Vec<String>) -> (r: bool)
    ensures
        r == (keys@.len() > 0),
{
    keys.len() > 0
}

/// A storage backed by one connection to a Redis server.
pub struct RedisStorage {
    con: redis::Connection,
}

impl RedisStorage {
    /// Connects to the server named by `host`, e.g. `redis://127.0.0.1`.
    /// A string that does not parse, or a server that cannot be reached, is
    /// a connection error.
    pub fn new(host: &str) -> (r: Result<RedisStorage, CacheError>)
        ensures
            !redis_url_accepted(host@) ==> r is Err,
            r matches Err(e) ==> e == CacheError::Connection,
    {
        let client = match open_client(host) {
            Ok(c) => c,
            Err(_) => return Err(CacheError::Connection),
        };
        match open_connection(&client) {
            Ok(con) => Ok(RedisStorage { con }),
            Err(_) => Err(CacheError::Connection),
        }
    }

    /// The bytes stored under `key`; empty bytes when the key is absent.
    pub fn get(&mut self, key: &str) -> (r: Result<Vec<u8>, CacheError>)
        ensures
            r matches Err(e) ==> e == CacheError::Connection,
    {
        match remote_get(&mut self.con, key) {
            Ok(reply) => Ok(reply_bytes(reply)),
            Err(_) => Err(CacheError::Connection),
        }
    }

    /// Stores `value` under `key`.
    pub fn set(&mut self, key: &str, value: &[u8]) -> (r: Result<(), CacheError>)
        ensures
            r matches Err(e) ==> e == CacheError::Connection,
    {
        match remote_set(&mut self.con, key, value) {
            Ok(()) => Ok(()),
            Err(_) => Err(CacheError::Connection),
        }
    }

    /// Lists the keys under the prefix and deletes them all in one command,
    /// sending no delete when none is listed.
    pub fn flush(&mut self) -> (r: Result<(), CacheError>)
        ensures
            r matches Err(e) ==> e == CacheError::Connection,
    {
        let glob = flush_glob();
        let keys = match remote_keys(&mut self.con, glob.as_str()) {
            Ok(k) => k,
            Err(_) => return Err(CacheError::Connection),
        };
        if needs_delete(&keys) {
            match remote_del(&mut self.con, &keys) {
                Ok(()) => {},
                Err(_) => return Err(CacheError::Connection),
            }
        }
        Ok(())
    }
}

impl PersistentCache for RedisStorage {
    fn get(&mut self, key: &str) -> Result<Vec<u8>, CacheError> {
        RedisStorage::get(self, key)
    }

    fn set(&mut self, key: &str, value: &[u8]) -> Result<(), CacheError> {
        RedisStorage::set(self, key, value)
    }

    fn flush(&mut self) -> Result<(), CacheError> {
        RedisStorage::flush(self)
    }
}

} // verus!
