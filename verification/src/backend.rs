//! The calls into the store's client. What a call gives back depends on what
//! the server holds and on the connection, so none of them promises anything
//! of its result: the engine is proved for every answer.

use vstd::prelude::*;

verus! {

/// The client of the store: it knows where the server is.
#[verifier::external_type_specification]
#[verifier::external_body]
pub struct ExClient(redis::Client);

/// An open connection to the server.
#[verifier::external_type_specification]
#[verifier::external_body]
pub struct ExConnection(redis::Connection);

/// The error of a call to the server.
#[verifier::external_type_specification]
#[verifier::external_body]
pub struct ExRedisError(redis::RedisError);

/// `redis::Client::get_connection`: connects to the server. Nothing is
/// claimed of the result.
#[verifier::external_body]
pub(crate) fn connect(client: &redis::Client) -> Result<redis::Connection, redis::RedisError> {
    client.get_connection()
}

/// The text of a `redis::RedisError`, as its `Display` writes it. Nothing is
/// claimed of the text.
#[verifier::external_body]
pub(crate) fn error_text(error: &redis::RedisError) -> String {
    error.to_string()
}

/// `redis::Commands::incr` by `step`, read as an unsigned number. Nothing is
/// claimed of the result.
#[verifier::external_body]
pub(crate) fn store_incr(conn: &mut redis::Connection, key: &str, step: u64) -> Result<
    u64,
    redis::RedisError,
> {
    redis::Commands::incr(conn, key, step)
}

/// `redis::Commands::hset` of one field; the server's count is dropped.
#[verifier::external_body]
pub(crate) fn store_hset(conn: &mut redis::Connection, key: &str, field: u64, value: &str) -> Result<
    (),
    redis::RedisError,
> {
    redis::Commands::hset(conn, key, field, value)
}

/// `redis::Commands::hget` of one field, read as a string; a field that is
/// not there is an error of the conversion. Nothing is claimed of the result.
#[verifier::external_body]
pub(crate) fn store_hget(conn: &mut redis::Connection, key: &str, field: u64) -> Result<
    String,
    redis::RedisError,
> {
    redis::Commands::hget(conn, key, field)
}

/// `redis::Commands::hdel` of one field, the server's count read as a truth
/// value. Nothing is claimed of the result.
#[verifier::external_body]
pub(crate) fn store_hdel(conn: &mut redis::Connection, key: &str, field: u64) -> Result<
    bool,
    redis::RedisError,
> {
    redis::Commands::hdel(conn, key, field)
}

/// `redis::Commands::hexists`. Nothing is claimed of the result.
#[verifier::external_body]
pub(crate) fn store_hexists(conn: &mut redis::Connection, key: &str, field: u64) -> Result<
    bool,
    redis::RedisError,
> {
    redis::Commands::hexists(conn, key, field)
}

/// `redis::Commands::hincr` by `step`, read as a 32-bit number. Nothing is
/// claimed of the result.
#[verifier::external_body]
pub(crate) fn store_hincr(conn: &mut redis::Connection, key: &str, field: u64, step: u32) -> Result<
    u32,
    redis::RedisError,
> {
    redis::Commands::hincr(conn, key, field, step)
}

/// `redis::Commands::lpush` of one value; the server's count is dropped.
#[verifier::external_body]
pub(crate) fn store_lpush(conn: &mut redis::Connection, key: &str, value: u64) -> Result<
    (),
    redis::RedisError,
> {
    redis::Commands::lpush(conn, key, value)
}

/// `redis::Commands::rpop` of one value, read as a number. Nothing is claimed
/// of the result.
#[verifier::external_body]
pub(crate) fn store_rpop(conn: &mut redis::Connection, key: &str) -> Result<
    Option<u64>,
    redis::RedisError,
> {
    redis::Commands::rpop(conn, key, None)
}

/// The command BRPOP on one list with a timeout in whole seconds, sent with
/// `redis::cmd` and `redis::Cmd::query`; of the pair that the server answers
/// with, the value is kept. A timeout of zero, on which the server waits
/// without limit, is left out. Nothing is claimed of the result.
#[verifier::external_body]
pub(crate) fn store_brpop(conn: &mut redis::Connection, key: &str, timeout: u64) -> Result<
    Option<u64>,
    redis::RedisError,
>
    requires
        timeout > 0,
{
    let popped: Option<(String, u64)> = redis::cmd("BRPOP").arg(key).arg(timeout).query(conn)?;
    Ok(popped.map(|pair| pair.1))
}

/// `redis::Commands::lrem` of `count` occurrences of a value; the server's
/// count is dropped.
#[verifier::external_body]
pub(crate) fn store_lrem(conn: &mut redis::Connection, key: &str, count: isize, value: u64) -> Result<
    (),
    redis::RedisError,
> {
    redis::Commands::lrem(conn, key, count, value)
}

/// `redis::Commands::zadd` of one member; the server's count is dropped.
#[verifier::external_body]
pub(crate) fn store_zadd(conn: &mut redis::Connection, key: &str, member: u64, score: u64) -> Result<
    (),
    redis::RedisError,
> {
    redis::Commands::zadd(conn, key, member, score)
}

/// `redis::Commands::zrevrangebyscore` from the score `max` down to the
/// score `min`, the members read as numbers. Nothing is claimed of the
/// result.
#[verifier::external_body]
pub(crate) fn store_zrevrangebyscore(
    conn: &mut redis::Connection,
    key: &str,
    max: u64,
    min: &str,
) -> Result<Vec<u64>, redis::RedisError> {
    redis::Commands::zrevrangebyscore(conn, key, max, min)
}

/// `redis::Commands::zrembyscore` from the score `min` up to the score `max`;
/// the server's count is dropped.
#[verifier::external_body]
pub(crate) fn store_zrembyscore(
    conn: &mut redis::Connection,
    key: &str,
    min: &str,
    max: u64,
) -> Result<(), redis::RedisError> {
    redis::Commands::zrembyscore(conn, key, min, max)
}

/// `redis::Commands::zrem` of one member; the server's count is dropped.
#[verifier::external_body]
pub(crate) fn store_zrem(conn: &mut redis::Connection, key: &str, member: u64) -> Result<
    (),
    redis::RedisError,
> {
    redis::Commands::zrem(conn, key, member)
}

/// `redis::Commands::set_options` of the value `value` with the options
/// "only if the key is not there", which makes this call the primitive that
/// it is, and "expire after `seconds` seconds"; the answer is read as a truth
/// value. Nothing is claimed of the result.
#[verifier::external_body]
pub(crate) fn store_set_absent(
    conn: &mut redis::Connection,
    key: &str,
    value: bool,
    seconds: u64,
) -> Result<bool, redis::RedisError> {
    let options = redis::SetOptions::default().conditional_set(
        redis::ExistenceCheck::NX,
    ).with_expiration(redis::SetExpiry::EX(seconds));
    redis::Commands::set_options(conn, key, value, options)
}

/// `redis::Commands::scan_match`, the keys it walks over gathered in a
/// vector. Nothing is claimed of the result.
#[verifier::external_body]
pub(crate) fn store_scan_match(conn: &mut redis::Connection, pattern: &str) -> Result<
    Vec<String>,
    redis::RedisError,
> {
    let keys: redis::Iter<'_, String> = redis::Commands::scan_match(conn, pattern)?;
    keys.collect()
}

/// `redis::Commands::del` of the given keys; the server's count is dropped.
#[verifier::external_body]
pub(crate) fn store_del(conn: &mut redis::Connection, keys: &Vec<String>) -> Result<
    (),
    redis::RedisError,
> {
    redis::Commands::del(conn, keys)
}

} // verus!
