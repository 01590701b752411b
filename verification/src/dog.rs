//! Metrics for DataDog, sent through a dogstatsd client. Every metric
//! carries the tags `tofubot` and `profile:<build profile>` before its own.

use vstd::prelude::*;
use crate::text::{concat2, i64_to_string, string_of};

verus! {

#[verifier::external_type_specification]
#[verifier::external_body]
pub struct ExDogClient(dogstatsd::Client);

#[verifier::external_type_specification]
#[verifier::external_body]
pub struct ExDogstatsdError(dogstatsd::DogstatsdError);

/// `dogstatsd::Client::event`: sends an event; whether it is delivered
/// depends on the socket, so nothing is stated of the result.
#[verifier::external_body]
fn send_event(client: &dogstatsd::Client, title: &str, text: &str, tags: &Vec<String>) -> Result<(), dogstatsd::DogstatsdError> {
    client.event(title, text, tags)
}

/// `dogstatsd::Client::incr`: sends a counter increment; nothing is stated
/// of the result.
#[verifier::external_body]
fn send_incr(client: &dogstatsd::Client, name: &str, tags: &Vec<String>) -> Result<(), dogstatsd::DogstatsdError> {
    client.incr(name, tags)
}

/// `dogstatsd::Client::decr`: sends a counter decrement; nothing is stated
/// of the result.
#[verifier::external_body]
fn send_decr(client: &dogstatsd::Client, name: &str, tags: &Vec<String>) -> Result<(), dogstatsd::DogstatsdError> {
    client.decr(name, tags)
}

/// `dogstatsd::Client::gauge`: sends a gauge value; nothing is stated of
/// the result.
#[verifier::external_body]
fn send_gauge(client: &dogstatsd::Client, name: &str, value: &str, tags: &Vec<String>) -> Result<(), dogstatsd::DogstatsdError> {
    client.gauge(name, value, tags)
}

/// `dogstatsd::Client::time`: runs `block` once, before anything is sent,
/// and then sends how long it took. The block has run whatever comes back;
/// whether the send succeeds depends on the socket and is not stated.
#[verifier::external_body]
fn send_time<F: FnOnce()>(client: &dogstatsd::Client, name: &str, tags: &Vec<String>, block: F) -> (r: Result<(), dogstatsd::DogstatsdError>)
    requires
        call_requires(block, ()),
    ensures
        r is Ok ==> call_ensures(block, (), ()),
        r is Err ==> call_ensures(block, (), ()),
{
    client.time(name, tags, block)
}

/// `dogstatsd::Client::timing`: sends a timing in milliseconds; nothing is
/// stated of the result.
#[verifier::external_body]
fn send_timing(client: &dogstatsd::Client, name: &str, ms: i64, tags: &Vec<String>) -> Result<(), dogstatsd::DogstatsdError> {
    client.timing(name, ms, tags)
}

/// `Display` of `dogstatsd::DogstatsdError` (the text of the I/O error);
/// nothing is stated of the text.
#[verifier::external_body]
fn error_text(e: &dogstatsd::DogstatsdError) -> String {
    e.to_string()
}

/// A metric could not be sent.
pub struct MetricError {
    /// Why, as the client reported it.
    pub reason: String,
}

/// The client that metrics go through, and the build profile that tags them.
pub struct Dog {
    client: dogstatsd::Client,
    profile: String,
}

impl Dog {
    pub fn new(client: dogstatsd::Client, profile: String) -> (d: Self)
        ensures
            d.profile() == profile@,
    {
        Dog { client, profile }
    }

    pub closed spec fn profile(&self) -> Seq<char> {
        self.profile@
    }
}

/// The characters of each string.
pub open spec fn texts(v: Seq<String>) -> Seq<Seq<char>> {
    v.map_values(|s: String| s@)
}

/// The tags of a metric: `tofubot`, then `profile:<profile>`, then its own.
pub open spec fn metric_tags(profile: Seq<char>, tags: Seq<Seq<char>>) -> Seq<Seq<char>> {
    seq!["tofubot"@, "profile:"@ + profile] + tags
}

/// Puts the common tags before a metric's own tags.
pub fn vec(profile: &str, tags: Vec<String>) -> (r: Vec<String>)
    ensures
        texts(r@) == metric_tags(profile@, texts(tags@)),
{
    let mut r: Vec<String> = Vec::new();
    r.push(string_of("tofubot"));
    r.push(concat2("profile:", profile));
    let mut tags = tags;
    let ghost own = texts(tags@);
    r.append(&mut tags);
    assert(texts(r@) =~= metric_tags(profile@, own));
    r
}

/// The outcome of sending a metric: an error of the client becomes a
/// `MetricError`.
pub fn sent(r: Result<(), dogstatsd::DogstatsdError>) -> (out: Result<(), MetricError>)
    ensures
        out is Ok <==> r is Ok,
{
    match r {
        Ok(()) => Ok(()),
        Err(e) => Err(MetricError { reason: error_text(&e) }),
    }
}

/// Sends an event with a title and a text.
pub fn event(dog: &Dog, title: &str, content: &str, tags: Vec<String>) -> Result<(), MetricError> {
    let tags = vec(dog.profile.as_str(), tags);
    sent(send_event(&dog.client, title, content, &tags))
}

/// Increments a counter.
pub fn incr(dog: &Dog, name: &str, tags: Vec<String>) -> Result<(), MetricError> {
    let tags = vec(dog.profile.as_str(), tags);
    sent(send_incr(&dog.client, name, &tags))
}

/// Decrements a counter.
pub fn decr(dog: &Dog, name: &str, tags: Vec<String>) -> Result<(), MetricError> {
    let tags = vec(dog.profile.as_str(), tags);
    sent(send_decr(&dog.client, name, &tags))
}

/// Sets a gauge to `val`, sent in decimal.
pub fn set(dog: &Dog, name: &str, val: i64, tags: Vec<String>) -> Result<(), MetricError> {
    let tags = vec(dog.profile.as_str(), tags);
    let value = i64_to_string(val);
    sent(send_gauge(&dog.client, name, value.as_str(), &tags))
}

/// Runs `block` and reports how long it took. The block runs whether or
/// not the report can be sent.
pub fn time<F: FnOnce()>(dog: &Dog, name: &str, tags: Vec<String>, block: F) -> (out: Result<(), MetricError>)
    requires
        call_requires(block, ()),
    ensures
        call_ensures(block, (), ()),
{
    let tags = vec(dog.profile.as_str(), tags);
    sent(send_time(&dog.client, name, &tags, block))
}

/// Reports a timing of `val` milliseconds.
pub fn timing(dog: &Dog, name: &str, val: i64, tags: Vec<String>) -> Result<(), MetricError> {
    let tags = vec(dog.profile.as_str(), tags);
    sent(send_timing(&dog.client, name, val, &tags))
}

} // verus!
