//! The client of the soul server's key/value store.
//!
//! - `GET /v1/kv/{key}` answers `{"value": ...}`, or 404;
//! - `PUT /v1/kv/{key}` takes `{"value": ...}`;
//! - `DELETE /v1/kv/{key}`;
//! - `GET /v1/kv?prefix=...` answers `{"keys": [...]}`.
//!
//! Each operation first gives the request to send. What came back is then handed
//! in, step by step: the status of the response, and its body where it is wanted.

use crate::exchange;
use crate::exchange::Body;
use crate::exchange::BodyView;
use crate::exchange::Context;
use crate::exchange::Fault;
use crate::exchange::Method;
use crate::exchange::Request;
use crate::exchange::RequestView;
use crate::exchange::NOT_FOUND;
use vstd::prelude::*;

verus! {

/// How long an operation on the key/value store may take, in seconds.
pub const KV_TIMEOUT_SECS: u64 = 2;

/// `String::push` appends the character to the end of the string.
pub assume_specification[ String::push ](s: &mut String, c: char)
    ensures
        final(s)@ == old(s)@.push(c),
;

/// Whether a character has a meaning of its own in a URL, and so cannot stand for
/// itself in a path segment: `/` and `\` part segments, `?` and `#` end the path,
/// `:` parts a scheme or a port, and `%` begins an encoded character.
pub open spec fn is_reserved(c: char) -> bool {
    c == '/' || c == '\\' || c == ':' || c == '?' || c == '#' || c == '%'
}

/// A character in a path segment: percent-encoded, if it is reserved.
pub open spec fn escape(c: char) -> Seq<char> {
    if c == '/' {
        seq!['%', '2', 'F']
    } else if c == '\\' {
        seq!['%', '5', 'C']
    } else if c == ':' {
        seq!['%', '3', 'A']
    } else if c == '?' {
        seq!['%', '3', 'F']
    } else if c == '#' {
        seq!['%', '2', '3']
    } else if c == '%' {
        seq!['%', '2', '5']
    } else {
        seq![c]
    }
}

/// A key in the path of a URL: its characters in order, the reserved ones
/// percent-encoded, so that the key is a single segment of the URL's text. (That a
/// URL parser folds the segments `.` and `..` is not prevented.)
pub open spec fn escaped(key: Seq<char>) -> Seq<char>
    decreases key.len(),
{
    if key.len() == 0 {
        Seq::empty()
    } else {
        escaped(key.drop_last()) + escape(key.last())
    }
}

/// The URL of a key's entry.
pub open spec fn entry_url(base_url: Seq<char>, key: Seq<char>) -> Seq<char> {
    base_url + "/v1/kv/"@ + escaped(key)
}

/// The request for the value at a key.
pub open spec fn get_request(base_url: Seq<char>, key: Seq<char>) -> RequestView {
    RequestView {
        method: Method::Get,
        url: entry_url(base_url, key),
        query: None,
        body: BodyView::Empty,
    }
}

/// The request that stores a value at a key.
pub open spec fn put_request(base_url: Seq<char>, key: Seq<char>, value: Seq<char>) -> RequestView {
    RequestView {
        method: Method::Put,
        url: entry_url(base_url, key),
        query: None,
        body: BodyView::Value { value },
    }
}

/// The request that removes the entry at a key.
pub open spec fn delete_request(base_url: Seq<char>, key: Seq<char>) -> RequestView {
    RequestView {
        method: Method::Delete,
        url: entry_url(base_url, key),
        query: None,
        body: BodyView::Empty,
    }
}

/// The request for the keys that begin with a prefix.
pub open spec fn list_keys_request(base_url: Seq<char>, prefix: Seq<char>) -> RequestView {
    RequestView {
        method: Method::Get,
        url: base_url + "/v1/kv"@,
        query: Some(("prefix"@, prefix)),
        body: BodyView::Empty,
    }
}

/// The client of the soul server's key/value store.
pub struct B00tSoulClient {
    pub base_url: String,
    /// How long an operation may take, in seconds.
    pub timeout_secs: u64,
}

/// What to do after the response to a GET request has begun.
#[derive(Debug, PartialEq, Eq)]
pub enum GetStep<E> {
    /// The operation is over.
    Done(Result<Option<String>, Fault<E>>),
    /// Read the value out of the response's body.
    ReadBody,
}

/// What to do after the response to a request for keys has begun.
#[derive(Debug, PartialEq, Eq)]
pub enum ListKeysStep<E> {
    /// The operation failed.
    Failed(Fault<E>),
    /// Read the keys out of the response's body.
    ReadBody,
}

/// What to do after the response to a GET request has begun, or none came. That
/// nothing is there is no failure.
pub open spec fn get_step<E>(sent: Result<u16, E>) -> GetStep<E> {
    match sent {
        Err(cause) => GetStep::Done(Err(Fault::Failed { context: Context::GetRequest, cause })),
        Ok(status) => if status == NOT_FOUND {
            GetStep::Done(Ok(None))
        } else if exchange::is_error_status(status) {
            GetStep::Done(Err(Fault::Status { context: Context::GetStatus, status }))
        } else {
            GetStep::ReadBody
        },
    }
}

impl B00tSoulClient {
    /// A client of the soul server at `base_url`.
    pub fn new(base_url: &str) -> (client: Self)
        ensures
            client.base_url@ == base_url@,
            client.timeout_secs == KV_TIMEOUT_SECS,
    {
        B00tSoulClient { base_url: base_url.to_owned(), timeout_secs: KV_TIMEOUT_SECS }
    }

    /// A key in the path of a URL: percent-encodes colons, slashes and the other
    /// reserved characters.
    pub fn key_path(key: &str) -> (path: String)
        ensures
            path@ == escaped(key@),
    {
        let mut path = String::new();
        for c in chars: key.chars()
            invariant
                chars.seq() == key@,
                path@ == escaped(key@.take(chars.index())),
        {
            let ghost i = chars.index();
            assert(key@.take(i + 1).drop_last() =~= key@.take(i));
            B00tSoulClient::push_escaped(&mut path, c);
        }
        assert(key@.take(key@.len() as int) =~= key@);
        path
    }

    fn push_escaped(path: &mut String, c: char)
        ensures
            final(path)@ == old(path)@ + escape(c),
    {
        match c {
            '/' => path.append("%2F"),
            '\\' => path.append("%5C"),
            ':' => path.append("%3A"),
            '?' => path.append("%3F"),
            '#' => path.append("%23"),
            '%' => path.append("%25"),
            _ => path.push(c),
        }
        proof {
            reveal_strlit("%2F");
            reveal_strlit("%5C");
            reveal_strlit("%3A");
            reveal_strlit("%3F");
            reveal_strlit("%23");
            reveal_strlit("%25");
            assert(path@ =~= old(path)@ + escape(c));
        }
    }

    fn entry_url(&self, key: &str) -> (url: String)
        ensures
            url@ == entry_url(self.base_url@, key@),
    {
        let mut url = self.base_url.clone();
        url.append("/v1/kv/");
        url.append(B00tSoulClient::key_path(key).as_str());
        url
    }

    /// Asks for the value at a key.
    pub fn get(&self, key: &str) -> (request: Request)
        ensures
            request@ == get_request(self.base_url@, key@),
            request.method == Method::Get,
            request.url@ == self.base_url@ + "/v1/kv/"@ + escaped(key@),
            request.query is None,
            request.body is Empty,
    {
        Request { method: Method::Get, url: self.entry_url(key), query: None, body: Body::Empty }
    }

    /// Goes on with a GET request: `sent` is the status of the response, or why
    /// there is none.
    pub fn get_sent<E>(sent: Result<u16, E>) -> (step: GetStep<E>)
        ensures
            step == get_step(sent),
            match sent {
                Ok(status) => {
                    &&& step == GetStep::<E>::Done(Ok(None)) <==> status == 404
                    &&& step is ReadBody <==> status < 400 || status >= 600
                    &&& 400 <= status < 600 && status != 404 ==> step == GetStep::<E>::Done(
                        Err(Fault::Status { context: Context::GetStatus, status }),
                    )
                },
                Err(cause) => step == GetStep::Done(
                    Err(Fault::Failed { context: Context::GetRequest, cause }),
                ),
            },
    {
        if let Ok(status) = &sent {
            if *status == NOT_FOUND {
                return GetStep::Done(Ok(None));
            }
        }
        match exchange::judge(sent, Context::GetRequest, Context::GetStatus) {
            Ok(()) => GetStep::ReadBody,
            Err(fault) => GetStep::Done(Err(fault)),
        }
    }

    /// Ends a GET request: `body` is the value read out of the response's body, or
    /// why there is none in it.
    pub fn get_read<E>(body: Result<String, E>) -> (value: Result<Option<String>, Fault<E>>)
        ensures
            match body {
                Ok(text) => value == Ok::<Option<String>, Fault<E>>(Some(text)),
                Err(cause) => value == Err::<Option<String>, Fault<E>>(
                    Fault::Failed { context: Context::GetDecode, cause },
                ),
            },
    {
        match body {
            Ok(text) => Ok(Some(text)),
            Err(cause) => Err(Fault::Failed { context: Context::GetDecode, cause }),
        }
    }

    /// Stores a value at a key.
    pub fn put(&self, key: &str, value: &str) -> (request: Request)
        ensures
            request@ == put_request(self.base_url@, key@, value@),
            request.method == Method::Put,
            request.url@ == self.base_url@ + "/v1/kv/"@ + escaped(key@),
            request.query is None,
            request.body matches Body::Value { value: sent } && sent@ == value@,
    {
        Request {
            method: Method::Put,
            url: self.entry_url(key),
            query: None,
            body: Body::Value { value: value.to_owned() },
        }
    }

    /// Ends a PUT request.
    pub fn put_sent<E>(sent: Result<u16, E>) -> (done: Result<(), Fault<E>>)
        ensures
            done == exchange::outcome(sent, Context::PutRequest, Context::PutStatus),
            match sent {
                Ok(status) => {
                    &&& done is Ok <==> status < 400 || status >= 600
                    &&& done matches Err(fault) ==> fault == (Fault::<E>::Status {
                        context: Context::PutStatus,
                        status,
                    })
                },
                Err(cause) => done matches Err(fault) && fault == (Fault::Failed {
                    context: Context::PutRequest,
                    cause,
                }),
            },
    {
        exchange::judge(sent, Context::PutRequest, Context::PutStatus)
    }

    /// Removes the entry at a key.
    pub fn delete(&self, key: &str) -> (request: Request)
        ensures
            request@ == delete_request(self.base_url@, key@),
            request.method == Method::Delete,
            request.url@ == self.base_url@ + "/v1/kv/"@ + escaped(key@),
            request.query is None,
            request.body is Empty,
    {
        Request { method: Method::Delete, url: self.entry_url(key), query: None, body: Body::Empty }
    }

    /// Ends a DELETE request.
    pub fn delete_sent<E>(sent: Result<u16, E>) -> (done: Result<(), Fault<E>>)
        ensures
            done == exchange::outcome(sent, Context::DeleteRequest, Context::DeleteStatus),
            match sent {
                Ok(status) => {
                    &&& done is Ok <==> status < 400 || status >= 600
                    &&& done matches Err(fault) ==> fault == (Fault::<E>::Status {
                        context: Context::DeleteStatus,
                        status,
                    })
                },
                Err(cause) => done matches Err(fault) && fault == (Fault::Failed {
                    context: Context::DeleteRequest,
                    cause,
                }),
            },
    {
        exchange::judge(sent, Context::DeleteRequest, Context::DeleteStatus)
    }

    /// Asks for the keys that begin with `prefix`.
    pub fn list_keys(&self, prefix: &str) -> (request: Request)
        ensures
            request@ == list_keys_request(self.base_url@, prefix@),
            request.method == Method::Get,
            request.url@ == self.base_url@ + "/v1/kv"@,
            request.query matches Some((name, text)) && name@ == "prefix"@ && text@ == prefix@,
            request.body is Empty,
    {
        let mut url = self.base_url.clone();
        url.append("/v1/kv");
        Request {
            method: Method::Get,
            url,
            query: Some(("prefix".to_owned(), prefix.to_owned())),
            body: Body::Empty,
        }
    }

    /// Goes on with a request for keys. Here 404 is an error like any other.
    pub fn list_keys_sent<E>(sent: Result<u16, E>) -> (step: ListKeysStep<E>)
        ensures
            match exchange::outcome(sent, Context::ListKeysRequest, Context::ListKeysStatus) {
                Ok(()) => step == ListKeysStep::<E>::ReadBody,
                Err(fault) => step == ListKeysStep::Failed(fault),
            },
            match sent {
                Ok(status) => {
                    &&& step is ReadBody <==> status < 400 || status >= 600
                    &&& step matches ListKeysStep::Failed(fault) ==> fault == (Fault::<E>::Status {
                        context: Context::ListKeysStatus,
                        status,
                    })
                },
                Err(cause) => step == ListKeysStep::Failed(
                    Fault::Failed { context: Context::ListKeysRequest, cause },
                ),
            },
    {
        match exchange::judge(sent, Context::ListKeysRequest, Context::ListKeysStatus) {
            Ok(()) => ListKeysStep::ReadBody,
            Err(fault) => ListKeysStep::Failed(fault),
        }
    }

    /// Ends a request for keys: `body` is the keys read out of the response's
    /// body, or why there are none in it.
    pub fn list_keys_read<E>(body: Result<Vec<String>, E>) -> (keys: Result<
        Vec<String>,
        Fault<E>,
    >)
        ensures
            match body {
                Ok(read) => keys == Ok::<Vec<String>, Fault<E>>(read),
                Err(cause) => keys == Err::<Vec<String>, Fault<E>>(
                    Fault::Failed { context: Context::ListKeysDecode, cause },
                ),
            },
    {
        match body {
            Ok(read) => Ok(read),
            Err(cause) => Err(Fault::Failed { context: Context::ListKeysDecode, cause }),
        }
    }
}

/// A GET ends as a miss on account of its status if and only if the status is 404.
/// Every other status from 400 to 599 is a fault that carries the status, and with
/// every status outside of that range the body is read.
pub proof fn law_only_404_is_a_miss<E>(status: u16, step: GetStep<E>)
    requires
        call_ensures(B00tSoulClient::get_sent::<E>, (Ok::<u16, E>(status),), step),
    ensures
        step == GetStep::<E>::Done(Ok(None)) <==> status == 404,
        step is ReadBody <==> status < 400 || status >= 600,
        400 <= status < 404 || 404 < status < 600 ==> step == GetStep::<E>::Done(
            Err(Fault::Status { context: Context::GetStatus, status }),
        ),
{
}

/// The same of the step that a status leads to: a miss is 404 and nothing else.
pub proof fn law_get_step_by_status<E>(status: u16)
    ensures
        get_step::<E>(Ok(404)) == GetStep::<E>::Done(Ok(None)),
        status != 404 ==> get_step::<E>(Ok(status)) != GetStep::<E>::Done(Ok(None)),
        get_step::<E>(Ok(status)) is ReadBody <==> status < 400 || status >= 600,
        get_step::<E>(Ok(status)) matches GetStep::Done(Err(fault)) ==> fault == (Fault::<
            E,
        >::Status { context: Context::GetStatus, status }),
{
}

/// Storing and removing succeed, and keys are read, if and only if the status of
/// the response is below 400 or at least 600: one status means the same to all of
/// them.
pub proof fn law_other_requests_judge_alike<E>(
    status: u16,
    stored: Result<(), Fault<E>>,
    removed: Result<(), Fault<E>>,
    listed: ListKeysStep<E>,
)
    requires
        call_ensures(B00tSoulClient::put_sent::<E>, (Ok::<u16, E>(status),), stored),
        call_ensures(B00tSoulClient::delete_sent::<E>, (Ok::<u16, E>(status),), removed),
        call_ensures(B00tSoulClient::list_keys_sent::<E>, (Ok::<u16, E>(status),), listed),
    ensures
        stored is Ok <==> status < 400 || status >= 600,
        removed is Ok <==> stored is Ok,
        listed is ReadBody <==> stored is Ok,
        400 <= status < 600 ==> {
            &&& stored == Err::<(), Fault<E>>(
                Fault::Status { context: Context::PutStatus, status },
            )
            &&& removed == Err::<(), Fault<E>>(
                Fault::Status { context: Context::DeleteStatus, status },
            )
            &&& listed == ListKeysStep::<E>::Failed(
                Fault::Status { context: Context::ListKeysStatus, status },
            )
        },
{
}

/// The request to store a value carries that value whole, and nothing else, and
/// goes to the URL at which the value is asked for and removed.
pub proof fn law_put_carries_the_value(
    client: B00tSoulClient,
    key: &str,
    value: &str,
    put: Request,
    get: Request,
    delete: Request,
)
    requires
        call_ensures(B00tSoulClient::put, (&client, key, value), put),
        call_ensures(B00tSoulClient::get, (&client, key), get),
        call_ensures(B00tSoulClient::delete, (&client, key), delete),
    ensures
        put.body matches Body::Value { value: sent } && sent@ == value@,
        get.body is Empty && delete.body is Empty,
        put.url@ == get.url@ && delete.url@ == get.url@,
        put.method is Put && get.method is Get && delete.method is Delete,
        put.query is None && get.query is None && delete.query is None,
        client.base_url@.is_prefix_of(get.url@),
        escaped(key@).is_suffix_of(get.url@),
        get.url@.len() == client.base_url@.len() + 7 + escaped(key@).len(),
{
    reveal_strlit("/v1/kv/");
    assert(client.base_url@ =~= get.url@.take(client.base_url@.len() as int));
    assert(escaped(key@) =~= get.url@.skip(get.url@.len() - escaped(key@).len()));
}

/// The request for keys carries the prefix whole, whatever it holds, and goes to one
/// URL for all prefixes.
pub proof fn law_list_keys_carries_the_prefix(
    client: B00tSoulClient,
    p1: &str,
    p2: &str,
    a: Request,
    b: Request,
)
    requires
        call_ensures(B00tSoulClient::list_keys, (&client, p1), a),
        call_ensures(B00tSoulClient::list_keys, (&client, p2), b),
    ensures
        a.query matches Some((name, text)) && name@ == "prefix"@ && text@ == p1@,
        a.url@ == b.url@,
        client.base_url@.is_prefix_of(a.url@),
        a.method is Get,
        a.body is Empty,
{
    assert(client.base_url@ =~= a.url@.take(client.base_url@.len() as int));
}

/// A key is encoded character by character: what two keys are encoded as, one
/// behind the other, is what the two keys as one are encoded as.
pub proof fn law_escaped_of_joined_keys(a: Seq<char>, b: Seq<char>)
    ensures
        escaped(a + b) == escaped(a) + escaped(b),
    decreases b.len(),
{
    if b.len() == 0 {
        assert(a + b =~= a);
        assert(escaped(a) + escaped(b) =~= escaped(a));
    } else {
        law_escaped_of_joined_keys(a, b.drop_last());
        assert((a + b).drop_last() =~= a + b.drop_last());
        assert(escaped(a + b) =~= escaped(a) + escaped(b));
    }
}

/// The value of an upper-case hexadecimal digit.
pub open spec fn hex_value(digit: char) -> int {
    if digit <= '9' {
        digit as int - 48
    } else {
        digit as int - 55
    }
}

/// Of a key of one character: `/`, `\`, `:`, `?`, `#` and `%` are encoded as `%` and
/// the two hexadecimal digits of the character's code, and every other character
/// stands for itself.
pub proof fn law_escaped_of_one_character(c: char)
    ensures
        ({
            let path = escaped(seq![c]);
            if c == '/' || c == '\\' || c == ':' || c == '?' || c == '#' || c == '%' {
                &&& path.len() == 3
                &&& path[0] == '%'
                &&& '2' <= path[1] <= '5'
                &&& '0' <= path[2] <= '9' || 'A' <= path[2] <= 'F'
                &&& 16 * hex_value(path[1]) + hex_value(path[2]) == c as int
            } else {
                path == seq![c]
            }
        }),
{
    assert(seq![c].drop_last() =~= Seq::<char>::empty());
    assert(escaped(Seq::<char>::empty()) =~= Seq::<char>::empty());
    assert(escaped(seq![c]) =~= escape(c));
}

/// Reading, storing and removing an entry go to the same URL, which is that of no
/// request for keys.
pub proof fn law_one_url_per_entry(base_url: Seq<char>, key: Seq<char>, value: Seq<char>)
    ensures
        get_request(base_url, key).url == put_request(base_url, key, value).url,
        get_request(base_url, key).url == delete_request(base_url, key).url,
        forall|prefix: Seq<char>|
            get_request(base_url, key).url != (#[trigger] list_keys_request(base_url, prefix)).url,
{
    reveal_strlit("/v1/kv/");
    reveal_strlit("/v1/kv");
    assert(entry_url(base_url, key).len() > (base_url + "/v1/kv"@).len());
}

/// A key is a single segment of the URL's text: no reserved character is left in
/// it, but for the `%` of the encoded ones.
pub proof fn law_escaped_holds_nothing_reserved(key: Seq<char>)
    ensures
        !escaped(key).contains('/'),
        !escaped(key).contains('\\'),
        !escaped(key).contains(':'),
        !escaped(key).contains('?'),
        !escaped(key).contains('#'),
    decreases key.len(),
{
    if key.len() > 0 {
        let rest = escaped(key.drop_last());
        law_escaped_holds_nothing_reserved(key.drop_last());
        assert forall|i: int| 0 <= i < escaped(key).len() implies !is_reserved(
            #[trigger] escaped(key)[i],
        ) || escaped(key)[i] == '%' by {
            if i < rest.len() {
                assert(escaped(key)[i] == rest[i]);
                assert(rest.contains(rest[i]));
            } else {
                assert(escaped(key)[i] == escape(key.last())[i - rest.len()]);
            }
        }
    }
}

/// A key without reserved characters stands in the URL as it is.
pub proof fn law_escaped_keeps_plain_key(key: Seq<char>)
    requires
        forall|i: int| 0 <= i < key.len() ==> !is_reserved(#[trigger] key[i]),
    ensures
        escaped(key) == key,
    decreases key.len(),
{
    if key.len() > 0 {
        assert(!is_reserved(key[key.len() - 1]));
        assert forall|i: int| 0 <= i < key.drop_last().len() implies !is_reserved(
            #[trigger] key.drop_last()[i],
        ) by {
            assert(!is_reserved(key[i]));
        }
        law_escaped_keeps_plain_key(key.drop_last());
    }
    assert(escaped(key) =~= key);
}

/// Different keys have entries at different URLs.
pub proof fn law_entries_apart(base_url: Seq<char>, a: Seq<char>, b: Seq<char>)
    ensures
        entry_url(base_url, a) == entry_url(base_url, b) ==> a == b,
{
    if entry_url(base_url, a) == entry_url(base_url, b) {
        let head = base_url + "/v1/kv/"@;
        assert(entry_url(base_url, a).skip(head.len() as int) =~= escaped(a));
        assert(entry_url(base_url, b).skip(head.len() as int) =~= escaped(b));
        lemma_escaped_injective(a, b);
    }
}

proof fn lemma_escaped_injective(a: Seq<char>, b: Seq<char>)
    requires
        escaped(a) == escaped(b),
    ensures
        a == b,
    decreases a.len(),
{
    lemma_escaped_is_no_shorter(a);
    lemma_escaped_is_no_shorter(b);
    if a.len() == 0 || b.len() == 0 {
        assert(escaped(Seq::<char>::empty()).len() == 0);
        assert(a.len() == 0 ==> a =~= Seq::<char>::empty());
        assert(b.len() == 0 ==> b =~= Seq::<char>::empty());
        assert(escaped(a).len() == 0);
        assert(a.len() == 0 && b.len() == 0);
        assert(a =~= b);
    } else {
        lemma_escaped_first(a);
        lemma_escaped_first(b);
        let (x, y) = (escaped(a), escaped(b));
        let (p, q) = (escape(a[0]), escape(b[0]));
        assert(x[0] == p[0] && y[0] == q[0]);
        assert(p.len() == q.len());
        assert(p.len() == 3 ==> x[1] == p[1] && x[2] == p[2] && y[1] == q[1] && y[2] == q[2]);
        assert(a[0] == b[0]);
        assert(x.skip(p.len() as int) =~= escaped(a.drop_first()));
        assert(y.skip(q.len() as int) =~= escaped(b.drop_first()));
        lemma_escaped_injective(a.drop_first(), b.drop_first());
        assert(a =~= seq![a[0]] + a.drop_first());
        assert(b =~= seq![b[0]] + b.drop_first());
    }
}

proof fn lemma_escaped_is_no_shorter(key: Seq<char>)
    ensures
        escaped(key).len() >= key.len(),
    decreases key.len(),
{
    if key.len() > 0 {
        lemma_escaped_is_no_shorter(key.drop_last());
        assert(escape(key.last()).len() >= 1);
    }
}

proof fn lemma_escaped_first(key: Seq<char>)
    requires
        key.len() > 0,
    ensures
        escaped(key) == escape(key[0]) + escaped(key.drop_first()),
    decreases key.len(),
{
    if key.len() == 1 {
        assert(key.drop_last() =~= Seq::empty());
        assert(key.drop_first() =~= Seq::empty());
        assert(escaped(key) =~= escape(key[0]) + escaped(key.drop_first()));
    } else {
        lemma_escaped_first(key.drop_last());
        assert(key.drop_last().drop_first() =~= key.drop_first().drop_last());
        assert(escaped(key) =~= escape(key[0]) + escaped(key.drop_first()));
    }
}

} // verus!
