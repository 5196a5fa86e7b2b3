//! The embedding cache: kept in the soul server's key/value store, and mirrored
//! in the local store.
//!
//! The local store answers where the soul server cannot, unless the shim is
//! strict. The library holds the decisions: it gives the request to send, is told
//! what became of it, and says what to do next.

use crate::base64_codec;
use crate::client;
use crate::client::B00tSoulClient;
use crate::client::GetStep;
use crate::embedding;
use crate::embedding::EmbeddingError;
use crate::embedding::MAX_EMBEDDING_LEN;
use crate::exchange::Body;
use crate::exchange::BodyView;
use crate::exchange::Context;
use crate::exchange::Fault;
use crate::exchange::Method;
use crate::exchange::Request;
use crate::exchange::DEFAULT_B00T_SOUL_URL;
use crate::exchange::NOT_FOUND;
use vstd::prelude::*;

verus! {

/// What every key of the embedding cache begins with.
pub const CACHE_NS: &'static str = "moltis:emb_cache:";

/// Why an operation on the embedding cache failed.
#[derive(Debug, PartialEq, Eq)]
pub enum ShimError<E> {
    /// The soul server could not be asked, or refused.
    Soul(Fault<E>),
    /// What the soul server holds is no embedding.
    Embedding(EmbeddingError),
}

/// What to do once the soul server was asked for an embedding.
#[derive(Debug, PartialEq, Eq)]
pub enum GetEmbeddingStep<E> {
    /// The operation is over.
    Done(Result<Option<Vec<u32>>, ShimError<E>>),
    /// Return what the local store answers, the soul server having failed.
    AskLocal(Fault<E>),
}

/// What to do once the soul server was told to store an embedding.
#[derive(Debug, PartialEq, Eq)]
pub enum PutEmbeddingStep<E> {
    /// Store the embedding in the local store, and return what came of that. If
    /// the soul server failed, this is how.
    WriteLocal(Option<Fault<E>>),
    /// The operation failed.
    Failed(ShimError<E>),
}

/// An embedding to store.
#[derive(Debug, Clone, Copy, PartialEq, Eq)]
pub struct CacheEntry<'a> {
    pub provider: &'a str,
    pub model: &'a str,
    /// Known to the local store only.
    pub provider_key: &'a str,
    pub hash: &'a str,
    pub embedding: &'a [u32],
}

/// The key of an entry of the embedding cache.
pub open spec fn key_of(provider: Seq<char>, model: Seq<char>, hash: Seq<char>) -> Seq<char> {
    CACHE_NS@ + provider + seq![':'] + model + seq![':'] + hash
}

/// What a cached text is read as.
pub open spec fn reading<E>(text: Seq<char>) -> Result<Option<Seq<u32>>, ShimError<E>> {
    match embedding::text_embedding(text) {
        Ok(words) => Ok(Some(words)),
        Err(error) => Err(ShimError::Embedding(error)),
    }
}

/// Whether a step is the end of a lookup, with the given result.
pub open spec fn ends_with<E>(
    step: GetEmbeddingStep<E>,
    result: Result<Option<Seq<u32>>, ShimError<E>>,
) -> bool {
    match (step, result) {
        (GetEmbeddingStep::Done(Ok(Some(v))), Ok(Some(words))) => v@ == words,
        (GetEmbeddingStep::Done(Ok(None)), Ok(None)) => true,
        (GetEmbeddingStep::Done(Err(e)), Err(error)) => e == error,
        _ => false,
    }
}

/// What to do once the soul server was asked for an embedding. A text that is no
/// embedding is an error, with the fallback and without it.
pub open spec fn is_get_step<E>(
    fallback_on_error: bool,
    soul: Result<Option<Seq<char>>, Fault<E>>,
    step: GetEmbeddingStep<E>,
) -> bool {
    match soul {
        Ok(Some(text)) => ends_with(step, reading(text)),
        Ok(None) => ends_with(step, Ok(None)),
        Err(fault) => if fallback_on_error {
            step == GetEmbeddingStep::AskLocal(fault)
        } else {
            ends_with(step, Err(ShimError::Soul(fault)))
        },
    }
}

/// What to do once the soul server was told to store an embedding.
pub open spec fn put_step<E>(
    fallback_on_error: bool,
    soul: Result<(), Fault<E>>,
) -> PutEmbeddingStep<E> {
    match soul {
        Ok(()) => PutEmbeddingStep::WriteLocal(None),
        Err(fault) => if fallback_on_error {
            PutEmbeddingStep::WriteLocal(Some(fault))
        } else {
            PutEmbeddingStep::Failed(ShimError::Soul(fault))
        },
    }
}

/// What the soul server holds at a key: a text, or nothing.
pub open spec fn held<E>(soul: Result<Option<String>, Fault<E>>) -> Result<
    Option<Seq<char>>,
    Fault<E>,
> {
    match soul {
        Ok(Some(text)) => Ok(Some(text@)),
        Ok(None) => Ok(None),
        Err(fault) => Err(fault),
    }
}

/// The canonical key of an entry of the embedding cache.
pub fn cache_key(provider: &str, model: &str, hash: &str) -> (key: String)
    ensures
        key@ == key_of(provider@, model@, hash@),
        key@ == CACHE_NS@ + provider@ + seq![':'] + model@ + seq![':'] + hash@,
{
    let mut key = CACHE_NS.to_owned();
    key.append(provider);
    key.push(':');
    key.append(model);
    key.push(':');
    key.append(hash);
    assert(key@ =~= key_of(provider@, model@, hash@));
    key
}

/// The embedding cache's side of the soul server.
pub struct B00tSoulShim {
    pub soul: B00tSoulClient,
    /// Whether the local store steps in for a soul server that fails.
    pub fallback_on_error: bool,
}

impl B00tSoulShim {
    /// A shim for the soul server at its default address, with the local store to
    /// fall back to.
    pub fn new() -> (shim: Self)
        ensures
            shim.soul.base_url@ == DEFAULT_B00T_SOUL_URL@,
            shim.soul.timeout_secs == client::KV_TIMEOUT_SECS,
            shim.fallback_on_error,
    {
        B00tSoulShim::with_soul_url(DEFAULT_B00T_SOUL_URL)
    }

    /// A shim for the soul server at `soul_url`, with the local store to fall back
    /// to.
    pub fn with_soul_url(soul_url: &str) -> (shim: Self)
        ensures
            shim.soul.base_url@ == soul_url@,
            shim.soul.timeout_secs == client::KV_TIMEOUT_SECS,
            shim.fallback_on_error,
    {
        B00tSoulShim { soul: B00tSoulClient::new(soul_url), fallback_on_error: true }
    }

    /// The same shim without the fallback: what fails at the soul server fails.
    #[must_use]
    pub fn strict(self) -> (shim: Self)
        ensures
            shim.soul == self.soul,
            !shim.fallback_on_error,
    {
        B00tSoulShim { soul: self.soul, fallback_on_error: false }
    }

    /// Looks an embedding up: asks the soul server for it first.
    pub fn soul_get_embedding(&self, provider: &str, model: &str, hash: &str) -> (request: Request)
        ensures
            request@ == client::get_request(
                self.soul.base_url@,
                key_of(provider@, model@, hash@),
            ),
            request.method == Method::Get,
            request.url@ == self.soul.base_url@ + "/v1/kv/"@ + client::escaped(
                CACHE_NS@ + provider@ + seq![':'] + model@ + seq![':'] + hash@,
            ),
            request.query is None,
            request.body is Empty,
    {
        let key = cache_key(provider, model, hash);
        self.soul.get(key.as_str())
    }

    /// Goes on with a lookup: `soul` is what the soul server holds, or why it
    /// could not be asked.
    pub fn soul_got<E>(&self, soul: Result<Option<String>, Fault<E>>) -> (step: GetEmbeddingStep<E>)
        ensures
            is_get_step(self.fallback_on_error, held(soul), step),
            match soul {
                Ok(Some(text)) => match step {
                    GetEmbeddingStep::Done(Ok(Some(v))) => exists|bytes: Seq<u8>| #[trigger]
                        base64_codec::base64_text(bytes) == text@ && v@
                            == embedding::bytes_embedding(bytes),
                    GetEmbeddingStep::Done(Err(ShimError::Embedding(error))) => {
                        &&& forall|bytes: Seq<u8>| #[trigger]
                            base64_codec::base64_text(bytes) != text@
                        &&& error == EmbeddingError::Base64(base64_codec::base64_fault(text@))
                    },
                    _ => false,
                },
                Ok(None) => step == GetEmbeddingStep::<E>::Done(Ok(None)),
                Err(fault) => if self.fallback_on_error {
                    step == GetEmbeddingStep::AskLocal(fault)
                } else {
                    step == GetEmbeddingStep::Done(Err(ShimError::Soul(fault)))
                },
            },
    {
        match soul {
            Ok(Some(text)) => B00tSoulShim::soul_decoded(
                embedding::decode_embedding(text.as_str()),
            ),
            Ok(None) => GetEmbeddingStep::Done(Ok(None)),
            Err(fault) => if self.fallback_on_error {
                GetEmbeddingStep::AskLocal(fault)
            } else {
                GetEmbeddingStep::Done(Err(ShimError::Soul(fault)))
            },
        }
    }

    /// Ends a lookup whose text was decoded.
    pub fn soul_decoded<E>(decoded: Result<Vec<u32>, EmbeddingError>) -> (step: GetEmbeddingStep<E>)
        ensures
            match decoded {
                Ok(v) => step == GetEmbeddingStep::<E>::Done(Ok(Some(v))),
                Err(error) => step == GetEmbeddingStep::<E>::Done(
                    Err(ShimError::Embedding(error)),
                ),
            },
    {
        match decoded {
            Ok(v) => GetEmbeddingStep::Done(Ok(Some(v))),
            Err(error) => GetEmbeddingStep::Done(Err(ShimError::Embedding(error))),
        }
    }

    /// Stores an embedding: tells the soul server first. The request goes to the
    /// URL at which a lookup asks, and the lookup reads the stored text back as
    /// the same embedding.
    pub fn soul_put_embedding(
        &self,
        provider: &str,
        model: &str,
        hash: &str,
        embedding: &[u32],
    ) -> (request: Request)
        requires
            embedding@.len() <= MAX_EMBEDDING_LEN,
        ensures
            request@ == client::put_request(
                self.soul.base_url@,
                key_of(provider@, model@, hash@),
                embedding::embedding_text(embedding@),
            ),
            request@.url == client::get_request(
                self.soul.base_url@,
                key_of(provider@, model@, hash@),
            ).url,
            request@.body matches BodyView::Value { value } && embedding::text_embedding(value)
                == Ok::<Seq<u32>, EmbeddingError>(embedding@),
            request.method == Method::Put,
            request.url@ == self.soul.base_url@ + "/v1/kv/"@ + client::escaped(
                CACHE_NS@ + provider@ + seq![':'] + model@ + seq![':'] + hash@,
            ),
            request.query is None,
            request.body matches Body::Value { value } && value@ == base64_codec::base64_text(
                embedding::embedding_bytes(embedding@),
            ),
    {
        let key = cache_key(provider, model, hash);
        let encoded = embedding::encode_embedding(embedding);
        self.soul.put(key.as_str(), encoded.as_str())
    }

    /// Goes on with storing an embedding: `soul` is what came of telling the soul
    /// server. The embedding goes to the local store too, so that the search there
    /// knows it.
    pub fn soul_put<E>(&self, soul: Result<(), Fault<E>>) -> (step: PutEmbeddingStep<E>)
        ensures
            step == put_step(self.fallback_on_error, soul),
            soul is Ok ==> step == PutEmbeddingStep::<E>::WriteLocal(None),
            soul matches Err(fault) ==> step == if self.fallback_on_error {
                PutEmbeddingStep::WriteLocal(Some(fault))
            } else {
                PutEmbeddingStep::Failed(ShimError::Soul(fault))
            },
    {
        match soul {
            Ok(()) => PutEmbeddingStep::WriteLocal(None),
            Err(fault) => if self.fallback_on_error {
                PutEmbeddingStep::WriteLocal(Some(fault))
            } else {
                PutEmbeddingStep::Failed(ShimError::Soul(fault))
            },
        }
    }

    /// Stores a batch of embeddings: the requests to the soul server, one for each
    /// entry, in the order of the batch. A lookup reads each stored text back as the
    /// entry's embedding.
    pub fn batch_requests(&self, entries: &[CacheEntry<'_>]) -> (requests: Vec<Request>)
        requires
            forall|i: int|
                0 <= i < entries@.len() ==> (#[trigger] entries@[i]).embedding@.len()
                    <= MAX_EMBEDDING_LEN,
        ensures
            requests@.len() == entries@.len(),
            forall|i: int|
                0 <= i < entries@.len() ==> (#[trigger] requests@[i])@ == client::put_request(
                    self.soul.base_url@,
                    key_of(entries@[i].provider@, entries@[i].model@, entries@[i].hash@),
                    embedding::embedding_text(entries@[i].embedding@),
                ),
            forall|i: int|
                0 <= i < entries@.len() ==> embedding::text_embedding(
                    embedding::embedding_text((#[trigger] entries@[i]).embedding@),
                ) == Ok::<Seq<u32>, EmbeddingError>(entries@[i].embedding@),
            forall|i: int|
                0 <= i < entries@.len() ==> (#[trigger] requests@[i]).method == Method::Put
                    && requests@[i].url@ == self.soul.base_url@ + "/v1/kv/"@ + client::escaped(
                    CACHE_NS@ + entries@[i].provider@ + seq![':'] + entries@[i].model@ + seq![':']
                        + entries@[i].hash@,
                ) && requests@[i].query is None && (requests@[i].body matches Body::Value { value }
                    && value@ == base64_codec::base64_text(
                    embedding::embedding_bytes(entries@[i].embedding@),
                )),
    {
        let mut requests: Vec<Request> = Vec::new();
        for i in 0..entries.len()
            invariant
                forall|j: int|
                    0 <= j < entries@.len() ==> (#[trigger] entries@[j]).embedding@.len()
                        <= MAX_EMBEDDING_LEN,
                requests@.len() == i,
                forall|j: int|
                    0 <= j < i ==> (#[trigger] requests@[j])@ == client::put_request(
                        self.soul.base_url@,
                        key_of(entries@[j].provider@, entries@[j].model@, entries@[j].hash@),
                        embedding::embedding_text(entries@[j].embedding@),
                    ),
                forall|j: int|
                    0 <= j < i ==> embedding::text_embedding(
                        embedding::embedding_text((#[trigger] entries@[j]).embedding@),
                    ) == Ok::<Seq<u32>, EmbeddingError>(entries@[j].embedding@),
                forall|j: int|
                    0 <= j < i ==> (#[trigger] requests@[j]).method == Method::Put
                        && requests@[j].url@ == self.soul.base_url@ + "/v1/kv/"@ + client::escaped(
                        CACHE_NS@ + entries@[j].provider@ + seq![':'] + entries@[j].model@ + seq![':']
                            + entries@[j].hash@,
                    ) && requests@[j].query is None && (requests@[j].body matches Body::Value { value }
                        && value@ == base64_codec::base64_text(
                        embedding::embedding_bytes(entries@[j].embedding@),
                    )),
        {
            let entry = &entries[i];
            assert(entries@[i as int].embedding@.len() <= MAX_EMBEDDING_LEN);
            requests.push(
                self.soul_put_embedding(entry.provider, entry.model, entry.hash, entry.embedding),
            );
        }
        requests
    }

    /// What came of storing a batch of embeddings: the first error in the order of
    /// the batch, if there is one.
    pub fn put_cached_embeddings_batch<X>(results: Vec<Result<(), X>>) -> (done: Result<(), X>)
        ensures
            match done {
                Ok(()) => forall|i: int| 0 <= i < results@.len() ==> results@[i] is Ok,
                Err(error) => exists|i: int|
                    0 <= i < results@.len() && results@[i] == Err::<(), X>(error) && forall|j: int|
                        0 <= j < i ==> results@[j] is Ok,
            },
    {
        let ghost all = results@;
        for result in it: results
            invariant
                it.seq() == all,
                forall|j: int| 0 <= j < it.index() ==> all[j] is Ok,
        {
            if let Err(error) = result {
                return Err(error);
            }
        }
        Ok(())
    }
}

/// With the fallback, every 4xx or 5xx answer to a lookup but 404 leads to asking the
/// local store; without it, to an error. Either way the fault carries the status. A 404
/// is a miss, with the fallback and without it.
pub proof fn law_status_of_a_lookup<E>(
    shim: B00tSoulShim,
    status: u16,
    sent: GetStep<E>,
    step: GetEmbeddingStep<E>,
)
    requires
        400 <= status < 600,
        call_ensures(B00tSoulClient::get_sent::<E>, (Ok::<u16, E>(status),), sent),
        call_ensures(B00tSoulShim::soul_got::<E>, (&shim, sent->Done_0), step),
    ensures
        sent is Done,
        status == 404 ==> step == GetEmbeddingStep::<E>::Done(Ok(None)),
        status != 404 ==> ({
            let fault = Fault::<E>::Status { context: Context::GetStatus, status };
            step == if shim.fallback_on_error {
                GetEmbeddingStep::AskLocal(fault)
            } else {
                GetEmbeddingStep::Done(Err(ShimError::Soul(fault)))
            }
        }),
{
}

/// A strict shim takes an embedding as stored only if the server answered with no 4xx
/// or 5xx; on such an answer the store fails with that status. With the fallback the
/// embedding goes to the local store whatever the status, and the fault goes with it.
pub proof fn law_status_of_a_store<E>(
    shim: B00tSoulShim,
    status: u16,
    sent: Result<(), Fault<E>>,
    step: PutEmbeddingStep<E>,
)
    requires
        call_ensures(B00tSoulClient::put_sent::<E>, (Ok::<u16, E>(status),), sent),
        call_ensures(B00tSoulShim::soul_put::<E>, (&shim, sent), step),
    ensures
        status < 400 || status >= 600 ==> step == PutEmbeddingStep::<E>::WriteLocal(None),
        400 <= status < 600 ==> ({
            let fault = Fault::<E>::Status { context: Context::PutStatus, status };
            step == if shim.fallback_on_error {
                PutEmbeddingStep::WriteLocal(Some(fault))
            } else {
                PutEmbeddingStep::Failed(ShimError::Soul(fault))
            }
        }),
{
}

/// What a store sends, a lookup that gets it back ends with, number by number, with the
/// fallback and without it. Both go to one URL.
pub proof fn law_lookup_returns_the_stored_embedding<E>(
    shim: B00tSoulShim,
    provider: &str,
    model: &str,
    hash: &str,
    words: &[u32],
    put: Request,
    get: Request,
    step: GetEmbeddingStep<E>,
)
    requires
        words@.len() <= MAX_EMBEDDING_LEN,
        call_ensures(
            B00tSoulShim::soul_put_embedding,
            (&shim, provider, model, hash, words),
            put,
        ),
        call_ensures(B00tSoulShim::soul_get_embedding, (&shim, provider, model, hash), get),
        call_ensures(
            B00tSoulShim::soul_got::<E>,
            (&shim, Ok::<Option<String>, Fault<E>>(Some(put.body->value))),
            step,
        ),
    ensures
        put.url@ == get.url@,
        put.method is Put && get.method is Get,
        put.body is Value && get.body is Empty,
        step matches GetEmbeddingStep::Done(Ok(Some(v))) && v@ == words@,
{
    let bytes = embedding::embedding_bytes(words@);
    base64_codec::law_base64_gives_bytes_back(bytes);
    embedding::law_bytes_give_embedding_back(words@);
}

/// Storing a batch sends, for each entry and in the order of the batch, what storing
/// that entry alone sends.
pub proof fn law_batch_sends_what_single_stores_send(
    shim: B00tSoulShim,
    entries: &[CacheEntry<'_>],
    requests: Vec<Request>,
    at: int,
    single: Request,
)
    requires
        forall|i: int|
            0 <= i < entries@.len() ==> (#[trigger] entries@[i]).embedding@.len()
                <= MAX_EMBEDDING_LEN,
        call_ensures(B00tSoulShim::batch_requests, (&shim, entries), requests),
        0 <= at < entries@.len(),
        call_ensures(
            B00tSoulShim::soul_put_embedding,
            (
                &shim,
                entries@[at].provider,
                entries@[at].model,
                entries@[at].hash,
                entries@[at].embedding,
            ),
            single,
        ),
    ensures
        requests@.len() == entries@.len(),
        requests@[at]@ == single@,
        requests@[at].url@ == single.url@,
        requests@[at].body is Value && requests@[at].body->value@ == single.body->value@,
{
}

/// A batch is stored if and only if each of its entries is; else it fails as the first
/// of those that failed did.
pub proof fn law_batch_fails_as_its_first_failure<X>(
    results: Vec<Result<(), X>>,
    first: int,
    done: Result<(), X>,
)
    requires
        call_ensures(B00tSoulShim::put_cached_embeddings_batch::<X>, (results,), done),
        0 <= first <= results@.len(),
        forall|j: int| 0 <= j < first ==> #[trigger] results@[j] is Ok,
        first < results@.len() ==> results@[first] is Err,
    ensures
        first == results@.len() <==> done is Ok,
        first < results@.len() ==> done == Err::<(), X>(results@[first]->Err_0),
{
    if let Err(error) = done {
        let i = choose|i: int|
            0 <= i < results@.len() && results@[i] == Err::<(), X>(error) && forall|j: int|
                0 <= j < i ==> results@[j] is Ok;
        assert(i == first) by {
            assert(results@[i] is Err);
        }
    }
}

/// A key holds the namespace, the provider, the model and the hash whole and in this
/// order, whatever is in them, with a `:` before the model and before the hash.
pub proof fn law_key_spelled_out(provider: &str, model: &str, hash: &str, key: String)
    requires
        call_ensures(cache_key, (provider, model, hash), key),
    ensures
        ({
            let p = CACHE_NS@.len() as int;
            let m = p + provider@.len() + 1;
            let h = m + model@.len() + 1;
            &&& key@.len() == h + hash@.len()
            &&& key@.subrange(0, p) == CACHE_NS@
            &&& key@.subrange(p, m - 1) == provider@
            &&& key@[m - 1] == ':'
            &&& key@.subrange(m, h - 1) == model@
            &&& key@[h - 1] == ':'
            &&& key@.skip(h) == hash@
        }),
{
    let p = CACHE_NS@.len() as int;
    let m = p + provider@.len() + 1;
    let h = m + model@.len() + 1;
    assert(key@.subrange(0, p) =~= CACHE_NS@);
    assert(key@.subrange(p, m - 1) =~= provider@);
    assert(key@.subrange(m, h - 1) =~= model@);
    assert(key@.skip(h) =~= hash@);
}

/// Keys grow with their hash: what is added to the end of the hash is added to the end
/// of the key.
pub proof fn law_key_of_longer_hash(
    provider: Seq<char>,
    model: Seq<char>,
    hash: Seq<char>,
    more: Seq<char>,
)
    ensures
        key_of(provider, model, hash + more) == key_of(provider, model, hash) + more,
        key_of(provider, model, hash).len() == CACHE_NS@.len() + provider.len() + model.len()
            + hash.len() + 2,
{
    assert(key_of(provider, model, hash + more) =~= key_of(provider, model, hash) + more);
}

/// A lookup finds what was stored. It asks at the URL to which the embedding was
/// sent, and where the server answers with the text that was sent, the lookup ends
/// with the embedding, with the fallback and without it.
pub proof fn law_lookup_finds_what_was_stored<E>(
    base_url: Seq<char>,
    key: Seq<char>,
    words: Seq<u32>,
    fallback_on_error: bool,
    step: GetEmbeddingStep<E>,
)
    requires
        is_get_step(fallback_on_error, Ok(Some(embedding::embedding_text(words))), step),
    ensures
        client::get_request(base_url, key).url == client::put_request(
            base_url,
            key,
            embedding::embedding_text(words),
        ).url,
        step matches GetEmbeddingStep::Done(Ok(Some(v))) && v@ == words,
{
    embedding::law_text_gives_embedding_back(words);
}

/// With the fallback, no failure of the soul server reaches the caller of a
/// lookup: the local store is asked whenever the server failed, and only then.
pub proof fn law_fallback_lookup_hides_soul_faults<E>(
    soul: Result<Option<Seq<char>>, Fault<E>>,
    step: GetEmbeddingStep<E>,
)
    requires
        is_get_step(true, soul, step),
    ensures
        step is AskLocal <==> soul is Err,
        !(step matches GetEmbeddingStep::Done(Err(ShimError::Soul(_)))),
{
}

/// A strict lookup never asks the local store, and hands the soul server's failure
/// on as it is.
pub proof fn law_strict_lookup_propagates<E>(
    soul: Result<Option<Seq<char>>, Fault<E>>,
    step: GetEmbeddingStep<E>,
)
    requires
        is_get_step(false, soul, step),
    ensures
        step is Done,
        soul matches Err(fault) ==> step == GetEmbeddingStep::Done(Err(ShimError::Soul(fault))),
{
}

/// An entry that the soul server does not have is a miss, with the fallback and
/// without it: nothing fails, and the local store is not asked.
pub proof fn law_missing_entry_is_a_miss<E>(fallback_on_error: bool, step: GetEmbeddingStep<E>)
    requires
        client::get_step::<E>(Ok(NOT_FOUND)) matches GetStep::Done(soul) && is_get_step(
            fallback_on_error,
            held(soul),
            step,
        ),
    ensures
        step == GetEmbeddingStep::<E>::Done(Ok(None)),
{
}

/// With the fallback, an embedding always goes to the local store. Without it, it
/// does so if and only if the soul server took it; else the server's failure is
/// handed on as it is.
pub proof fn law_stored_locally_unless_strict_and_failed<E>(soul: Result<(), Fault<E>>)
    ensures
        put_step(true, soul) is WriteLocal,
        put_step(false, soul) is WriteLocal <==> soul is Ok,
        soul matches Err(fault) ==> put_step(false, soul) == PutEmbeddingStep::Failed(
            ShimError::Soul(fault),
        ),
{
}

/// Every key of the embedding cache is in its namespace.
pub proof fn law_key_in_namespace(provider: Seq<char>, model: Seq<char>, hash: Seq<char>)
    ensures
        CACHE_NS@.is_prefix_of(key_of(provider, model, hash)),
{
}

/// How often `:` occurs in a text.
pub open spec fn colons(text: Seq<char>) -> nat {
    text.to_multiset().count(':')
}

/// Two entries of the embedding cache have different keys, if their providers
/// hold equally many `:`, and their models do.
pub proof fn law_keys_apart(
    p1: Seq<char>,
    m1: Seq<char>,
    h1: Seq<char>,
    p2: Seq<char>,
    m2: Seq<char>,
    h2: Seq<char>,
)
    requires
        colons(p1) == colons(p2),
        colons(m1) == colons(m2),
    ensures
        key_of(p1, m1, h1) == key_of(p2, m2, h2) ==> p1 == p2 && m1 == m2 && h1 == h2,
{
    if key_of(p1, m1, h1) == key_of(p2, m2, h2) {
        let ns = CACHE_NS@.len() as int;
        let (r1, r2) = (m1 + seq![':'] + h1, m2 + seq![':'] + h2);
        assert(key_of(p1, m1, h1).skip(ns) =~= p1 + seq![':'] + r1);
        assert(key_of(p2, m2, h2).skip(ns) =~= p2 + seq![':'] + r2);
        lemma_split_at_colon(p1, r1, p2, r2);
        lemma_split_at_colon(m1, h1, m2, h2);
    }
}

/// Two entries of the embedding cache have different keys, if no `:` occurs in
/// their providers and hashes, whatever their models are.
pub proof fn law_keys_of_any_model_apart(
    p1: Seq<char>,
    m1: Seq<char>,
    h1: Seq<char>,
    p2: Seq<char>,
    m2: Seq<char>,
    h2: Seq<char>,
)
    requires
        !p1.contains(':'),
        !p2.contains(':'),
        !h1.contains(':'),
        !h2.contains(':'),
    ensures
        key_of(p1, m1, h1) == key_of(p2, m2, h2) ==> p1 == p2 && m1 == m2 && h1 == h2,
{
    broadcast use vstd::seq_lib::group_to_multiset_ensures;

    lemma_colons_of_key(p1, m1, h1);
    lemma_colons_of_key(p2, m2, h2);
    assert(colons(p1) == 0 && colons(p2) == 0 && colons(h1) == 0 && colons(h2) == 0);
    if key_of(p1, m1, h1) == key_of(p2, m2, h2) {
        law_keys_apart(p1, m1, h1, p2, m2, h2);
    }
}

proof fn lemma_colons_of_key(provider: Seq<char>, model: Seq<char>, hash: Seq<char>)
    ensures
        colons(key_of(provider, model, hash)) == colons(CACHE_NS@) + colons(provider) + 1 + colons(
            model,
        ) + 1 + colons(hash),
{
    let colon = seq![':'];
    lemma_colons_of_one();
    let k1 = CACHE_NS@ + provider;
    let k2 = k1 + colon;
    let k3 = k2 + model;
    let k4 = k3 + colon;
    lemma_colons_add(CACHE_NS@, provider);
    lemma_colons_add(k1, colon);
    lemma_colons_add(k2, model);
    lemma_colons_add(k3, colon);
    lemma_colons_add(k4, hash);
}

proof fn lemma_colons_of_one()
    ensures
        colons(seq![':']) == 1,
{
    broadcast use vstd::seq_lib::group_to_multiset_ensures;

    assert(seq![':'] =~= Seq::<char>::empty().push(':'));
}

proof fn lemma_colons_add(a: Seq<char>, b: Seq<char>)
    ensures
        colons(a + b) == colons(a) + colons(b),
{
    vstd::seq_lib::lemma_multiset_commutative(a, b);
}

proof fn lemma_split_at_colon(x1: Seq<char>, y1: Seq<char>, x2: Seq<char>, y2: Seq<char>)
    requires
        colons(x1) == colons(x2),
        x1 + seq![':'] + y1 == x2 + seq![':'] + y2,
    ensures
        x1 == x2,
        y1 == y2,
{
    let whole = x1 + seq![':'] + y1;
    assert(x1 =~= whole.take(x1.len() as int));
    assert(x2 =~= whole.take(x2.len() as int));
    if x1.len() < x2.len() {
        lemma_longer_has_more_colons(whole, x1, x2);
    } else if x2.len() < x1.len() {
        lemma_longer_has_more_colons(whole, x2, x1);
    }
    assert(y1 =~= whole.skip(x1.len() as int + 1));
    assert(y2 =~= whole.skip(x2.len() as int + 1));
}

proof fn lemma_longer_has_more_colons(whole: Seq<char>, short: Seq<char>, long: Seq<char>)
    requires
        short.len() < long.len() < whole.len(),
        whole[short.len() as int] == ':',
        short == whole.take(short.len() as int),
        long == whole.take(long.len() as int),
    ensures
        colons(short) < colons(long),
{
    let tail = long.skip(short.len() as int + 1);
    lemma_colons_of_one();
    assert(long =~= short + seq![':'] + tail);
    lemma_colons_add(short, seq![':']);
    lemma_colons_add(short + seq![':'], tail);
}

} // verus!
