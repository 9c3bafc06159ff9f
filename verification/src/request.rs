//! Backend request builders: one per storage backend, one contract.
//! `split_input` lifts the delivery tokens off a batch before anything is
//! encoded, so no encoding outcome can drop an acknowledgement
//! obligation; `build_request` stamps the collision-free object key and
//! the compression header onto the payload.
use vstd::prelude::*;

use crate::batch::Batch;
use crate::config::{S3Config, S3Options};
use crate::object_key::{generate_object_key, is_uuid_text, object_key_of, opt_view};
use crate::value::LogEvent;

verus! {

/// The delivery tokens of a sequence of events, in order.
pub open spec fn tokens_of(events: Seq<LogEvent>) -> Seq<u64>
    decreases events.len(),
{
    if events.len() == 0 {
        Seq::empty()
    } else {
        tokens_of(events.drop_last()) + seq![events.last().token]
    }
}

/// What a batch must keep through encoding: its partition key, its
/// delivery tokens, and its event-count and byte-size accounting.
pub struct BatchMetadata {
    pub partition_key: String,
    pub finalizers: Vec<u64>,
    pub count: usize,
    pub byte_size: u64,
}

/// Collects the delivery tokens of a batch's events.
fn collect_tokens(events: &Vec<LogEvent>) -> (r: Vec<u64>)
    ensures
        r@ == tokens_of(events@),
{
    let mut out: Vec<u64> = Vec::new();
    let mut i: usize = 0;
    while i < events.len()
        invariant
            i <= events@.len(),
            out@ == tokens_of(events@.take(i as int)),
        decreases events@.len() - i,
    {
        out.push(events[i].token);
        proof {
            assert(events@.take(i as int + 1).drop_last() =~= events@.take(i as int));
            assert(events@.take(i as int + 1).last() == events@[i as int]);
            assert(out@ =~= tokens_of(events@.take(i as int + 1)));
        }
        i = i + 1;
    }
    proof {
        assert(events@.take(events@.len() as int) =~= events@);
    }
    out
}

/// Splits one batch into its metadata and its events: the partition key,
/// every delivery token, the event count and the accumulated size
/// estimate move onto the metadata, and the events come back unchanged
/// for encoding.
fn split_batch(input: Batch) -> (r: (BatchMetadata, Vec<LogEvent>))
    ensures
        r.0.partition_key == input.partition_key,
        r.0.finalizers@ == tokens_of(input.events@),
        r.0.count == input.events@.len(),
        r.0.byte_size == input.size_estimate,
        r.1 == input.events,
{
    let Batch { partition_key, events, size_estimate, opened_at: _ } = input;
    let finalizers = collect_tokens(&events);
    let count = events.len();
    (BatchMetadata { partition_key, finalizers, count, byte_size: size_estimate }, events)
}

/// Clones an optional string, preserving its value.
fn clone_opt(p: &Option<String>) -> (r: Option<String>)
    ensures
        r == *p,
{
    match p {
        Some(s) => Some(s.clone()),
        None => None,
    }
}

/// Field-for-field agreement of two option bundles, tag lists compared by
/// contents.
pub open spec fn same_options(a: S3Options, b: S3Options) -> bool {
    &&& a.acl == b.acl
    &&& a.grant_full_control == b.grant_full_control
    &&& a.grant_read == b.grant_read
    &&& a.grant_read_acp == b.grant_read_acp
    &&& a.grant_write_acp == b.grant_write_acp
    &&& a.server_side_encryption == b.server_side_encryption
    &&& a.ssekms_key_id == b.ssekms_key_id
    &&& a.storage_class == b.storage_class
    &&& (a.tags is Some <==> b.tags is Some)
    &&& (a.tags matches Some(v) ==> b.tags matches Some(w) && v@ == w@)
}

/// Clones an option bundle, preserving every field.
fn clone_options(o: &S3Options) -> (r: S3Options)
    ensures
        same_options(r, *o),
{
    S3Options {
        acl: clone_opt(&o.acl),
        grant_full_control: clone_opt(&o.grant_full_control),
        grant_read: clone_opt(&o.grant_read),
        grant_read_acp: clone_opt(&o.grant_read_acp),
        grant_write_acp: clone_opt(&o.grant_write_acp),
        server_side_encryption: clone_opt(&o.server_side_encryption),
        ssekms_key_id: clone_opt(&o.ssekms_key_id),
        storage_class: o.storage_class,
        tags: match &o.tags {
            Some(v) => Some(clone_pairs(v)),
            None => None,
        },
    }
}

/// A write request for the object-store backend.
pub struct S3Request {
    pub body: Vec<u8>,
    pub bucket: String,
    pub key: String,
    pub content_encoding: String,
    pub options: S3Options,
    pub metadata: BatchMetadata,
}

/// Builds object-store write requests for archived batches.
pub struct DatadogS3RequestBuilder {
    pub bucket: String,
    pub key_prefix: Option<String>,
    pub config: S3Config,
}

impl DatadogS3RequestBuilder {
    /// A builder for the given bucket, prefix and backend options.
    pub fn new(bucket: String, key_prefix: Option<String>, config: S3Config) -> (r: Self)
        ensures
            r.bucket == bucket,
            r.key_prefix == key_prefix,
            r.config == config,
    {
        DatadogS3RequestBuilder { bucket, key_prefix, config }
    }

    /// Batches are always gzip-compressed before dispatch.
    pub fn compression(&self) -> (r: &'static str)
        ensures
            r@ == "gzip"@,
    {
        "gzip"
    }

    /// Splits a batch, keeping its delivery tokens and accounting on the
    /// metadata.
    pub fn split_input(&self, input: Batch) -> (r: (BatchMetadata, Vec<LogEvent>))
        ensures
            r.0.partition_key == input.partition_key,
            r.0.finalizers@ == tokens_of(input.events@),
            r.0.count == input.events@.len(),
            r.0.byte_size == input.size_estimate,
            r.1 == input.events,
    {
        split_batch(input)
    }

    /// Packages the encoded, compressed payload under a fresh object key.
    /// The tokens on the metadata ride along unchanged, so the dispatcher
    /// can always discharge them.
    pub fn build_request(&self, metadata: BatchMetadata, body: Vec<u8>) -> (r: S3Request)
        ensures
            r.body == body,
            r.bucket == self.bucket,
            r.content_encoding@ == "gzip"@,
            same_options(r.options, self.config.options),
            r.metadata.finalizers == metadata.finalizers,
            r.metadata.partition_key == metadata.partition_key,
            r.metadata.count == metadata.count,
            r.metadata.byte_size == metadata.byte_size,
            exists|u: Seq<char>|
                #[trigger] object_key_of(opt_view(self.key_prefix), metadata.partition_key@, u)
                    == r.key@ && is_uuid_text(u),
            forall|i: int|
                0 <= i < r.key@.len() - 1 ==> !((#[trigger] r.key@[i]) == '/' && r.key@[i + 1]
                    == '/'),
    {
        let key = generate_object_key(clone_opt(&self.key_prefix), metadata.partition_key.clone());
        S3Request {
            body,
            bucket: self.bucket.clone(),
            key,
            content_encoding: String::from_str("gzip"),
            options: clone_options(&self.config.options),
            metadata,
        }
    }
}

/// A write request for the cloud-storage backend.
pub struct GcsRequest {
    pub body: Vec<u8>,
    pub bucket: String,
    pub key: String,
    pub content_type: String,
    pub content_encoding: String,
    pub acl: Option<String>,
    pub storage_class: Option<String>,
    pub headers: Vec<(String, String)>,
    pub metadata: BatchMetadata,
}

/// Builds cloud-storage write requests for archived batches.
pub struct DatadogGcsRequestBuilder {
    pub bucket: String,
    pub key_prefix: Option<String>,
    pub acl: Option<String>,
    pub storage_class: Option<String>,
    pub metadata: Vec<(String, String)>,
}

impl DatadogGcsRequestBuilder {
    /// Batches are always gzip-compressed before dispatch.
    pub fn compression(&self) -> (r: &'static str)
        ensures
            r@ == "gzip"@,
    {
        "gzip"
    }

    /// Splits a batch, keeping its delivery tokens and accounting on the
    /// metadata.
    pub fn split_input(&self, input: Batch) -> (r: (BatchMetadata, Vec<LogEvent>))
        ensures
            r.0.partition_key == input.partition_key,
            r.0.finalizers@ == tokens_of(input.events@),
            r.0.count == input.events@.len(),
            r.0.byte_size == input.size_estimate,
            r.1 == input.events,
    {
        split_batch(input)
    }

    /// Packages the payload under a fresh object key with the configured
    /// ACL, storage class and custom headers.
    pub fn build_request(&self, metadata: BatchMetadata, body: Vec<u8>) -> (r: GcsRequest)
        ensures
            r.body == body,
            r.bucket == self.bucket,
            r.content_type@ == "application/x-ndjson"@,
            r.content_encoding@ == "gzip"@,
            r.acl == self.acl,
            r.storage_class == self.storage_class,
            r.headers@ == self.metadata@,
            r.metadata.finalizers == metadata.finalizers,
            r.metadata.partition_key == metadata.partition_key,
            r.metadata.count == metadata.count,
            r.metadata.byte_size == metadata.byte_size,
            exists|u: Seq<char>|
                #[trigger] object_key_of(opt_view(self.key_prefix), metadata.partition_key@, u)
                    == r.key@ && is_uuid_text(u),
            forall|i: int|
                0 <= i < r.key@.len() - 1 ==> !((#[trigger] r.key@[i]) == '/' && r.key@[i + 1]
                    == '/'),
    {
        let key = generate_object_key(clone_opt(&self.key_prefix), metadata.partition_key.clone());
        GcsRequest {
            body,
            bucket: self.bucket.clone(),
            key,
            content_type: String::from_str("application/x-ndjson"),
            content_encoding: String::from_str("gzip"),
            acl: clone_opt(&self.acl),
            storage_class: clone_opt(&self.storage_class),
            headers: clone_pairs(&self.metadata),
            metadata,
        }
    }
}

/// Clones a list of header pairs.
fn clone_pairs(v: &Vec<(String, String)>) -> (r: Vec<(String, String)>)
    ensures
        r@ == v@,
{
    let mut out: Vec<(String, String)> = Vec::new();
    let mut i: usize = 0;
    while i < v.len()
        invariant
            i <= v@.len(),
            out@ == v@.take(i as int),
        decreases v@.len() - i,
    {
        out.push((v[i].0.clone(), v[i].1.clone()));
        proof {
            assert(out@ =~= v@.take(i as int + 1));
        }
        i = i + 1;
    }
    proof {
        assert(v@.take(v@.len() as int) =~= v@);
    }
    out
}

/// A write request for the blob-store backend.
pub struct AzureBlobRequest {
    pub blob_data: Vec<u8>,
    pub container_name: String,
    pub blob_name: String,
    pub content_encoding: String,
    pub content_type: String,
    pub metadata: BatchMetadata,
}

/// Builds blob-store write requests for archived batches.
pub struct DatadogAzureRequestBuilder {
    pub container_name: String,
    pub blob_prefix: Option<String>,
}

impl DatadogAzureRequestBuilder {
    /// Batches are always gzip-compressed before dispatch.
    pub fn compression(&self) -> (r: &'static str)
        ensures
            r@ == "gzip"@,
    {
        "gzip"
    }

    /// Splits a batch, keeping its delivery tokens and accounting on the
    /// metadata.
    pub fn split_input(&self, input: Batch) -> (r: (BatchMetadata, Vec<LogEvent>))
        ensures
            r.0.partition_key == input.partition_key,
            r.0.finalizers@ == tokens_of(input.events@),
            r.0.count == input.events@.len(),
            r.0.byte_size == input.size_estimate,
            r.1 == input.events,
    {
        split_batch(input)
    }

    /// Packages the payload under a fresh blob name.
    pub fn build_request(&self, metadata: BatchMetadata, body: Vec<u8>) -> (r: AzureBlobRequest)
        ensures
            r.blob_data == body,
            r.container_name == self.container_name,
            r.content_encoding@ == "gzip"@,
            r.content_type@ == "application/gzip"@,
            r.metadata.finalizers == metadata.finalizers,
            r.metadata.partition_key == metadata.partition_key,
            r.metadata.count == metadata.count,
            r.metadata.byte_size == metadata.byte_size,
            exists|u: Seq<char>|
                #[trigger] object_key_of(opt_view(self.blob_prefix), metadata.partition_key@, u)
                    == r.blob_name@ && is_uuid_text(u),
            forall|i: int|
                0 <= i < r.blob_name@.len() - 1 ==> !((#[trigger] r.blob_name@[i]) == '/'
                    && r.blob_name@[i + 1] == '/'),
    {
        let blob_name = generate_object_key(
            clone_opt(&self.blob_prefix),
            metadata.partition_key.clone(),
        );
        AzureBlobRequest {
            blob_data: body,
            container_name: self.container_name.clone(),
            blob_name,
            content_encoding: String::from_str("gzip"),
            content_type: String::from_str("application/gzip"),
            metadata,
        }
    }
}

} // verus!
