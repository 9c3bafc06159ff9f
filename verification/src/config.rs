//! Sink configuration: backend selection, per-backend option bundles, and
//! the validation that rejects unsupported services and storage classes at
//! construction time.
use vstd::prelude::*;

use crate::strutil::{chars_vec, str_eq};

verus! {

/// The storage classes the object-store backend offers. The archival
/// tiers with asynchronous retrieval cannot serve rehydration reads.
#[derive(Clone, Copy, Debug, PartialEq, Eq, Structural)]
pub enum S3StorageClass {
    Standard,
    ReducedRedundancy,
    IntelligentTiering,
    StandardIa,
    OnezoneIa,
    Glacier,
    DeepArchive,
}

/// The class's name as configuration and error messages spell it.
pub open spec fn class_name(c: S3StorageClass) -> Seq<char> {
    match c {
        S3StorageClass::Standard => "Standard"@,
        S3StorageClass::ReducedRedundancy => "ReducedRedundancy"@,
        S3StorageClass::IntelligentTiering => "IntelligentTiering"@,
        S3StorageClass::StandardIa => "StandardIa"@,
        S3StorageClass::OnezoneIa => "OnezoneIa"@,
        S3StorageClass::Glacier => "Glacier"@,
        S3StorageClass::DeepArchive => "DeepArchive"@,
    }
}

/// Whether the sink accepts this class: the asynchronous-retrieval tiers
/// are rejected at construction.
pub open spec fn class_supported(c: S3StorageClass) -> bool {
    c != S3StorageClass::Glacier && c != S3StorageClass::DeepArchive
}

impl S3StorageClass {
    /// The class's name.
    pub fn name(&self) -> (r: &'static str)
        ensures
            r@ == class_name(*self),
    {
        match self {
            S3StorageClass::Standard => "Standard",
            S3StorageClass::ReducedRedundancy => "ReducedRedundancy",
            S3StorageClass::IntelligentTiering => "IntelligentTiering",
            S3StorageClass::StandardIa => "StandardIa",
            S3StorageClass::OnezoneIa => "OnezoneIa",
            S3StorageClass::Glacier => "Glacier",
            S3StorageClass::DeepArchive => "DeepArchive",
        }
    }
}

impl Default for S3StorageClass {
    fn default() -> (r: Self)
        ensures
            r == S3StorageClass::Standard,
    {
        S3StorageClass::Standard
    }
}

/// Bucket and object options for the object-store backend. The grant and
/// encryption fields are opaque to the core and pass through to the
/// client.
pub struct S3Options {
    pub acl: Option<String>,
    pub grant_full_control: Option<String>,
    pub grant_read: Option<String>,
    pub grant_read_acp: Option<String>,
    pub grant_write_acp: Option<String>,
    pub server_side_encryption: Option<String>,
    pub ssekms_key_id: Option<String>,
    pub storage_class: S3StorageClass,
    pub tags: Option<Vec<(String, String)>>,
}

impl Default for S3Options {
    fn default() -> (r: Self)
        ensures
            r.acl is None,
            r.grant_full_control is None,
            r.grant_read is None,
            r.grant_read_acp is None,
            r.grant_write_acp is None,
            r.server_side_encryption is None,
            r.ssekms_key_id is None,
            r.storage_class == S3StorageClass::Standard,
            r.tags is None,
    {
        S3Options {
            acl: None,
            grant_full_control: None,
            grant_read: None,
            grant_read_acp: None,
            grant_write_acp: None,
            server_side_encryption: None,
            ssekms_key_id: None,
            storage_class: S3StorageClass::Standard,
            tags: None,
        }
    }
}

/// Configuration of the object-store backend: its options plus the
/// region or endpoint the client connects to.
pub struct S3Config {
    pub options: S3Options,
    pub region: Option<String>,
    pub endpoint: Option<String>,
}

impl Default for S3Config {
    fn default() -> (r: Self)
        ensures
            r.options.storage_class == S3StorageClass::Standard,
            r.region is None,
            r.endpoint is None,
    {
        S3Config { options: Default::default(), region: None, endpoint: None }
    }
}

/// Configuration of the blob-store backend: connection-string
/// authentication only.
pub struct AzureBlobConfig {
    pub connection_string: String,
}

/// Configuration of the cloud-storage backend: canned ACL, storage class
/// and custom metadata pairs, all opaque to the core.
pub struct GcsConfig {
    pub acl: Option<String>,
    pub storage_class: Option<String>,
    pub metadata: Option<Vec<(String, String)>>,
}

/// A character allowed in a metadata header name: an RFC 7230 token
/// character, which is what the storage backends accept in a header line.
pub open spec fn is_header_name_char(c: char) -> bool {
    let u = c as u32;
    ||| 48 <= u <= 57
    ||| 65 <= u <= 90
    ||| 97 <= u <= 122
    ||| u == 33
    ||| 35 <= u <= 39
    ||| u == 42
    ||| u == 43
    ||| u == 45
    ||| u == 46
    ||| u == 94
    ||| u == 95
    ||| u == 96
    ||| u == 124
    ||| u == 126
}

/// A character allowed in a metadata header value: visible ASCII, space
/// or horizontal tab.
pub open spec fn is_header_value_char(c: char) -> bool {
    let u = c as u32;
    u == 9 || (32 <= u <= 126)
}

/// A valid header name: nonempty, token characters only.
pub open spec fn valid_header_name(s: Seq<char>) -> bool {
    s.len() > 0 && (forall|i: int| 0 <= i < s.len() ==> is_header_name_char(#[trigger] s[i]))
}

/// A valid header value: visible ASCII, spaces and tabs only.
pub open spec fn valid_header_value(s: Seq<char>) -> bool {
    forall|i: int| 0 <= i < s.len() ==> is_header_value_char(#[trigger] s[i])
}

/// Whether one metadata pair can stand in a request's header line.
pub open spec fn header_pair_ok(p: (String, String)) -> bool {
    valid_header_name(p.0@) && valid_header_value(p.1@)
}

/// The metadata pairs a cloud-storage configuration carries, if any.
pub open spec fn gcs_pairs(g: Option<GcsConfig>) -> Seq<(String, String)> {
    match g {
        Some(c) => match c.metadata {
            Some(v) => v@,
            None => Seq::empty(),
        },
        None => Seq::empty(),
    }
}

/// Decides whether a header name is a valid token.
fn check_header_name(s: &str) -> (r: bool)
    ensures
        r == valid_header_name(s@),
{
    let cs = chars_vec(s);
    if cs.len() == 0 {
        return false;
    }
    let mut i: usize = 0;
    while i < cs.len()
        invariant
            i <= cs@.len(),
            cs@ == s@,
            s@.len() > 0,
            forall|j: int| 0 <= j < i ==> is_header_name_char(#[trigger] s@[j]),
        decreases cs@.len() - i,
    {
        let u = cs[i] as u32;
        let ok = (48 <= u && u <= 57) || (65 <= u && u <= 90) || (97 <= u && u <= 122) || u == 33
            || (35 <= u && u <= 39) || u == 42 || u == 43 || u == 45 || u == 46 || u == 94 || u
            == 95 || u == 96 || u == 124 || u == 126;
        if !ok {
            return false;
        }
        i = i + 1;
    }
    true
}

/// Decides whether a header value is visible ASCII with spaces and tabs.
fn check_header_value(s: &str) -> (r: bool)
    ensures
        r == valid_header_value(s@),
{
    let cs = chars_vec(s);
    let mut i: usize = 0;
    while i < cs.len()
        invariant
            i <= cs@.len(),
            cs@ == s@,
            forall|j: int| 0 <= j < i ==> is_header_value_char(#[trigger] s@[j]),
        decreases cs@.len() - i,
    {
        let u = cs[i] as u32;
        if !(u == 9 || (32 <= u && u <= 126)) {
            return false;
        }
        i = i + 1;
    }
    true
}

/// Finds the first metadata pair that cannot stand in a header line.
fn find_bad_header(pairs: &Vec<(String, String)>) -> (r: Option<usize>)
    ensures
        match r {
            Some(idx) => idx < pairs@.len() && !header_pair_ok(pairs@[idx as int]) && forall|k: int|
                0 <= k < idx ==> header_pair_ok(#[trigger] pairs@[k]),
            None => forall|k: int| 0 <= k < pairs@.len() ==> header_pair_ok(#[trigger] pairs@[k]),
        },
{
    let mut i: usize = 0;
    while i < pairs.len()
        invariant
            i <= pairs@.len(),
            forall|k: int| 0 <= k < i ==> header_pair_ok(#[trigger] pairs@[k]),
        decreases pairs@.len() - i,
    {
        if !check_header_name(pairs[i].0.as_str()) || !check_header_value(pairs[i].1.as_str()) {
            return Some(i);
        }
        i = i + 1;
    }
    None
}

/// A configuration error found at sink construction. The sink never
/// starts on one of these.
pub enum ConfigError {
    UnsupportedService { service: String },
    UnsupportedStorageClass { storage_class: String },
    InvalidHeader { header: String },
}

/// The operator-facing message of a configuration error.
pub open spec fn error_message(e: ConfigError) -> Seq<char> {
    match e {
        ConfigError::UnsupportedService { service } => "Unsupported service: "@ + service@,
        ConfigError::UnsupportedStorageClass { storage_class } => "Unsupported storage class: "@
            + storage_class@,
        ConfigError::InvalidHeader { header } => "Invalid metadata header: "@ + header@,
    }
}

impl ConfigError {
    /// Renders the error for the operator.
    pub fn message(&self) -> (r: String)
        ensures
            r@ == error_message(*self),
    {
        let mut s = String::new();
        match self {
            ConfigError::UnsupportedService { service } => {
                s.append("Unsupported service: ");
                s.append(service.as_str());
            },
            ConfigError::UnsupportedStorageClass { storage_class } => {
                s.append("Unsupported storage class: ");
                s.append(storage_class.as_str());
            },
            ConfigError::InvalidHeader { header } => {
                s.append("Invalid metadata header: ");
                s.append(header.as_str());
            },
        }
        s
    }
}

/// The backend a sink instance writes to; exactly one is active.
#[derive(Clone, Copy, Debug, PartialEq, Eq, Structural)]
pub enum ServiceKind {
    S3,
    AzureBlob,
    Gcs,
}

/// The sink's configuration surface: the chosen service, the bucket or
/// container, an optional key prefix, and one option bundle per backend.
pub struct DatadogArchivesSinkConfig {
    pub service: String,
    pub bucket: String,
    pub key_prefix: Option<String>,
    pub aws_s3: Option<S3Config>,
    pub azure_blob: Option<AzureBlobConfig>,
    pub gcp_cloud_storage: Option<GcsConfig>,
}

impl DatadogArchivesSinkConfig {
    /// Decides which backend the configuration selects, rejecting an
    /// unknown service name, a storage class whose retrieval latency
    /// cannot serve rehydration, and a metadata pair that cannot stand in
    /// a header line. This is the fatal construction-time check: no
    /// request is ever built from a configuration this refuses.
    pub fn select_service(&self) -> (r: Result<ServiceKind, ConfigError>)
        requires
            self.service@ == "aws_s3"@ ==> self.aws_s3 is Some,
            self.service@ == "gcp_cloud_storage"@ ==> self.gcp_cloud_storage is Some,
        ensures
            ({
                if self.service@ == "aws_s3"@ {
                    let cls = self.aws_s3->Some_0.options.storage_class;
                    if class_supported(cls) {
                        r == Result::<ServiceKind, ConfigError>::Ok(ServiceKind::S3)
                    } else {
                        r matches Err(ConfigError::UnsupportedStorageClass { storage_class })
                            && storage_class@ == class_name(cls)
                    }
                } else if self.service@ == "azure_blob"@ {
                    r == Result::<ServiceKind, ConfigError>::Ok(ServiceKind::AzureBlob)
                } else if self.service@ == "gcp_cloud_storage"@ {
                    let pairs = gcs_pairs(self.gcp_cloud_storage);
                    if forall|k: int| 0 <= k < pairs.len() ==> header_pair_ok(#[trigger] pairs[k]) {
                        r == Result::<ServiceKind, ConfigError>::Ok(ServiceKind::Gcs)
                    } else {
                        r matches Err(ConfigError::InvalidHeader { header }) && exists|j: int|
                            #![auto]
                            0 <= j < pairs.len() && !header_pair_ok(pairs[j]) && header
                                == pairs[j].0 && (forall|k: int|
                                0 <= k < j ==> header_pair_ok(pairs[k]))
                    }
                } else {
                    r matches Err(ConfigError::UnsupportedService { service }) && service@
                        == self.service@
                }
            }),
    {
        if str_eq(self.service.as_str(), "aws_s3") {
            let cls = match &self.aws_s3 {
                Some(c) => c.options.storage_class,
                None => {
                    proof {
                        assert(false);
                    }
                    S3StorageClass::Standard
                },
            };
            match cls {
                S3StorageClass::Glacier | S3StorageClass::DeepArchive => Err(
                    ConfigError::UnsupportedStorageClass {
                        storage_class: String::from_str(cls.name()),
                    },
                ),
                _ => Ok(ServiceKind::S3),
            }
        } else if str_eq(self.service.as_str(), "azure_blob") {
            Ok(ServiceKind::AzureBlob)
        } else if str_eq(self.service.as_str(), "gcp_cloud_storage") {
            let g = match &self.gcp_cloud_storage {
                Some(g) => g,
                None => {
                    proof {
                        assert(false);
                    }
                    return Ok(ServiceKind::Gcs);
                },
            };
            match &g.metadata {
                Some(pairs) => match find_bad_header(pairs) {
                    Some(idx) => {
                        proof {
                            let ps = gcs_pairs(self.gcp_cloud_storage);
                            assert(ps == pairs@);
                            assert(!header_pair_ok(ps[idx as int]));
                        }
                        Err(ConfigError::InvalidHeader { header: pairs[idx].0.clone() })
                    },
                    None => Ok(ServiceKind::Gcs),
                },
                None => Ok(ServiceKind::Gcs),
            }
        } else {
            Err(ConfigError::UnsupportedService { service: self.service.clone() })
        }
    }
}

} // verus!
