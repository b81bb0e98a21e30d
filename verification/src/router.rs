//! Maps inbound GET/POST operations onto registry and store decisions
//! and produces status/body outcomes.
//!
//! The router is stateless per request. Transport framing and the
//! filesystem stay with the caller: the router decides which storage
//! path a GET reads, whether an upload is acceptable, which identifier
//! an accepted upload is stored under, and what each outcome answers.

use vstd::prelude::*;
use vstd::string::StringSliceAdditionalSpecFns;
use vstd::string::StringExecFns;
use crate::codec::chars_of_bytes;
use crate::codec::compute_max_url;
use crate::codec::spec_canonical;
use crate::codec::ImageUrl;
use crate::paths::spec_lookup_path;
use crate::paths::strip_extension_bytes;
use crate::recovery::names_bytes;
use crate::recovery::recover_registry;
use crate::recovery::scanned_ids;
use crate::registry::registry_step;
use crate::registry::Registry;
use vstd::arithmetic::power::lemma_pow_positive;
use vstd::arithmetic::power::pow;

verus! {

/// Listening configuration of the surrounding process: which port to
/// serve on and how many workers share the server.
pub struct ServerInfo {
    pub port: u16,
    pub threads: usize,
}

/// What the store reported when asked for a blob's bytes.
pub enum FetchResult {
    /// The file exists and holds these bytes.
    Found(Vec<u8>),
    /// The path does not exist or is not a file.
    Missing,
    /// Any other read failure.
    Failed,
}

/// Why an upload was turned away before any work was done.
pub enum UploadRejection {
    /// No content-type header came with the request.
    MissingContentType,
    /// A content-type header came, but not the configured one.
    UnsupportedContentType,
}

/// A status/body outcome for one request. The content-type header is
/// set only where the response carries a blob.
pub struct HttpResponse {
    pub status: u16,
    pub body: Vec<u8>,
    pub content_type: Option<String>,
}

/// The service core: storage root, the one accepted content type, and
/// the registry of allocated identifiers.
pub struct Server {
    pub image_dir: String,
    pub content_type: String,
    pub registry: Registry,
}

impl Server {
    /// Well-formed: the registry's draw space is not empty.
    pub open spec fn wf(&self) -> bool {
        self.registry.wf()
    }

    /// Builds the service core: identifiers are drawn below
    /// `62 ^ max_url_length`, and the registry starts out holding
    /// whatever the storage directory's names decode to.
    pub fn new(image_dir: String, content_type: String, max_url_length: u32, names: &Vec<String>)
        -> (r: Server)
        requires
            max_url_length <= 10,
        ensures
            r.wf(),
            r.image_dir@ == image_dir@,
            r.content_type@ == content_type@,
            r.registry.bound() == pow(62, max_url_length as nat),
            r.registry@ == scanned_ids(names_bytes(names@)),
    {
        proof {
            lemma_pow_positive(62, max_url_length as nat);
        }
        let bound = compute_max_url(max_url_length);
        let registry = recover_registry(names, bound);
        Server { image_dir, content_type, registry }
    }

    /// The storage path of the blob with identifier `id`: the storage
    /// root followed by the identifier's canonical string, no
    /// extension.
    pub fn path_for_id(&self, id: &ImageUrl) -> (r: String)
        ensures
            r@ == self.image_dir@ + chars_of_bytes(spec_canonical(id.0 as nat)),
    {
        let name = id.encode();
        let mut path = self.image_dir.clone();
        path.append(name.as_str());
        path
    }

    /// GET routing: strips the leading separator and any dot-suffix
    /// off the request path and decodes the rest. A key that decodes
    /// names the storage path to read; one that does not is a miss —
    /// the caller answers 404 without touching storage.
    pub fn route_get(&self, req_path: &str) -> (r: Option<String>)
        ensures
            match r {
                Some(p) => spec_lookup_path(self.image_dir@, req_path.spec_bytes()) == Some(p@),
                None => spec_lookup_path(self.image_dir@, req_path.spec_bytes()) is None,
            },
    {
        let bytes = req_path.as_bytes();
        let n = bytes.len();
        let stripped: &[u8] = if n > 0 && bytes[0] == 47 {
            &bytes[1..n]
        } else {
            bytes
        };
        proof {
            assert(stripped@ =~= crate::paths::strip_leading_slash(req_path.spec_bytes()));
        }
        let key = strip_extension_bytes(stripped);
        match crate::codec::decode_bytes(key.as_slice()) {
            Ok(url) => Some(self.path_for_id(&url)),
            Err(_) => None,
        }
    }

    /// The content-type rule for uploads: a missing header and a
    /// mismatched header are turned away, each with its own rejection;
    /// only the configured type, byte-exact, is let through.
    pub fn check_content_type(&self, header: Option<&String>) -> (r: Result<(), UploadRejection>)
        ensures
            match r {
                Ok(()) => header is Some && header->0@ == self.content_type@,
                Err(UploadRejection::MissingContentType) => header is None,
                Err(UploadRejection::UnsupportedContentType) => header is Some && header->0@
                    != self.content_type@,
            },
    {
        match header {
            None => Err(UploadRejection::MissingContentType),
            Some(h) => {
                if *h == self.content_type {
                    Ok(())
                } else {
                    Err(UploadRejection::UnsupportedContentType)
                }
            },
        }
    }

    /// The upload step after the content-type check: reserves a fresh
    /// identifier and derives the path the caller must write the bytes
    /// to. The reservation is not given back if that write then fails;
    /// uniqueness is kept over storage-space reuse. `None` reports the
    /// identifier space exhausted after `max_attempts` colliding draws,
    /// with the registry unchanged; against a wholly free space a first
    /// attempt cannot collide, so a fresh server with at least one
    /// attempt is owed a reservation.
    pub fn reserve_upload(&mut self, max_attempts: u64) -> (r: Option<(ImageUrl, String)>)
        requires
            old(self).wf(),
        ensures
            final(self).wf(),
            final(self).image_dir@ == old(self).image_dir@,
            final(self).content_type@ == old(self).content_type@,
            final(self).registry.bound() == old(self).registry.bound(),
            max_attempts == 0 ==> r is None,
            (max_attempts >= 1 && (forall|i: u64|
                i < old(self).registry.bound() ==> !old(self).registry@.contains(i))) ==> r
                is Some,
            match r {
                Some((id, path)) => {
                    &&& id.0 < old(self).registry.bound()
                    &&& registry_step(old(self).registry@, id.0, final(self).registry@)
                    &&& path@ == old(self).image_dir@ + chars_of_bytes(spec_canonical(id.0 as nat))
                },
                None => final(self).registry@ == old(self).registry@,
            },
    {
        match self.registry.reserve_new(max_attempts) {
            Some(id) => {
                let url = ImageUrl(id);
                let path = self.path_for_id(&url);
                Some((url, path))
            },
            None => None,
        }
    }

    /// The response to a GET whose key decoded, given what the store
    /// reported: the blob with the configured content type, 404 for a
    /// missing file, 500 for any other read failure.
    pub fn get_response(&self, fetch: FetchResult) -> (r: HttpResponse)
        ensures
            match fetch {
                FetchResult::Found(bytes) => r.status == 200 && r.body@ == bytes@ && (
                r.content_type matches Some(c) && c@ == self.content_type@),
                FetchResult::Missing => r.status == 404 && r.body@ == seq![52u8, 48u8, 52u8]
                    && r.content_type is None,
                FetchResult::Failed => r.status == 500 && r.body@ == seq![53u8, 48u8, 48u8]
                    && r.content_type is None,
            },
    {
        match fetch {
            FetchResult::Found(bytes) => HttpResponse {
                status: 200,
                body: bytes,
                content_type: Some(self.content_type.clone()),
            },
            FetchResult::Missing => HttpResponse {
                status: 404,
                body: vec![52u8, 48u8, 52u8],
                content_type: None,
            },
            FetchResult::Failed => HttpResponse {
                status: 500,
                body: vec![53u8, 48u8, 48u8],
                content_type: None,
            },
        }
    }

    /// The response to an upload that was accepted and reserved `id`:
    /// the identifier's canonical string when the store took the bytes,
    /// 500 when the write failed (the reservation stands).
    pub fn upload_response(&self, stored: bool, id: &ImageUrl) -> (r: HttpResponse)
        ensures
            stored ==> r.status == 200 && r.body@ == spec_canonical(id.0 as nat)
                && r.content_type is None,
            !stored ==> r.status == 500 && r.body@ == seq![53u8, 48u8, 48u8]
                && r.content_type is None,
    {
        if stored {
            HttpResponse { status: 200, body: id.encode_bytes(), content_type: None }
        } else {
            HttpResponse { status: 500, body: vec![53u8, 48u8, 48u8], content_type: None }
        }
    }
}

/// The response to an upload that was turned away: 400 for a missing
/// content-type header, 415 for a mismatched one. No other action is
/// taken for such a request.
pub fn rejection_response(rejection: &UploadRejection) -> (r: HttpResponse)
    ensures
        match rejection {
            UploadRejection::MissingContentType => r.status == 400 && r.body@ == seq![
                52u8,
                48u8,
                48u8,
            ] && r.content_type is None,
            UploadRejection::UnsupportedContentType => r.status == 415 && r.body@ == seq![
                52u8,
                49u8,
                53u8,
            ] && r.content_type is None,
        },
{
    match rejection {
        UploadRejection::MissingContentType => HttpResponse {
            status: 400,
            body: vec![52u8, 48u8, 48u8],
            content_type: None,
        },
        UploadRejection::UnsupportedContentType => HttpResponse {
            status: 415,
            body: vec![52u8, 49u8, 53u8],
            content_type: None,
        },
    }
}

} // verus!
