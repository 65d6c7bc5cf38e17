//! From a request path to a response: which asset a path stands for, and
//! whether it is served, answered with a redirect to `/`, or not found.

use vstd::prelude::*;
use vstd::string::StringExecFns;
use vstd::string::StringSliceAdditionalSpecFns;

use crate::assets::Asset;
use crate::assets::AssetStore;
use crate::mime_mapper::content_type_header;
use crate::mime_mapper::first_or_octet_stream_of;
use crate::mime_mapper::path_types;
use crate::mime_mapper::MimeClass;
use crate::mime_mapper::MimeMapper;
use crate::mime_mapper::CT_APPLICATION_OCTET_STREAM;
use crate::text::contains_char;
use crate::text::ends_with;
use crate::text::ends_with_char;
use crate::text::starts_with;
use crate::text::str_eq;
use crate::text::strip_leading;

verus! {

/// Whether `raw` asks for the root index: it is `/` or `/index.html`.
pub open spec fn is_root(raw: Seq<char>) -> bool {
    raw == "/"@ || raw == "/index.html"@
}

/// `raw` without its one leading `/`.
pub open spec fn base_path(raw: Seq<char>) -> Seq<char> {
    if starts_with(raw, '/') {
        raw.drop_first()
    } else {
        raw
    }
}

/// Whether `raw` is taken for a directory: it is not the root index, and it
/// ends with `/` or holds no `.` after its leading `/`.
pub open spec fn index_candidate(raw: Seq<char>) -> bool {
    !is_root(raw) && (ends_with(base_path(raw), '/') || !base_path(raw).contains('.'))
}

/// The path under which the asset for `raw` is looked up.
pub open spec fn lookup_path(raw: Seq<char>) -> Seq<char> {
    if is_root(raw) {
        "index.html"@
    } else if ends_with(base_path(raw), '/') {
        base_path(raw) + "index.html"@
    } else if !base_path(raw).contains('.') {
        base_path(raw) + "/index.html"@
    } else {
        base_path(raw)
    }
}

/// The path of the asset that answers `raw`, if any: the lookup path where
/// the store has it; else the root index, for a directory without an index of
/// its own, where the policy is not to prefer serving over redirecting and
/// the store has a root index.
pub open spec fn served_path(
    raw: Seq<char>,
    store: Map<Seq<char>, Seq<u8>>,
    prefer_serve_over_redirect: bool,
) -> Option<Seq<char>> {
    if store.contains_key(lookup_path(raw)) {
        Some(lookup_path(raw))
    } else if index_candidate(raw) && !prefer_serve_over_redirect && store.contains_key(
        "index.html"@,
    ) {
        Some("index.html"@)
    } else {
        None
    }
}

/// Whether `raw` is still open to a redirect once the policy has been
/// applied: it is taken for a directory, and not both its index is in the
/// store and the policy prefers serving.
pub open spec fn redirect_eligible(
    raw: Seq<char>,
    store: Map<Seq<char>, Seq<u8>>,
    prefer_serve_over_redirect: bool,
) -> bool {
    index_candidate(raw) && !(prefer_serve_over_redirect && store.contains_key(lookup_path(raw)))
}

/// `/` and `/index.html` both stand for the root index, whatever the store
/// and the policy, and neither is ever answered with a redirect.
pub proof fn lemma_root_index(store: Map<Seq<char>, Seq<u8>>, prefer_serve_over_redirect: bool)
    ensures
        lookup_path("/"@) == "index.html"@,
        lookup_path("/index.html"@) == "index.html"@,
        served_path("/"@, store, prefer_serve_over_redirect) == served_path(
            "/index.html"@,
            store,
            prefer_serve_over_redirect,
        ),
        store.contains_key("index.html"@) <==> served_path("/"@, store, prefer_serve_over_redirect)
            == Some("index.html"@),
        !store.contains_key("index.html"@) <==> served_path("/"@, store, prefer_serve_over_redirect)
            is None,
        !redirect_eligible("/"@, store, prefer_serve_over_redirect),
        !redirect_eligible("/index.html"@, store, prefer_serve_over_redirect),
{
}

/// Where serving is preferred, a directory is answered with its own index
/// if the store has it, and with a redirect if not.
pub proof fn lemma_directory_serving_preferred(raw: Seq<char>, store: Map<Seq<char>, Seq<u8>>)
    requires
        index_candidate(raw),
    ensures
        store.contains_key(lookup_path(raw)) ==> served_path(raw, store, true) == Some(
            lookup_path(raw),
        ),
        !store.contains_key(lookup_path(raw)) ==> served_path(raw, store, true) is None
            && redirect_eligible(raw, store, true),
{
}

/// Where serving is not preferred, a directory is answered with its own
/// index if the store has it, else with the root index if the store has
/// that, and with a redirect if it has neither.
pub proof fn lemma_directory_serving_not_preferred(raw: Seq<char>, store: Map<Seq<char>, Seq<u8>>)
    requires
        index_candidate(raw),
    ensures
        redirect_eligible(raw, store, false),
        store.contains_key(lookup_path(raw)) ==> served_path(raw, store, false) == Some(
            lookup_path(raw),
        ),
        !store.contains_key(lookup_path(raw)) && store.contains_key("index.html"@) ==> served_path(
            raw,
            store,
            false,
        ) == Some("index.html"@),
        !store.contains_key(lookup_path(raw)) && !store.contains_key("index.html"@)
            ==> served_path(raw, store, false) is None,
{
}

/// A path with a `.` in it and without a `/` at its end is looked up as it
/// stands, without its leading `/`: it is served if the store has it and not
/// found if not, and is never answered with a redirect.
pub proof fn lemma_file_path(
    raw: Seq<char>,
    store: Map<Seq<char>, Seq<u8>>,
    prefer_serve_over_redirect: bool,
)
    requires
        !is_root(raw),
        base_path(raw).contains('.'),
        !ends_with(base_path(raw), '/'),
    ensures
        lookup_path(raw) == base_path(raw),
        !redirect_eligible(raw, store, prefer_serve_over_redirect),
        store.contains_key(base_path(raw)) ==> served_path(raw, store, prefer_serve_over_redirect)
            == Some(base_path(raw)),
        !store.contains_key(base_path(raw)) ==> served_path(raw, store, prefer_serve_over_redirect)
            is None,
{
}

/// What was found out about one request.
pub struct ResolvedRequest<'a> {
    /// The path that was looked up, and from which the media type is taken.
    pub lookup_path: String,
    /// Whether a redirect answers the request where no asset does.
    pub redirect_eligible: bool,
    /// The asset that answers the request.
    pub asset: Option<&'a Asset>,
}

/// The answer to one request.
pub enum Response<'a> {
    /// Status 200 with the asset's bytes and its `Content-Type` line.
    Serve { content_type: &'static str, body: &'a [u8] },
    /// Status 307 with `Location: /`.
    Redirect,
    /// Status 404.
    NotFound,
}

impl<'a> Response<'a> {
    /// The status code of the answer.
    pub open spec fn spec_status_code(&self) -> u16 {
        match self {
            Response::Serve { .. } => 200,
            Response::Redirect => 307,
            Response::NotFound => 404,
        }
    }

    /// The one header line of the answer, if it has one.
    pub open spec fn spec_header(&self) -> Option<Seq<char>> {
        match self {
            Response::Serve { content_type, .. } => Some(content_type@),
            Response::Redirect => Some("Location: /"@),
            Response::NotFound => None,
        }
    }

    /// The fixed text that goes with a redirect and with a missing asset.
    pub open spec fn spec_message(&self) -> Option<Seq<char>> {
        match self {
            Response::Serve { .. } => None,
            Response::Redirect => Some("Temporary Redirect"@),
            Response::NotFound => Some("Not Found"@),
        }
    }

    /// The bytes of the answer's body.
    pub open spec fn spec_body(&self) -> Seq<u8> {
        match self {
            Response::Serve { body, .. } => body@,
            Response::Redirect => "Temporary Redirect".spec_bytes(),
            Response::NotFound => "Not Found".spec_bytes(),
        }
    }

    /// The status code of the answer.
    pub fn status_code(&self) -> (code: u16)
        ensures
            code == self.spec_status_code(),
    {
        match self {
            Response::Serve { .. } => 200,
            Response::Redirect => 307,
            Response::NotFound => 404,
        }
    }

    /// The one header line of the answer, if it has one.
    pub fn header(&self) -> (line: Option<&'static str>)
        ensures
            match line {
                Some(text) => self.spec_header() == Some(text@),
                None => self.spec_header() is None,
            },
    {
        match self {
            Response::Serve { content_type, .. } => Some(*content_type),
            Response::Redirect => Some("Location: /"),
            Response::NotFound => None,
        }
    }

    /// The fixed text that goes with a redirect and with a missing asset, as
    /// status message and as body.
    pub fn message(&self) -> (text: Option<&'static str>)
        ensures
            match text {
                Some(t) => self.spec_message() == Some(t@),
                None => self.spec_message() is None,
            },
    {
        match self {
            Response::Serve { .. } => None,
            Response::Redirect => Some("Temporary Redirect"),
            Response::NotFound => Some("Not Found"),
        }
    }

    /// The bytes of the answer's body.
    pub fn body(&self) -> (bytes: &[u8])
        ensures
            bytes@ == self.spec_body(),
    {
        match self {
            Response::Serve { body, .. } => *body,
            Response::Redirect => "Temporary Redirect".as_bytes(),
            Response::NotFound => "Not Found".as_bytes(),
        }
    }
}

/// The request handler. Its one setting is fixed when it is made.
pub struct Router {
    /// Serve the index of a directory where the store has it, and answer
    /// with a redirect where it has not. Where this is off, a directory
    /// without an index of its own is answered with the root index.
    pub prefer_serve_over_redirect: bool,
}

impl Router {
    /// A handler with the given policy.
    pub fn new(prefer_serve_over_redirect: bool) -> (router: Self)
        ensures
            router.prefer_serve_over_redirect == prefer_serve_over_redirect,
    {
        Router { prefer_serve_over_redirect }
    }

    /// Finds the asset for the request path `raw`.
    pub fn resolve<'a>(&self, raw: &str, store: &'a AssetStore) -> (resolved: ResolvedRequest<'a>)
        ensures
            resolved.lookup_path@ == lookup_path(raw@),
            resolved.redirect_eligible == redirect_eligible(
                raw@,
                store@,
                self.prefer_serve_over_redirect,
            ),
            match resolved.asset {
                Some(asset) => served_path(raw@, store@, self.prefer_serve_over_redirect) == Some(
                    asset.path@,
                ) && asset.data@ == store@[asset.path@],
                None => served_path(raw@, store@, self.prefer_serve_over_redirect) is None,
            },
    {
        if str_eq(raw, "/") || str_eq(raw, "/index.html") {
            return ResolvedRequest {
                lookup_path: "index.html".to_owned(),
                redirect_eligible: false,
                asset: store.get("index.html"),
            };
        }
        let base = strip_leading(raw, '/');
        let mut path = base.to_owned();
        let mut redirect = false;
        if ends_with_char(base, '/') {
            path.append("index.html");
            redirect = true;
        } else if !contains_char(base, '.') {
            path.append("/index.html");
            redirect = true;
        }
        let mut asset = store.get(path.as_str());
        if redirect {
            if asset.is_some() && self.prefer_serve_over_redirect {
                redirect = false;
            } else if asset.is_none() && !self.prefer_serve_over_redirect {
                asset = store.get("index.html");
            }
        }
        ResolvedRequest { lookup_path: path, redirect_eligible: redirect, asset }
    }

    /// Answers the request path `raw`: the asset found for it is served,
    /// with the header line that `mimes` has for the media type of the lookup
    /// path; without an asset the answer is a redirect where the request is
    /// still open to one, and not found otherwise.
    pub fn call<'a>(&self, raw: &str, store: &'a AssetStore, mimes: &MimeMapper) -> (response:
        Response<'a>)
        ensures
            match served_path(raw@, store@, self.prefer_serve_over_redirect) {
                Some(path) => response matches Response::Serve { content_type, body } && body@
                    == store@[path] && (content_type@ == content_type_header(
                    first_or_octet_stream_of(path_types(lookup_path(raw@))),
                ) || content_type@ == CT_APPLICATION_OCTET_STREAM@),
                None => if redirect_eligible(raw@, store@, self.prefer_serve_over_redirect) {
                    response is Redirect
                } else {
                    response is NotFound
                },
            },
    {
        let resolved = self.resolve(raw, store);
        match resolved.asset {
            Some(asset) => {
                let mime = MimeClass::from_path(resolved.lookup_path.as_str());
                let content_type = mimes.get_or_insert(mime);
                Response::Serve { content_type, body: asset.data.as_slice() }
            },
            None => if resolved.redirect_eligible {
                Response::Redirect
            } else {
                Response::NotFound
            },
        }
    }
}

} // verus!
