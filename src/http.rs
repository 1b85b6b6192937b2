use vstd::prelude::*;

use crate::attributes::{shape_ok, AttributesView, DatasetAttributes, ElementType};
use crate::block::{block_decoding, decode_block, BlockView, DecodedBlock};
use crate::error::N5Error;
use crate::json::{
    attributes_document, json_parses, json_string_member, member_view, parse_attributes, parse_json,
    parse_string_member,
};
use crate::version::{decimal, push_decimal, semver_triple, Version, SUPPORTED_MAJOR};

verus! {

/// Name of the metadata document of a group or dataset.
pub const ATTRIBUTES_FILE: &'static str = "attributes.json";

/// Key of the format version in the root metadata document.
pub const VERSION_ATTRIBUTE_KEY: &'static str = "n5";

/// The HTTP methods the reader issues.
#[derive(Debug, Clone, Copy, PartialEq, Eq, Structural)]
pub enum HttpMethod {
    Get,
    Head,
}

/// A request for the transport to perform.
pub struct HttpRequest {
    pub method: HttpMethod,
    pub url: String,
}

/// What the transport received: status code, `ETag` header if present, and
/// body bytes.
pub struct HttpResponse {
    pub status: u16,
    pub etag: Option<String>,
    pub body: Vec<u8>,
}

/// The outcome of performing a request: a response, or the transport's
/// failure message.
pub type Fetched = Result<HttpResponse, String>;

/// Whether a status code is in the success class (2xx).
pub open spec fn is_success(status: u16) -> bool {
    200 <= status <= 299
}

/// Whether a status code is in the success class (2xx).
pub fn status_ok(status: u16) -> (r: bool)
    ensures
        r == is_success(status),
{
    200 <= status && status <= 299
}

/// Path of the metadata document of `path`; the root's is the file itself.
pub open spec fn attributes_path(path: Seq<char>) -> Seq<char> {
    if path.len() == 0 {
        ATTRIBUTES_FILE@
    } else {
        path + seq!['/'] + ATTRIBUTES_FILE@
    }
}

/// Path of the block at `coord` of the dataset at `path`: the coordinates in
/// decimal, each after a `/`.
pub open spec fn block_path(path: Seq<char>, coord: Seq<u64>) -> Seq<char>
    decreases coord.len(),
{
    if coord.len() == 0 {
        path
    } else {
        block_path(path, coord.drop_last()) + seq!['/'] + decimal(coord.last() as nat)
    }
}

/// URL of `rel` under the base URL `base`.
pub open spec fn url_of(base: Seq<char>, rel: Seq<char>) -> Seq<char> {
    base + seq!['/'] + rel
}

/// The error for a transport failure.
pub open spec fn transport_error(m: String) -> N5Error {
    N5Error::Transport(m)
}

/// The version that a version member gives: absent is `NotFound`; not a
/// string, or not a semantic version, is `Malformed`.
pub open spec fn version_of_member(member: Option<Option<Seq<char>>>) -> Result<Version, N5Error> {
    match member {
        None => Err(N5Error::NotFound),
        Some(None) => Err(N5Error::Malformed),
        Some(Some(s)) => match semver_triple(s) {
            Some(t) => Ok(Version { major: t.0, minor: t.1, patch: t.2 }),
            None => Err(N5Error::Malformed),
        },
    }
}

/// The version named by the root document's version member.
pub fn version_from_member(member: Option<Option<String>>) -> (r: Result<Version, N5Error>)
    ensures
        r == version_of_member(member_view(member)),
{
    match member {
        None => Err(N5Error::NotFound),
        Some(None) => Err(N5Error::Malformed),
        Some(Some(s)) => Version::parse(s.as_str()),
    }
}

/// What reading the root metadata document gives, from the outcome of its
/// request.
pub open spec fn version_outcome(fetched: Fetched) -> Result<Version, N5Error> {
    match fetched {
        Err(m) => Err(N5Error::Transport(m)),
        Ok(resp) => if !is_success(resp.status) {
            Err(N5Error::NotFound)
        } else if !json_parses(resp.body@) {
            Err(N5Error::Malformed)
        } else {
            version_of_member(json_string_member(resp.body@, VERSION_ATTRIBUTE_KEY@))
        },
    }
}

/// What a block read gives, from the outcome of its request: `TypeMismatch`
/// where `elem` is not the dataset's element type, `None` for a missing
/// block, `Malformed` for bytes that do not decode, and otherwise the
/// decoded block with the `ETag` of the same response.
pub open spec fn block_read(
    a: AttributesView,
    coord: Seq<u64>,
    elem: ElementType,
    fetched: Fetched,
) -> Result<Option<(BlockView, Option<String>)>, N5Error> {
    if elem != a.data_type {
        Err(N5Error::TypeMismatch)
    } else {
        match fetched {
            Err(m) => Err(N5Error::Transport(m)),
            Ok(resp) => if !is_success(resp.status) {
                Ok(None)
            } else {
                match block_decoding(resp.body@, a.block_size, a.scheme, elem, coord) {
                    Some(v) => Ok(Some((v, resp.etag))),
                    None => Err(N5Error::Malformed),
                }
            },
        }
    }
}

/// A block read's result as views.
pub open spec fn etag_read_view(r: Result<Option<(DecodedBlock, Option<String>)>, N5Error>) -> Result<Option<(BlockView, Option<String>)>, N5Error> {
    match r {
        Ok(Some((b, e))) => Ok(Some((b@, e))),
        Ok(None) => Ok(None),
        Err(x) => Err(x),
    }
}

/// A block read's result as views.
pub open spec fn read_view(r: Result<Option<DecodedBlock>, N5Error>) -> Result<Option<BlockView>, N5Error> {
    match r {
        Ok(Some(b)) => Ok(Some(b@)),
        Ok(None) => Ok(None),
        Err(x) => Err(x),
    }
}

/// A block read's result without the `ETag`.
pub open spec fn without_etag(r: Result<Option<(BlockView, Option<String>)>, N5Error>) -> Result<Option<BlockView>, N5Error> {
    match r {
        Ok(Some((b, _))) => Ok(Some(b)),
        Ok(None) => Ok(None),
        Err(x) => Err(x),
    }
}

/// Dataset existence as a reader without its own check derives it: the
/// path exists and its attributes can be read. A failure of the attributes
/// read counts as absence; a failure of the existence check is passed on.
pub fn combine_dataset_exists(
    found: Result<bool, N5Error>,
    attributes: Result<DatasetAttributes, N5Error>,
) -> (r: Result<bool, N5Error>)
    ensures
        match found {
            Ok(e) => r == Ok::<bool, N5Error>(e && (attributes is Ok)),
            Err(x) => r == Err::<bool, N5Error>(x),
        },
{
    match found {
        Ok(e) => Ok(e && attributes.is_ok()),
        Err(x) => Err(x),
    }
}

/// A reader of an N5 container served over HTTP from a base URL.
///
/// The reader builds the requests for each operation and interprets what
/// the transport received; performing the requests is the caller's part.
#[derive(Clone)]
pub struct N5HTTPFetch {
    base_path: String,
}

impl View for N5HTTPFetch {
    type V = Seq<char>;

    closed spec fn view(&self) -> Seq<char> {
        self.base_path@
    }
}

impl N5HTTPFetch {
    /// A reader for the container at `base_path`.
    pub fn new(base_path: &str) -> (r: N5HTTPFetch)
        ensures
            r@ == base_path@,
    {
        N5HTTPFetch { base_path: String::from_str(base_path) }
    }

    /// The base URL.
    pub fn base_path(&self) -> (r: &str)
        ensures
            r@ == self@,
    {
        self.base_path.as_str()
    }

    /// The reader, once the root document's version is known to be readable.
    ///
    /// `root` is the outcome of `version_request`. The reader comes back
    /// where the version's major part is not newer than the supported one;
    /// a newer one is `Incompatible`; otherwise the error of `get_version`.
    pub fn open(self, root: Fetched) -> (r: Result<N5HTTPFetch, N5Error>)
        ensures
            match version_outcome(root) {
                Ok(v) => if v.major <= SUPPORTED_MAJOR {
                    r matches Ok(f) && f@ == self@
                } else {
                    r == Err::<N5HTTPFetch, N5Error>(N5Error::Incompatible)
                },
                Err(e) => r == Err::<N5HTTPFetch, N5Error>(e),
            },
    {
        match self.get_version(root) {
            Ok(v) => {
                if Version::supported().is_compatible(&v) {
                    Ok(self)
                } else {
                    Err(N5Error::Incompatible)
                }
            },
            Err(e) => Err(e),
        }
    }

    /// `path` followed by each coordinate in decimal, each after a `/`.
    pub fn relative_block_path(&self, path_name: &str, grid_position: &[u64]) -> (r: String)
        ensures
            r@ == block_path(path_name@, grid_position@),
    {
        let mut s = String::from_str(path_name);
        let mut i: usize = 0;
        proof {
            reveal_strlit("/");
            assert(grid_position@.subrange(0, 0) =~= Seq::<u64>::empty());
        }
        while i < grid_position.len()
            invariant
                0 <= i <= grid_position@.len(),
                s@ == block_path(path_name@, grid_position@.subrange(0, i as int)),
            decreases grid_position@.len() - i,
        {
            s.append("/");
            push_decimal(&mut s, grid_position[i]);
            proof {
                let c = grid_position@.subrange(0, i + 1);
                reveal_strlit("/");
                assert(c.drop_last() =~= grid_position@.subrange(0, i as int));
                assert(c.last() == grid_position@[i as int]);
                assert(block_path(path_name@, c) == block_path(path_name@, c.drop_last()) + seq!['/']
                    + decimal(c.last() as nat));
                assert(s@ =~= block_path(path_name@, c));
            }
            i = i + 1;
        }
        proof {
            assert(grid_position@.subrange(0, grid_position@.len() as int) =~= grid_position@);
        }
        s
    }

    /// Path of the metadata document of `path_name`.
    pub fn get_dataset_attributes_path(&self, path_name: &str) -> (r: String)
        ensures
            r@ == attributes_path(path_name@),
    {
        if path_name.is_empty() {
            String::from_str(ATTRIBUTES_FILE)
        } else {
            let mut s = String::from_str(path_name);
            s.append("/");
            s.append(ATTRIBUTES_FILE);
            proof {
                reveal_strlit("/");
            }
            s
        }
    }

    /// A request of `method` for `rel` under the base URL.
    fn request(&self, method: HttpMethod, rel: &str) -> (r: HttpRequest)
        ensures
            r.method == method,
            r.url@ == url_of(self@, rel@),
    {
        let mut url = self.base_path.clone();
        url.append("/");
        url.append(rel);
        proof {
            reveal_strlit("/");
        }
        HttpRequest { method, url }
    }

    /// The request for the root metadata document, which holds the version.
    pub fn version_request(&self) -> (r: HttpRequest)
        ensures
            r.method == HttpMethod::Get,
            r.url@ == url_of(self@, attributes_path(Seq::empty())),
    {
        let p = self.get_dataset_attributes_path("");
        proof {
            reveal_strlit("");
        }
        self.request(HttpMethod::Get, p.as_str())
    }

    /// The request for the metadata document of `path_name`; its outcome
    /// serves `get_dataset_attributes`, `list_attributes` and
    /// `dataset_exists`.
    pub fn attributes_request(&self, path_name: &str) -> (r: HttpRequest)
        ensures
            r.method == HttpMethod::Get,
            r.url@ == url_of(self@, attributes_path(path_name@)),
    {
        let p = self.get_dataset_attributes_path(path_name);
        self.request(HttpMethod::Get, p.as_str())
    }

    /// The request whose outcome serves `path_exists`.
    pub fn exists_request(&self, path_name: &str) -> (r: HttpRequest)
        ensures
            r.method == HttpMethod::Get,
            r.url@ == url_of(self@, path_name@),
    {
        self.request(HttpMethod::Get, path_name)
    }

    /// The request for a block's bytes; its outcome serves `read_block` and
    /// `read_block_with_etag`.
    pub fn block_request(&self, path_name: &str, grid_position: &[u64]) -> (r: HttpRequest)
        ensures
            r.method == HttpMethod::Get,
            r.url@ == url_of(self@, block_path(path_name@, grid_position@)),
    {
        let p = self.relative_block_path(path_name, grid_position);
        self.request(HttpMethod::Get, p.as_str())
    }

    /// The request for a block's headers alone; its outcome serves
    /// `block_etag`.
    pub fn block_etag_request(&self, path_name: &str, grid_position: &[u64]) -> (r: HttpRequest)
        ensures
            r.method == HttpMethod::Head,
            r.url@ == url_of(self@, block_path(path_name@, grid_position@)),
    {
        let p = self.relative_block_path(path_name, grid_position);
        self.request(HttpMethod::Head, p.as_str())
    }

    /// The body of a successful response, with the errors common to the
    /// metadata reads: transport failure, and `NotFound` on another status.
    fn document_body(fetched: Fetched) -> (r: Result<Vec<u8>, N5Error>)
        ensures
            match fetched {
                Err(m) => r == Err::<Vec<u8>, N5Error>(transport_error(m)),
                Ok(resp) => if is_success(resp.status) {
                    r matches Ok(b) && b@ == resp.body@
                } else {
                    r == Err::<Vec<u8>, N5Error>(N5Error::NotFound)
                },
            },
    {
        match fetched {
            Err(m) => Err(N5Error::Transport(m)),
            Ok(resp) => {
                if status_ok(resp.status) {
                    Ok(resp.body)
                } else {
                    Err(N5Error::NotFound)
                }
            },
        }
    }

    /// The container's format version, from the outcome of
    /// `version_request`.
    ///
    /// A missing document or version member is `NotFound`; a document that
    /// is not JSON, a member that is not a string or not a semantic version
    /// is `Malformed`.
    pub fn get_version(&self, fetched: Fetched) -> (r: Result<Version, N5Error>)
        ensures
            r == version_outcome(fetched),
    {
        let body = Self::document_body(fetched)?;
        match parse_string_member(body.as_slice(), VERSION_ATTRIBUTE_KEY) {
            None => Err(N5Error::Malformed),
            Some(member) => version_from_member(member),
        }
    }

    /// The attributes of the dataset at a path, from the outcome of
    /// `attributes_request`.
    ///
    /// A missing document is `NotFound`; one that is not a dataset
    /// attributes document, or whose dimensions and block size differ in
    /// length or are empty, is `Malformed`.
    pub fn get_dataset_attributes(&self, fetched: Fetched) -> (r: Result<DatasetAttributes, N5Error>)
        ensures
            match fetched {
                Err(m) => r == Err::<DatasetAttributes, N5Error>(transport_error(m)),
                Ok(resp) => if !is_success(resp.status) {
                    r == Err::<DatasetAttributes, N5Error>(N5Error::NotFound)
                } else {
                    match attributes_document(resp.body@) {
                        Some((d, b, t, c)) => if shape_ok(d, b) {
                            r matches Ok(a) && a@ == (AttributesView { dimensions: d, block_size: b, data_type: t, scheme: c })
                        } else {
                            r == Err::<DatasetAttributes, N5Error>(N5Error::Malformed)
                        },
                        None => r == Err::<DatasetAttributes, N5Error>(N5Error::Malformed),
                    }
                },
            },
    {
        let body = Self::document_body(fetched)?;
        match parse_attributes(body.as_slice()) {
            None => Err(N5Error::Malformed),
            Some((d, b, t, c)) => {
                match DatasetAttributes::try_new(d, b, ElementType::from_n5(t), c) {
                    Some(a) => Ok(a),
                    None => Err(N5Error::Malformed),
                }
            },
        }
    }

    /// Whether a resource exists at a path, from the outcome of
    /// `exists_request`: a successful status means it does.
    pub fn path_exists(&self, fetched: Fetched) -> (r: Result<bool, N5Error>)
        ensures
            match fetched {
                Err(m) => r == Err::<bool, N5Error>(transport_error(m)),
                Ok(resp) => r == Ok::<bool, N5Error>(is_success(resp.status)),
            },
    {
        match fetched {
            Err(m) => Err(N5Error::Transport(m)),
            Ok(resp) => Ok(status_ok(resp.status)),
        }
    }

    /// Whether a dataset exists at a path, from the outcome of
    /// `attributes_request`: its metadata document is served.
    pub fn dataset_exists(&self, fetched: Fetched) -> (r: Result<bool, N5Error>)
        ensures
            match fetched {
                Err(m) => r == Err::<bool, N5Error>(transport_error(m)),
                Ok(resp) => r == Ok::<bool, N5Error>(is_success(resp.status)),
            },
    {
        self.path_exists(fetched)
    }

    /// Listing the children of a group: a flat HTTP origin cannot be
    /// enumerated, so this is `Unsupported`.
    pub fn list(&self, path_name: &str) -> (r: Result<Vec<String>, N5Error>)
        ensures
            r == Err::<Vec<String>, N5Error>(N5Error::Unsupported),
    {
        Err(N5Error::Unsupported)
    }

    /// The whole metadata document at a path, from the outcome of
    /// `attributes_request`.
    pub fn list_attributes(&self, fetched: Fetched) -> (r: Result<serde_json::Value, N5Error>)
        ensures
            match fetched {
                Err(m) => r == Err::<serde_json::Value, N5Error>(transport_error(m)),
                Ok(resp) => if !is_success(resp.status) {
                    r == Err::<serde_json::Value, N5Error>(N5Error::NotFound)
                } else {
                    (json_parses(resp.body@) ==> r is Ok)
                        && (!json_parses(resp.body@) ==> r == Err::<serde_json::Value, N5Error>(N5Error::Malformed))
                },
            },
    {
        let body = Self::document_body(fetched)?;
        match parse_json(body.as_slice()) {
            None => Err(N5Error::Malformed),
            Some(doc) => Ok(doc),
        }
    }

    /// The `ETag` of a block, from the outcome of `block_etag_request`: the
    /// header of a successful response, and `None` for a missing block.
    pub fn block_etag(&self, fetched: Fetched) -> (r: Result<Option<String>, N5Error>)
        ensures
            match fetched {
                Err(m) => r == Err::<Option<String>, N5Error>(transport_error(m)),
                Ok(resp) => r == Ok::<Option<String>, N5Error>(
                    if is_success(resp.status) { resp.etag } else { None },
                ),
            },
    {
        match fetched {
            Err(m) => Err(N5Error::Transport(m)),
            Ok(resp) => {
                if status_ok(resp.status) {
                    Ok(resp.etag)
                } else {
                    Ok(None)
                }
            },
        }
    }

    /// The bytes of a block and the `ETag` that came with them, from the
    /// outcome of `block_request`; `None` for a missing block.
    pub fn block_payload(&self, fetched: Fetched) -> (r: Result<Option<(Vec<u8>, Option<String>)>, N5Error>)
        ensures
            match fetched {
                Err(m) => r == Err::<Option<(Vec<u8>, Option<String>)>, N5Error>(transport_error(m)),
                Ok(resp) => if is_success(resp.status) {
                    r matches Ok(Some((b, e))) && b@ == resp.body@ && e == resp.etag
                } else {
                    r == Ok::<Option<(Vec<u8>, Option<String>)>, N5Error>(None)
                },
            },
    {
        match fetched {
            Err(m) => Err(N5Error::Transport(m)),
            Ok(resp) => {
                if status_ok(resp.status) {
                    Ok(Some((resp.body, resp.etag)))
                } else {
                    Ok(None)
                }
            },
        }
    }

    /// The block at `grid_position` decoded as `elem` elements, paired with
    /// the `ETag` of the response whose bytes were decoded, as `block_read`
    /// gives it.
    ///
    /// `elem` must be the dataset's declared element type, else
    /// `TypeMismatch`. A missing block is `None`; bytes the codec rejects, or
    /// that hold more elements than a block has room for, are `Malformed`.
    pub fn read_block_with_etag(
        &self,
        data_attrs: &DatasetAttributes,
        grid_position: &Vec<u64>,
        elem: ElementType,
        fetched: Fetched,
    ) -> (r: Result<Option<(DecodedBlock, Option<String>)>, N5Error>)
        ensures
            etag_read_view(r) == block_read(data_attrs@, grid_position@, elem, fetched),
    {
        if elem != data_attrs.get_data_type() {
            return Err(N5Error::TypeMismatch);
        }
        match self.block_payload(fetched)? {
            None => Ok(None),
            Some((bytes, etag)) => {
                let b = decode_block(bytes.as_slice(), data_attrs, grid_position)?;
                Ok(Some((b, etag)))
            },
        }
    }

    /// The block at `grid_position` decoded as `elem` elements: what
    /// `read_block_with_etag` gives, without the `ETag`.
    pub fn read_block(
        &self,
        data_attrs: &DatasetAttributes,
        grid_position: &Vec<u64>,
        elem: ElementType,
        fetched: Fetched,
    ) -> (r: Result<Option<DecodedBlock>, N5Error>)
        ensures
            read_view(r) == without_etag(block_read(data_attrs@, grid_position@, elem, fetched)),
    {
        match self.read_block_with_etag(data_attrs, grid_position, elem, fetched) {
            Ok(Some((b, _etag))) => Ok(Some(b)),
            Ok(None) => Ok(None),
            Err(e) => Err(e),
        }
    }
}

} // verus!
