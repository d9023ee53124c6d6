//! Request descriptors and their canonical query encodings.
//!
//! Every descriptor is an option bag: a field left unset is omitted from
//! the encoded query entirely, never emitted with an empty value.  Encoding
//! is deterministic: fields are emitted in a fixed order, booleans as the
//! literal `true`/`false` tokens, numbers in canonical decimal, and names
//! and values percent-encoded per the non-alphanumeric rule.

use vstd::prelude::*;
use vstd::string::StringExecFns;
use crate::encode::{
    QueryPairs, bool_to_string, opt_pair, i64_to_string, spec_bool_token, spec_dec, spec_dec_signed,
    spec_join, spec_render_query, u64_to_string,
};
use crate::error::Error;

verus! {

/// The filter of a torrent-list request.
#[derive(Debug, Clone, Copy, PartialEq, Eq, Structural)]
pub enum TorrentFilter {
    All,
    Downloading,
    Completed,
    Paused,
    Active,
}

/// The wire token of a list filter.
pub open spec fn spec_filter_token(f: TorrentFilter) -> Seq<char> {
    match f {
        TorrentFilter::All => "all"@,
        TorrentFilter::Downloading => "downloading"@,
        TorrentFilter::Completed => "completed"@,
        TorrentFilter::Paused => "paused"@,
        TorrentFilter::Active => "active"@,
    }
}

impl TorrentFilter {
    /// Writes the filter as its wire token.
    pub fn token(&self) -> (r: String)
        ensures
            r@ == spec_filter_token(*self),
    {
        match self {
            TorrentFilter::All => String::from_str("all"),
            TorrentFilter::Downloading => String::from_str("downloading"),
            TorrentFilter::Completed => String::from_str("completed"),
            TorrentFilter::Paused => String::from_str("paused"),
            TorrentFilter::Active => String::from_str("active"),
        }
    }
}

impl Default for TorrentFilter {
    fn default() -> (r: Self)
        ensures
            r == TorrentFilter::All,
    {
        TorrentFilter::All
    }
}

/// A request for entries of the remote service's main log.
#[derive(Debug, Clone)]
pub struct LogRequest {
    pub normal: bool,
    pub info: bool,
    pub warning: bool,
    pub critical: bool,
    pub last_known_id: u64,
}

impl Default for LogRequest {
    fn default() -> (r: Self)
        ensures
            r == (LogRequest {
                normal: false,
                info: false,
                warning: false,
                critical: false,
                last_known_id: 0u64,
            }),
    {
        LogRequest { normal: false, info: false, warning: false, critical: false, last_known_id: 0 }
    }
}

/// The parameters a log request emits, in their fixed order.  Every field
/// of the descriptor has a value, so all five are always present.
pub open spec fn spec_log_request_pairs(r: LogRequest) -> Seq<(Seq<char>, Seq<char>)> {
    seq![
        ("normal"@, spec_bool_token(r.normal)),
        ("info"@, spec_bool_token(r.info)),
        ("warning"@, spec_bool_token(r.warning)),
        ("critical"@, spec_bool_token(r.critical)),
        ("last_known_id"@, spec_dec(r.last_known_id as int)),
    ]
}

impl LogRequest {
    /// Renders the query string of the request.
    pub fn url(&self) -> (r: String)
        ensures
            r@ == spec_render_query(spec_log_request_pairs(*self)),
    {
        let mut q = QueryPairs::new();
        q.add("normal", bool_to_string(self.normal));
        q.add("info", bool_to_string(self.info));
        q.add("warning", bool_to_string(self.warning));
        q.add("critical", bool_to_string(self.critical));
        q.add("last_known_id", u64_to_string(self.last_known_id));
        proof {
            assert(q@ =~= spec_log_request_pairs(*self));
        }
        q.render()
    }
}

/// Builds a [`LogRequest`] field by field, starting from the defaults.
#[derive(Debug, Clone)]
pub struct LogRequestBuilder {
    pub req: LogRequest,
}

impl LogRequestBuilder {
    /// Starts from the default request.
    pub fn new() -> (r: LogRequestBuilder)
        ensures
            r.req == (LogRequest {
                normal: false,
                info: false,
                warning: false,
                critical: false,
                last_known_id: 0u64,
            }),
    {
        LogRequestBuilder {
            req: LogRequest {
                normal: false,
                info: false,
                warning: false,
                critical: false,
                last_known_id: 0,
            },
        }
    }

    pub fn normal(self, v: bool) -> (r: Self)
        ensures
            r.req == (LogRequest { normal: v, ..self.req }),
    {
        LogRequestBuilder { req: LogRequest { normal: v, ..self.req } }
    }

    pub fn info(self, v: bool) -> (r: Self)
        ensures
            r.req == (LogRequest { info: v, ..self.req }),
    {
        LogRequestBuilder { req: LogRequest { info: v, ..self.req } }
    }

    pub fn warning(self, v: bool) -> (r: Self)
        ensures
            r.req == (LogRequest { warning: v, ..self.req }),
    {
        LogRequestBuilder { req: LogRequest { warning: v, ..self.req } }
    }

    pub fn critical(self, v: bool) -> (r: Self)
        ensures
            r.req == (LogRequest { critical: v, ..self.req }),
    {
        LogRequestBuilder { req: LogRequest { critical: v, ..self.req } }
    }

    pub fn last_known_id(self, v: u64) -> (r: Self)
        ensures
            r.req == (LogRequest { last_known_id: v, ..self.req }),
    {
        LogRequestBuilder { req: LogRequest { last_known_id: v, ..self.req } }
    }

    /// Finishes the request.
    pub fn build(self) -> (r: LogRequest)
        ensures
            r == self.req,
    {
        self.req
    }
}


fn add_opt_string(q: &mut QueryPairs, name: &str, v: &Option<String>)
    ensures
        final(q)@ == old(q)@ + opt_pair(name@, match v {
            Some(s) => Some(s@),
            None => None,
        }),
{
    let ghost q0 = q@;
    match v {
        Some(s) => {
            q.add(name, s.clone());
            proof {
                assert(q@ =~= q0 + opt_pair(name@, Some(s@)));
            }
        },
        None => {
            proof {
                assert(q@ =~= q0 + opt_pair(name@, None));
            }
        },
    }
}

fn add_opt_i64(q: &mut QueryPairs, name: &str, v: &Option<i64>)
    ensures
        final(q)@ == old(q)@ + opt_pair(name@, match v {
            Some(n) => Some(spec_dec_signed(*n as int)),
            None => None,
        }),
{
    let ghost q0 = q@;
    match v {
        Some(n) => {
            q.add(name, i64_to_string(*n));
            proof {
                assert(q@ =~= q0 + opt_pair(name@, Some(spec_dec_signed(*n as int))));
            }
        },
        None => {
            proof {
                assert(q@ =~= q0 + opt_pair(name@, None));
            }
        },
    }
}

fn add_opt_u64(q: &mut QueryPairs, name: &str, v: &Option<u64>)
    ensures
        final(q)@ == old(q)@ + opt_pair(name@, match v {
            Some(n) => Some(spec_dec(*n as int)),
            None => None,
        }),
{
    let ghost q0 = q@;
    match v {
        Some(n) => {
            q.add(name, u64_to_string(*n));
            proof {
                assert(q@ =~= q0 + opt_pair(name@, Some(spec_dec(*n as int))));
            }
        },
        None => {
            proof {
                assert(q@ =~= q0 + opt_pair(name@, None));
            }
        },
    }
}

fn add_opt_bool(q: &mut QueryPairs, name: &str, v: &Option<bool>)
    ensures
        final(q)@ == old(q)@ + opt_pair(name@, match v {
            Some(b) => Some(spec_bool_token(*b)),
            None => None,
        }),
{
    let ghost q0 = q@;
    match v {
        Some(b) => {
            q.add(name, bool_to_string(*b));
            proof {
                assert(q@ =~= q0 + opt_pair(name@, Some(spec_bool_token(*b))));
            }
        },
        None => {
            proof {
                assert(q@ =~= q0 + opt_pair(name@, None));
            }
        },
    }
}

/// A filtered torrent-list request; every field is optional.
#[derive(Debug, Clone)]
pub struct TorrentRequest {
    pub filter: Option<TorrentFilter>,
    pub category: Option<String>,
    pub sort: Option<String>,
    pub reverse: Option<bool>,
    pub limit: Option<u64>,
    pub offset: Option<i64>,
    pub hash: Option<crate::data::Hash>,
}

impl Default for TorrentRequest {
    fn default() -> (r: Self)
        ensures
            r.filter is None,
            r.category is None,
            r.sort is None,
            r.reverse is None,
            r.limit is None,
            r.offset is None,
            r.hash is None,
    {
        TorrentRequest {
            filter: None,
            category: None,
            sort: None,
            reverse: None,
            limit: None,
            offset: None,
            hash: None,
        }
    }
}

/// The parameters a torrent-list request emits: one per set field, in the
/// fixed order filter, category, sort, reverse, limit, offset, hashes; an
/// unset field contributes nothing.
pub open spec fn spec_torrent_request_pairs(r: TorrentRequest) -> Seq<(Seq<char>, Seq<char>)> {
    (match r.filter {
        Some(f) => seq![("filter"@, spec_filter_token(f))],
        None => Seq::empty(),
    }) + (match r.category {
        Some(c) => seq![("category"@, c@)],
        None => Seq::empty(),
    }) + (match r.sort {
        Some(s) => seq![("sort"@, s@)],
        None => Seq::empty(),
    }) + (match r.reverse {
        Some(b) => seq![("reverse"@, spec_bool_token(b))],
        None => Seq::empty(),
    }) + (match r.limit {
        Some(n) => seq![("limit"@, spec_dec(n as int))],
        None => Seq::empty(),
    }) + (match r.offset {
        Some(n) => seq![("offset"@, spec_dec_signed(n as int))],
        None => Seq::empty(),
    }) + (match r.hash {
        Some(h) => seq![("hashes"@, h@)],
        None => Seq::empty(),
    })
}

impl TorrentRequest {
    /// Renders the query string of the request: one `name=value` parameter
    /// per set field, none for an unset field.
    #[verifier::rlimit(50)]
    pub fn url(&self) -> (r: String)
        ensures
            r@ == spec_render_query(spec_torrent_request_pairs(*self)),
    {
        let mut q = QueryPairs::new();
        match &self.filter {
            Some(f) => q.add("filter", f.token()),
            None => {},
        }
        proof {
            assert(q@ =~= (match self.filter {
                Some(f) => seq![("filter"@, spec_filter_token(f))],
                None => Seq::<(Seq<char>, Seq<char>)>::empty(),
            }));
        }
        add_opt_string(&mut q, "category", &self.category);
        add_opt_string(&mut q, "sort", &self.sort);
        add_opt_bool(&mut q, "reverse", &self.reverse);
        add_opt_u64(&mut q, "limit", &self.limit);
        add_opt_i64(&mut q, "offset", &self.offset);
        match &self.hash {
            Some(h) => q.add("hashes", h.hash.clone()),
            None => {},
        }
        proof {
            assert(q@ =~= spec_torrent_request_pairs(*self));
        }
        q.render()
    }
}

/// Builds a [`TorrentRequest`] field by field; every field starts unset.
#[derive(Debug, Clone)]
pub struct TorrentRequestBuilder {
    pub req: TorrentRequest,
}

impl TorrentRequestBuilder {
    /// Starts with every field unset.
    pub fn new() -> (r: TorrentRequestBuilder)
        ensures
            r.req.filter is None,
            r.req.category is None,
            r.req.sort is None,
            r.req.reverse is None,
            r.req.limit is None,
            r.req.offset is None,
            r.req.hash is None,
    {
        TorrentRequestBuilder {
            req: TorrentRequest {
                filter: None,
                category: None,
                sort: None,
                reverse: None,
                limit: None,
                offset: None,
                hash: None,
            },
        }
    }

    pub fn filter(self, v: TorrentFilter) -> (r: Self)
        ensures
            r.req == (TorrentRequest { filter: Some(v), ..self.req }),
    {
        TorrentRequestBuilder { req: TorrentRequest { filter: Some(v), ..self.req } }
    }

    pub fn category(self, v: String) -> (r: Self)
        ensures
            r.req == (TorrentRequest { category: Some(v), ..self.req }),
    {
        TorrentRequestBuilder { req: TorrentRequest { category: Some(v), ..self.req } }
    }

    pub fn sort(self, v: String) -> (r: Self)
        ensures
            r.req == (TorrentRequest { sort: Some(v), ..self.req }),
    {
        TorrentRequestBuilder { req: TorrentRequest { sort: Some(v), ..self.req } }
    }

    pub fn reverse(self, v: bool) -> (r: Self)
        ensures
            r.req == (TorrentRequest { reverse: Some(v), ..self.req }),
    {
        TorrentRequestBuilder { req: TorrentRequest { reverse: Some(v), ..self.req } }
    }

    pub fn limit(self, v: u64) -> (r: Self)
        ensures
            r.req == (TorrentRequest { limit: Some(v), ..self.req }),
    {
        TorrentRequestBuilder { req: TorrentRequest { limit: Some(v), ..self.req } }
    }

    pub fn offset(self, v: i64) -> (r: Self)
        ensures
            r.req == (TorrentRequest { offset: Some(v), ..self.req }),
    {
        TorrentRequestBuilder { req: TorrentRequest { offset: Some(v), ..self.req } }
    }

    pub fn hash(self, v: crate::data::Hash) -> (r: Self)
        ensures
            r.req == (TorrentRequest { hash: Some(v), ..self.req }),
    {
        TorrentRequestBuilder { req: TorrentRequest { hash: Some(v), ..self.req } }
    }

    /// Finishes the request.
    pub fn build(self) -> (r: TorrentRequest)
        ensures
            r == self.req,
    {
        self.req
    }
}

/// Parameters for adding a download by URL; every field is optional.
///
/// Raw torrent-file payloads (`torrents`) ride a multipart form, not this
/// URL-encoded body, so the encoding omits that field; a caller that sets
/// it must send it by multipart itself.
#[derive(Debug, Clone)]
pub struct TorrentDownload {
    pub urls: Option<String>,
    pub torrents: Option<Vec<u8>>,
    pub savepath: Option<String>,
    pub cookie: Option<String>,
    pub category: Option<String>,
    pub skip_checking: Option<String>,
    pub paused: Option<String>,
    pub root_folder: Option<String>,
    pub rename: Option<String>,
    pub upload_limit: Option<i64>,
    pub download_limit: Option<i64>,
    pub automatic_management: Option<bool>,
    pub sequential_download: Option<String>,
    pub first_last_piece_prio: Option<String>,
}

impl Default for TorrentDownload {
    fn default() -> (r: Self)
        ensures
            r.urls is None,
            r.torrents is None,
            r.savepath is None,
            r.cookie is None,
            r.category is None,
            r.skip_checking is None,
            r.paused is None,
            r.root_folder is None,
            r.rename is None,
            r.upload_limit is None,
            r.download_limit is None,
            r.automatic_management is None,
            r.sequential_download is None,
            r.first_last_piece_prio is None,
    {
        TorrentDownload {
            urls: None,
            torrents: None,
            savepath: None,
            cookie: None,
            category: None,
            skip_checking: None,
            paused: None,
            root_folder: None,
            rename: None,
            upload_limit: None,
            download_limit: None,
            automatic_management: None,
            sequential_download: None,
            first_last_piece_prio: None,
        }
    }
}

/// The parameters an add-download request emits: one per set field, in the
/// fixed field order, under the names the wire uses (`upLimit`, `dlLimit`,
/// `autoTMM`, `sequentialDownload`, `firstLastPiecePrio`); an unset field
/// contributes nothing, and the raw `torrents` payload is never part of
/// the URL-encoded body.
/// The first half of the add-download parameters: the plain string
/// fields through `root_folder`.
pub open spec fn spec_download_pairs_head(r: TorrentDownload) -> Seq<(Seq<char>, Seq<char>)> {
    opt_pair("urls"@, match r.urls {
        Some(v) => Some(v@),
        None => None,
    }) + opt_pair("savepath"@, match r.savepath {
        Some(v) => Some(v@),
        None => None,
    }) + opt_pair("cookie"@, match r.cookie {
        Some(v) => Some(v@),
        None => None,
    }) + opt_pair("category"@, match r.category {
        Some(v) => Some(v@),
        None => None,
    }) + opt_pair("skip_checking"@, match r.skip_checking {
        Some(v) => Some(v@),
        None => None,
    }) + opt_pair("paused"@, match r.paused {
        Some(v) => Some(v@),
        None => None,
    }) + opt_pair("root_folder"@, match r.root_folder {
        Some(v) => Some(v@),
        None => None,
    })
}

/// The second half of the add-download parameters: `rename` and the
/// renamed wire fields.
pub open spec fn spec_download_pairs_tail(r: TorrentDownload) -> Seq<(Seq<char>, Seq<char>)> {
    opt_pair("rename"@, match r.rename {
        Some(v) => Some(v@),
        None => None,
    }) + opt_pair("upLimit"@, match r.upload_limit {
        Some(n) => Some(spec_dec_signed(n as int)),
        None => None,
    }) + opt_pair("dlLimit"@, match r.download_limit {
        Some(n) => Some(spec_dec_signed(n as int)),
        None => None,
    }) + opt_pair("autoTMM"@, match r.automatic_management {
        Some(b) => Some(spec_bool_token(b)),
        None => None,
    }) + opt_pair("sequentialDownload"@, match r.sequential_download {
        Some(v) => Some(v@),
        None => None,
    }) + opt_pair("firstLastPiecePrio"@, match r.first_last_piece_prio {
        Some(v) => Some(v@),
        None => None,
    })
}

pub open spec fn spec_torrent_download_pairs(r: TorrentDownload) -> Seq<(Seq<char>, Seq<char>)> {
    spec_download_pairs_head(r) + spec_download_pairs_tail(r)
}

impl TorrentDownload {
    /// Appends the first half of the parameters.
    #[verifier::rlimit(100)]
    fn push_head_pairs(&self, q: &mut QueryPairs)
        ensures
            final(q)@ == old(q)@ + spec_download_pairs_head(*self),
    {
        let ghost q0 = q@;
        add_opt_string(q, "urls", &self.urls);
        add_opt_string(q, "savepath", &self.savepath);
        add_opt_string(q, "cookie", &self.cookie);
        add_opt_string(q, "category", &self.category);
        add_opt_string(q, "skip_checking", &self.skip_checking);
        add_opt_string(q, "paused", &self.paused);
        add_opt_string(q, "root_folder", &self.root_folder);
        proof {
            assert(q@ =~= q0 + spec_download_pairs_head(*self));
        }
    }

    /// Appends the second half of the parameters.
    #[verifier::rlimit(100)]
    fn push_tail_pairs(&self, q: &mut QueryPairs)
        ensures
            final(q)@ == old(q)@ + spec_download_pairs_tail(*self),
    {
        let ghost q0 = q@;
        add_opt_string(q, "rename", &self.rename);
        add_opt_i64(q, "upLimit", &self.upload_limit);
        add_opt_i64(q, "dlLimit", &self.download_limit);
        add_opt_bool(q, "autoTMM", &self.automatic_management);
        add_opt_string(q, "sequentialDownload", &self.sequential_download);
        add_opt_string(q, "firstLastPiecePrio", &self.first_last_piece_prio);
        proof {
            assert(q@ =~= q0 + spec_download_pairs_tail(*self));
        }
    }

    /// Renders the URL-encoded form body of the request: one `name=value`
    /// parameter per set field, none for an unset field.
    pub fn form_body(&self) -> (r: String)
        ensures
            r@ == spec_render_query(spec_torrent_download_pairs(*self)),
    {
        let mut q = QueryPairs::new();
        self.push_head_pairs(&mut q);
        self.push_tail_pairs(&mut q);
        proof {
            assert(q@ =~= spec_torrent_download_pairs(*self));
        }
        q.render()
    }
}

/// Builds a [`TorrentDownload`] field by field; every field starts unset.
#[derive(Debug, Clone)]
pub struct TorrentDownloadBuilder {
    pub req: TorrentDownload,
}

impl TorrentDownloadBuilder {
    /// Starts with every field unset.
    pub fn new() -> (r: TorrentDownloadBuilder)
        ensures
            r.req.urls is None,
            r.req.torrents is None,
            r.req.savepath is None,
            r.req.cookie is None,
            r.req.category is None,
            r.req.skip_checking is None,
            r.req.paused is None,
            r.req.root_folder is None,
            r.req.rename is None,
            r.req.upload_limit is None,
            r.req.download_limit is None,
            r.req.automatic_management is None,
            r.req.sequential_download is None,
            r.req.first_last_piece_prio is None,
    {
        TorrentDownloadBuilder {
            req: TorrentDownload {
                urls: None,
                torrents: None,
                savepath: None,
                cookie: None,
                category: None,
                skip_checking: None,
                paused: None,
                root_folder: None,
                rename: None,
                upload_limit: None,
                download_limit: None,
                automatic_management: None,
                sequential_download: None,
                first_last_piece_prio: None,
            },
        }
    }

    pub fn urls(self, v: String) -> (r: Self)
        ensures
            r.req == (TorrentDownload { urls: Some(v), ..self.req }),
    {
        TorrentDownloadBuilder { req: TorrentDownload { urls: Some(v), ..self.req } }
    }

    pub fn torrents(self, v: Vec<u8>) -> (r: Self)
        ensures
            r.req == (TorrentDownload { torrents: Some(v), ..self.req }),
    {
        TorrentDownloadBuilder { req: TorrentDownload { torrents: Some(v), ..self.req } }
    }

    pub fn savepath(self, v: String) -> (r: Self)
        ensures
            r.req == (TorrentDownload { savepath: Some(v), ..self.req }),
    {
        TorrentDownloadBuilder { req: TorrentDownload { savepath: Some(v), ..self.req } }
    }

    pub fn cookie(self, v: String) -> (r: Self)
        ensures
            r.req == (TorrentDownload { cookie: Some(v), ..self.req }),
    {
        TorrentDownloadBuilder { req: TorrentDownload { cookie: Some(v), ..self.req } }
    }

    pub fn category(self, v: String) -> (r: Self)
        ensures
            r.req == (TorrentDownload { category: Some(v), ..self.req }),
    {
        TorrentDownloadBuilder { req: TorrentDownload { category: Some(v), ..self.req } }
    }

    pub fn skip_checking(self, v: String) -> (r: Self)
        ensures
            r.req == (TorrentDownload { skip_checking: Some(v), ..self.req }),
    {
        TorrentDownloadBuilder { req: TorrentDownload { skip_checking: Some(v), ..self.req } }
    }

    pub fn paused(self, v: String) -> (r: Self)
        ensures
            r.req == (TorrentDownload { paused: Some(v), ..self.req }),
    {
        TorrentDownloadBuilder { req: TorrentDownload { paused: Some(v), ..self.req } }
    }

    pub fn root_folder(self, v: String) -> (r: Self)
        ensures
            r.req == (TorrentDownload { root_folder: Some(v), ..self.req }),
    {
        TorrentDownloadBuilder { req: TorrentDownload { root_folder: Some(v), ..self.req } }
    }

    pub fn rename(self, v: String) -> (r: Self)
        ensures
            r.req == (TorrentDownload { rename: Some(v), ..self.req }),
    {
        TorrentDownloadBuilder { req: TorrentDownload { rename: Some(v), ..self.req } }
    }

    pub fn upload_limit(self, v: i64) -> (r: Self)
        ensures
            r.req == (TorrentDownload { upload_limit: Some(v), ..self.req }),
    {
        TorrentDownloadBuilder { req: TorrentDownload { upload_limit: Some(v), ..self.req } }
    }

    pub fn download_limit(self, v: i64) -> (r: Self)
        ensures
            r.req == (TorrentDownload { download_limit: Some(v), ..self.req }),
    {
        TorrentDownloadBuilder { req: TorrentDownload { download_limit: Some(v), ..self.req } }
    }

    pub fn automatic_management(self, v: bool) -> (r: Self)
        ensures
            r.req == (TorrentDownload { automatic_management: Some(v), ..self.req }),
    {
        TorrentDownloadBuilder { req: TorrentDownload { automatic_management: Some(v), ..self.req } }
    }

    pub fn sequential_download(self, v: String) -> (r: Self)
        ensures
            r.req == (TorrentDownload { sequential_download: Some(v), ..self.req }),
    {
        TorrentDownloadBuilder { req: TorrentDownload { sequential_download: Some(v), ..self.req } }
    }

    pub fn first_last_piece_prio(self, v: String) -> (r: Self)
        ensures
            r.req == (TorrentDownload { first_last_piece_prio: Some(v), ..self.req }),
    {
        TorrentDownloadBuilder {
            req: TorrentDownload { first_last_piece_prio: Some(v), ..self.req },
        }
    }

    /// Finishes the request.
    pub fn build(self) -> (r: TorrentDownload)
        ensures
            r == self.req,
    {
        self.req
    }
}

/// Renders the query of a batch add-tags call: the identifiers joined with
/// `|`, the tags joined with `,`, neither with a leading or trailing
/// separator.
#[derive(Debug)]
pub struct TagsUrlHelper<'a> {
    pub hashes: &'a Vec<crate::data::Hash>,
    pub tags: &'a Vec<String>,
}

impl<'a> TagsUrlHelper<'a> {
    /// The query string of the call.  Construction cannot fail; the
    /// `Result` mirrors the shape callers consume.
    pub fn url(self) -> (r: Result<String, Error>)
        ensures
            r is Ok,
            (r->Ok_0)@ == "hashes="@ + spec_join(
                self.hashes@.map_values(|h: crate::data::Hash| h@),
                '|',
            ) + "&tags="@ + spec_join(self.tags@.map_values(|t: String| t@), ','),
    {
        let mut url = String::from_str("hashes=");
        let hs = crate::encode::join_hashes(self.hashes, '|');
        url.append(hs.as_str());
        url.append("&tags=");
        let ts = crate::encode::join_strings(self.tags, ',');
        url.append(ts.as_str());
        Ok(url)
    }
}

/// No emitted query parameter of a torrent-list request corresponds to an
/// unset field: every parameter is named after one of the descriptor's
/// fields and that field is set, and the parameter named after an unset
/// field never appears.
#[verifier::rlimit(100)]
pub proof fn lemma_torrent_request_omits_unset(r: TorrentRequest)
    ensures
        forall|i: int|
            0 <= i < spec_torrent_request_pairs(r).len() ==> {
                let n = (#[trigger] spec_torrent_request_pairs(r)[i]).0;
                ||| (n == "filter"@ && r.filter is Some)
                ||| (n == "category"@ && r.category is Some)
                ||| (n == "sort"@ && r.sort is Some)
                ||| (n == "reverse"@ && r.reverse is Some)
                ||| (n == "limit"@ && r.limit is Some)
                ||| (n == "offset"@ && r.offset is Some)
                ||| (n == "hashes"@ && r.hash is Some)
            },
        r.filter is None ==> forall|i: int|
            0 <= i < spec_torrent_request_pairs(r).len() ==> (
            #[trigger] spec_torrent_request_pairs(r)[i]).0 != "filter"@,
        r.category is None ==> forall|i: int|
            0 <= i < spec_torrent_request_pairs(r).len() ==> (
            #[trigger] spec_torrent_request_pairs(r)[i]).0 != "category"@,
        r.sort is None ==> forall|i: int|
            0 <= i < spec_torrent_request_pairs(r).len() ==> (
            #[trigger] spec_torrent_request_pairs(r)[i]).0 != "sort"@,
        r.reverse is None ==> forall|i: int|
            0 <= i < spec_torrent_request_pairs(r).len() ==> (
            #[trigger] spec_torrent_request_pairs(r)[i]).0 != "reverse"@,
        r.limit is None ==> forall|i: int|
            0 <= i < spec_torrent_request_pairs(r).len() ==> (
            #[trigger] spec_torrent_request_pairs(r)[i]).0 != "limit"@,
        r.offset is None ==> forall|i: int|
            0 <= i < spec_torrent_request_pairs(r).len() ==> (
            #[trigger] spec_torrent_request_pairs(r)[i]).0 != "offset"@,
        r.hash is None ==> forall|i: int|
            0 <= i < spec_torrent_request_pairs(r).len() ==> (
            #[trigger] spec_torrent_request_pairs(r)[i]).0 != "hashes"@,
{
    reveal_strlit("filter");
    reveal_strlit("category");
    reveal_strlit("sort");
    reveal_strlit("reverse");
    reveal_strlit("limit");
    reveal_strlit("offset");
    reveal_strlit("hashes");
    let ps = spec_torrent_request_pairs(r);
    let s1 = match r.filter {
        Some(f) => seq![("filter"@, spec_filter_token(f))],
        None => Seq::<(Seq<char>, Seq<char>)>::empty(),
    };
    let s2 = match r.category {
        Some(c) => seq![("category"@, c@)],
        None => Seq::<(Seq<char>, Seq<char>)>::empty(),
    };
    let s3 = match r.sort {
        Some(s) => seq![("sort"@, s@)],
        None => Seq::<(Seq<char>, Seq<char>)>::empty(),
    };
    let s4 = match r.reverse {
        Some(b) => seq![("reverse"@, spec_bool_token(b))],
        None => Seq::<(Seq<char>, Seq<char>)>::empty(),
    };
    let s5 = match r.limit {
        Some(n) => seq![("limit"@, spec_dec(n as int))],
        None => Seq::<(Seq<char>, Seq<char>)>::empty(),
    };
    let s6 = match r.offset {
        Some(n) => seq![("offset"@, spec_dec_signed(n as int))],
        None => Seq::<(Seq<char>, Seq<char>)>::empty(),
    };
    let s7 = match r.hash {
        Some(h) => seq![("hashes"@, h@)],
        None => Seq::<(Seq<char>, Seq<char>)>::empty(),
    };
    let a1 = s1.len() as int;
    let a2 = a1 + s2.len();
    let a3 = a2 + s3.len();
    let a4 = a3 + s4.len();
    let a5 = a4 + s5.len();
    let a6 = a5 + s6.len();
    assert(ps == s1 + s2 + s3 + s4 + s5 + s6 + s7);
    assert forall|i: int| 0 <= i < ps.len() implies {
        let n = (#[trigger] ps[i]).0;
        ||| (n == "filter"@ && r.filter is Some)
        ||| (n == "category"@ && r.category is Some)
        ||| (n == "sort"@ && r.sort is Some)
        ||| (n == "reverse"@ && r.reverse is Some)
        ||| (n == "limit"@ && r.limit is Some)
        ||| (n == "offset"@ && r.offset is Some)
        ||| (n == "hashes"@ && r.hash is Some)
    } by {
        if i < a1 {
            assert(ps[i] == s1[i]);
        } else if i < a2 {
            assert(ps[i] == s2[i - a1]);
        } else if i < a3 {
            assert(ps[i] == s3[i - a2]);
        } else if i < a4 {
            assert(ps[i] == s4[i - a3]);
        } else if i < a5 {
            assert(ps[i] == s5[i - a4]);
        } else if i < a6 {
            assert(ps[i] == s6[i - a5]);
        } else {
            assert(ps[i] == s7[i - a6]);
        }
    }
    assert("filter"@.len() == 6 && "category"@.len() == 8 && "sort"@.len() == 4 && "reverse"@.len()
        == 7 && "limit"@.len() == 5 && "offset"@.len() == 6 && "hashes"@.len() == 6);
    assert("filter"@[0] == 'f' && "offset"@[0] == 'o' && "hashes"@[0] == 'h');
}

/// A property of every element of two sequences holds of every element of
/// their concatenation.
proof fn lemma_all_elements_concat<T>(a: Seq<T>, b: Seq<T>, g: spec_fn(T) -> bool)
    requires
        forall|i: int| 0 <= i < a.len() ==> g(#[trigger] a[i]),
        forall|i: int| 0 <= i < b.len() ==> g(#[trigger] b[i]),
    ensures
        forall|i: int| 0 <= i < (a + b).len() ==> g(#[trigger] (a + b)[i]),
{
}

/// True when a form parameter is named after a field of the descriptor
/// and that field is set.
pub open spec fn spec_download_pair_of_set_field(r: TorrentDownload, p: (Seq<char>, Seq<char>)) -> bool {
    ||| (p.0 == "urls"@ && r.urls is Some)
    ||| (p.0 == "savepath"@ && r.savepath is Some)
    ||| (p.0 == "cookie"@ && r.cookie is Some)
    ||| (p.0 == "category"@ && r.category is Some)
    ||| (p.0 == "skip_checking"@ && r.skip_checking is Some)
    ||| (p.0 == "paused"@ && r.paused is Some)
    ||| (p.0 == "root_folder"@ && r.root_folder is Some)
    ||| (p.0 == "rename"@ && r.rename is Some)
    ||| (p.0 == "upLimit"@ && r.upload_limit is Some)
    ||| (p.0 == "dlLimit"@ && r.download_limit is Some)
    ||| (p.0 == "autoTMM"@ && r.automatic_management is Some)
    ||| (p.0 == "sequentialDownload"@ && r.sequential_download is Some)
    ||| (p.0 == "firstLastPiecePrio"@ && r.first_last_piece_prio is Some)
}

proof fn lemma_download_pairs_head_named(r: TorrentDownload)
    ensures
        forall|i: int|
            0 <= i < spec_download_pairs_head(r).len() ==> spec_download_pair_of_set_field(
            r,
            #[trigger] spec_download_pairs_head(r)[i],
        ),
{
    let ps = spec_download_pairs_head(r);
    let s1 = opt_pair("urls"@, match r.urls {
        Some(v) => Some(v@),
        None => None,
    });
    let s2 = opt_pair("savepath"@, match r.savepath {
        Some(v) => Some(v@),
        None => None,
    });
    let s3 = opt_pair("cookie"@, match r.cookie {
        Some(v) => Some(v@),
        None => None,
    });
    let s4 = opt_pair("category"@, match r.category {
        Some(v) => Some(v@),
        None => None,
    });
    let s5 = opt_pair("skip_checking"@, match r.skip_checking {
        Some(v) => Some(v@),
        None => None,
    });
    let s6 = opt_pair("paused"@, match r.paused {
        Some(v) => Some(v@),
        None => None,
    });
    let s7 = opt_pair("root_folder"@, match r.root_folder {
        Some(v) => Some(v@),
        None => None,
    });
    let g: spec_fn((Seq<char>, Seq<char>)) -> bool = |p: (Seq<char>, Seq<char>)|
        spec_download_pair_of_set_field(r, p);
    assert(forall|j: int| 0 <= j < s1.len() ==> g(#[trigger] s1[j]));
    assert(forall|j: int| 0 <= j < s2.len() ==> g(#[trigger] s2[j]));
    assert(forall|j: int| 0 <= j < s3.len() ==> g(#[trigger] s3[j]));
    assert(forall|j: int| 0 <= j < s4.len() ==> g(#[trigger] s4[j]));
    assert(forall|j: int| 0 <= j < s5.len() ==> g(#[trigger] s5[j]));
    assert(forall|j: int| 0 <= j < s6.len() ==> g(#[trigger] s6[j]));
    assert(forall|j: int| 0 <= j < s7.len() ==> g(#[trigger] s7[j]));
    let t1 = s1;
    let t2 = t1 + s2;
    lemma_all_elements_concat(t1, s2, g);
    let t3 = t2 + s3;
    lemma_all_elements_concat(t2, s3, g);
    let t4 = t3 + s4;
    lemma_all_elements_concat(t3, s4, g);
    let t5 = t4 + s5;
    lemma_all_elements_concat(t4, s5, g);
    let t6 = t5 + s6;
    lemma_all_elements_concat(t5, s6, g);
    let t7 = t6 + s7;
    lemma_all_elements_concat(t6, s7, g);
    assert(ps == t7);
    assert forall|i: int| 0 <= i < ps.len() implies spec_download_pair_of_set_field(
        r,
        #[trigger] ps[i],
    ) by {
        assert(g(ps[i]));
    }
}

proof fn lemma_download_pairs_tail_named(r: TorrentDownload)
    ensures
        forall|i: int|
            0 <= i < spec_download_pairs_tail(r).len() ==> spec_download_pair_of_set_field(
            r,
            #[trigger] spec_download_pairs_tail(r)[i],
        ),
{
    let ps = spec_download_pairs_tail(r);
    let s1 = opt_pair("rename"@, match r.rename {
        Some(v) => Some(v@),
        None => None,
    });
    let s2 = opt_pair("upLimit"@, match r.upload_limit {
        Some(n) => Some(spec_dec_signed(n as int)),
        None => None,
    });
    let s3 = opt_pair("dlLimit"@, match r.download_limit {
        Some(n) => Some(spec_dec_signed(n as int)),
        None => None,
    });
    let s4 = opt_pair("autoTMM"@, match r.automatic_management {
        Some(b) => Some(spec_bool_token(b)),
        None => None,
    });
    let s5 = opt_pair("sequentialDownload"@, match r.sequential_download {
        Some(v) => Some(v@),
        None => None,
    });
    let s6 = opt_pair("firstLastPiecePrio"@, match r.first_last_piece_prio {
        Some(v) => Some(v@),
        None => None,
    });
    let g: spec_fn((Seq<char>, Seq<char>)) -> bool = |p: (Seq<char>, Seq<char>)|
        spec_download_pair_of_set_field(r, p);
    assert(forall|j: int| 0 <= j < s1.len() ==> g(#[trigger] s1[j]));
    assert(forall|j: int| 0 <= j < s2.len() ==> g(#[trigger] s2[j]));
    assert(forall|j: int| 0 <= j < s3.len() ==> g(#[trigger] s3[j]));
    assert(forall|j: int| 0 <= j < s4.len() ==> g(#[trigger] s4[j]));
    assert(forall|j: int| 0 <= j < s5.len() ==> g(#[trigger] s5[j]));
    assert(forall|j: int| 0 <= j < s6.len() ==> g(#[trigger] s6[j]));
    let t1 = s1;
    let t2 = t1 + s2;
    lemma_all_elements_concat(t1, s2, g);
    let t3 = t2 + s3;
    lemma_all_elements_concat(t2, s3, g);
    let t4 = t3 + s4;
    lemma_all_elements_concat(t3, s4, g);
    let t5 = t4 + s5;
    lemma_all_elements_concat(t4, s5, g);
    let t6 = t5 + s6;
    lemma_all_elements_concat(t5, s6, g);
    assert(ps == t6);
    assert forall|i: int| 0 <= i < ps.len() implies spec_download_pair_of_set_field(
        r,
        #[trigger] ps[i],
    ) by {
        assert(g(ps[i]));
    }
}

/// No emitted form parameter of an add-download request corresponds to an
/// unset field: every parameter is named after a set field of the
/// descriptor, so the parameter of an unset field never appears.
pub proof fn lemma_torrent_download_omits_unset(r: TorrentDownload)
    ensures
        forall|i: int|
            0 <= i < spec_torrent_download_pairs(r).len()
                ==> spec_download_pair_of_set_field(
                r,
                #[trigger] spec_torrent_download_pairs(r)[i],
            ),
{
    let g: spec_fn((Seq<char>, Seq<char>)) -> bool = |p: (Seq<char>, Seq<char>)|
        spec_download_pair_of_set_field(r, p);
    lemma_download_pairs_head_named(r);
    lemma_download_pairs_tail_named(r);
    lemma_all_elements_concat(spec_download_pairs_head(r), spec_download_pairs_tail(r), g);
    assert forall|i: int| 0 <= i < spec_torrent_download_pairs(r).len()
        implies spec_download_pair_of_set_field(r, #[trigger] spec_torrent_download_pairs(r)[i]) by {
        assert(g(spec_torrent_download_pairs(r)[i]));
    }
}

} // verus!