//! The authenticated session and the addresses of the remote endpoints.
//!
//! A session holds the base address and the credential taken at login, and
//! never refreshes it: when the remote session lapses, calls fail and the
//! caller sees the error.  Every endpoint address is the base address, a
//! fixed path under the versioned prefix, and, where the call takes one, a
//! canonical query string.

use vstd::prelude::*;
use vstd::string::{StrSliceExecFns, StringExecFns, StringSliceAdditionalSpecFns};
use vstd::utf8::{decode_utf8, valid_utf8};
use crate::data::AlternateLimits;
use crate::encode::spec_render_query;
use crate::error::{AuthenticationFailure, DecodeReason, Error};
use crate::queries::{LogRequest, TorrentRequest, spec_log_request_pairs, spec_torrent_request_pairs};
use crate::strutil::{copy_range, string_from_utf8};

verus! {

/// The credential a session attaches to every authenticated call.
#[derive(Debug, Clone)]
pub enum Credential {
    /// The session cookie taken from the login response, sent back verbatim.
    Cookie(String),
    /// The parts of an HTTP basic-authentication header, attached to every
    /// request; no login round-trip is made in this mode.
    Basic { username: String, password: String },
}

/// An authenticated session: the base address of the remote service and
/// the immutable credential taken at construction.
#[derive(Debug, Clone)]
pub struct Session {
    pub address: String,
    pub credential: Credential,
}

/// The first position at or after `i` holding the given byte, or the length
/// of the sequence when the byte does not occur.
pub open spec fn spec_find_byte(s: Seq<u8>, b: u8, i: int) -> int
    decreases s.len() - i,
    when 0 <= i <= s.len()
{
    if i < s.len() {
        if s[i] == b {
            i
        } else {
            spec_find_byte(s, b, i + 1)
        }
    } else {
        i
    }
}

pub proof fn lemma_find_byte_bounds(s: Seq<u8>, b: u8, i: int)
    requires
        0 <= i <= s.len(),
    ensures
        i <= spec_find_byte(s, b, i) <= s.len(),
        spec_find_byte(s, b, i) < s.len() ==> s[spec_find_byte(s, b, i)] == b,
        forall|j: int| i <= j < spec_find_byte(s, b, i) ==> s[j] != b,
    decreases s.len() - i,
{
    if i < s.len() && s[i] != b {
        lemma_find_byte_bounds(s, b, i + 1);
    }
}

/// The session credential a set-cookie header value yields: the bytes
/// before the first `;`, or nothing when the header has no `;` at all.
pub open spec fn spec_session_cookie(h: Seq<u8>) -> Option<Seq<u8>> {
    let i = spec_find_byte(h, 0x3b, 0);
    if i < h.len() {
        Some(h.take(i))
    } else {
        None
    }
}

fn find_byte(v: &Vec<u8>, b: u8) -> (r: usize)
    ensures
        r == spec_find_byte(v@, b, 0),
{
    let mut i: usize = 0;
    while i < v.len()
        invariant
            i <= v@.len(),
            spec_find_byte(v@, b, 0) == spec_find_byte(v@, b, i as int),
        decreases v@.len() - i,
    {
        if v[i] == b {
            return i;
        }
        i += 1;
    }
    i
}

impl Session {
    /// Builds the session a login response yields.
    ///
    /// A response without a session-cookie header yields
    /// [`AuthenticationFailure::MissingCredentialHeader`] and no session; a
    /// header without the `;` attribute delimiter yields
    /// [`AuthenticationFailure::MalformedCredentialHeader`].  Otherwise the
    /// stored credential is exactly the part of the header before its first
    /// `;`.
    pub fn from_login(address: &str, set_cookie: Option<&str>) -> (r: Result<Session, Error>)
        ensures
            set_cookie is None ==> (r matches Err(e) && e == Error::AuthenticationFailure(
                AuthenticationFailure::MissingCredentialHeader,
            )),
            set_cookie matches Some(h) ==> (spec_session_cookie(h.spec_bytes()) is None ==> (
            r matches Err(e) && e == Error::AuthenticationFailure(
                AuthenticationFailure::MalformedCredentialHeader,
            ))),
            set_cookie matches Some(h) ==> (spec_session_cookie(h.spec_bytes()) matches Some(c)
                ==> (r matches Ok(s) && s.address@ == address@ && (s.credential matches
            Credential::Cookie(ck) && ck@.len() == decode_utf8(c).len() && vstd::utf8::encode_utf8(
                ck@,
            ) == c))),
    {
        let h = match set_cookie {
            None => {
                return Err(
                    Error::AuthenticationFailure(AuthenticationFailure::MissingCredentialHeader),
                );
            },
            Some(h) => h,
        };
        let bytes = h.as_bytes_vec();
        let i = find_byte(&bytes, 0x3b);
        proof {
            lemma_find_byte_bounds(bytes@, 0x3b, 0);
        }
        if i >= bytes.len() {
            return Err(
                Error::AuthenticationFailure(AuthenticationFailure::MalformedCredentialHeader),
            );
        }
        let prefix = copy_range(&bytes, 0, i);
        proof {
            broadcast use vstd::utf8::group_utf8_lib;

            assert(valid_utf8(bytes@)) by {
                assert(bytes@ == vstd::utf8::encode_utf8(h@));
            }
            assert(!vstd::utf8::is_continuation_byte(bytes@[i as int]));
            assert(vstd::utf8::is_char_boundary(bytes@, i as int));
            assert(prefix@ == bytes@.subrange(0, i as int));
            assert(valid_utf8(bytes@.subrange(0, i as int)));
        }
        let ghost prefix_bytes = prefix@;
        let cookie = match string_from_utf8(prefix) {
            Some(c) => c,
            None => {
                // The prefix ends on a character boundary of the header, so
                // it is valid UTF-8 and this branch cannot be taken.
                proof {
                    assert(valid_utf8(prefix_bytes));
                    assert(false);
                }
                return Err(
                    Error::AuthenticationFailure(AuthenticationFailure::MalformedCredentialHeader),
                );
            },
        };
        proof {
            broadcast use vstd::utf8::group_utf8_lib;

            assert(bytes@.take(i as int) == bytes@.subrange(0, i as int));
            assert(vstd::utf8::encode_utf8(cookie@) == bytes@.subrange(0, i as int)) by {
                assert(cookie@ == decode_utf8(bytes@.subrange(0, i as int)));
            }
        }
        Ok(Session { address: String::from_str(address), credential: Credential::Cookie(cookie) })
    }

    /// Builds a session that authenticates every call by HTTP basic
    /// authentication; no login round-trip is needed.
    pub fn with_basic_auth(address: &str, username: &str, password: &str) -> (r: Session)
        ensures
            r.address@ == address@,
            r.credential matches Credential::Basic { username: u, password: p } && u@ == username@
                && p@ == password@,
    {
        Session {
            address: String::from_str(address),
            credential: Credential::Basic {
                username: String::from_str(username),
                password: String::from_str(password),
            },
        }
    }

    /// The cookie header value to attach, when the session holds one.
    pub fn cookie_header(&self) -> (r: Option<String>)
        ensures
            match self.credential {
                Credential::Cookie(_) => r matches Some(c) && (self.credential matches
                Credential::Cookie(c0) && c@ == c0@),
                Credential::Basic { .. } => r is None,
            },
    {
        match &self.credential {
            Credential::Cookie(c) => Some(c.clone()),
            Credential::Basic { .. } => None,
        }
    }

    fn base_plus(&self, path: &str) -> (r: String)
        ensures
            r@ == self.address@ + path@,
    {
        let mut u = self.address.clone();
        u.append(path);
        u
    }

    /// The address of the login endpoint; the login form body rides a POST.
    pub fn login_url(&self) -> (r: String)
        ensures
            r@ == self.address@ + "/api/v2/auth/login"@,
    {
        self.base_plus("/api/v2/auth/login")
    }

    /// The address of the application-version endpoint.
    pub fn version_url(&self) -> (r: String)
        ensures
            r@ == self.address@ + "/api/v2/app/version"@,
    {
        self.base_plus("/api/v2/app/version")
    }

    /// The address of the web-API-version endpoint.
    pub fn api_version_url(&self) -> (r: String)
        ensures
            r@ == self.address@ + "/api/v2/app/webapiVersion"@,
    {
        self.base_plus("/api/v2/app/webapiVersion")
    }

    /// The address of the build-information endpoint.
    pub fn build_info_url(&self) -> (r: String)
        ensures
            r@ == self.address@ + "/api/v2/app/buildInfo"@,
    {
        self.base_plus("/api/v2/app/buildInfo")
    }

    /// The address of the shutdown endpoint.
    pub fn shutdown_url(&self) -> (r: String)
        ensures
            r@ == self.address@ + "/api/v2/app/shutdown"@,
    {
        self.base_plus("/api/v2/app/shutdown")
    }

    /// The address of the default-save-path endpoint.
    pub fn default_save_path_url(&self) -> (r: String)
        ensures
            r@ == self.address@ + "/api/v2/app/defaultSavePath"@,
    {
        self.base_plus("/api/v2/app/defaultSavePath")
    }

    /// The address of the main-log endpoint for the given request.
    pub fn log_url(&self, req: &LogRequest) -> (r: String)
        ensures
            r@ == self.address@ + "/api/v2/log/main?"@ + spec_render_query(
                spec_log_request_pairs(*req),
            ),
    {
        let mut u = self.base_plus("/api/v2/log/main?");
        let q = req.url();
        u.append(q.as_str());
        u
    }

    /// The address of the global transfer-statistics endpoint.
    pub fn transfer_info_url(&self) -> (r: String)
        ensures
            r@ == self.address@ + "/api/v2/transfer/info"@,
    {
        self.base_plus("/api/v2/transfer/info")
    }

    /// The address of the speed-limits-mode endpoint.
    pub fn speed_limits_mode_url(&self) -> (r: String)
        ensures
            r@ == self.address@ + "/api/v2/transfer/speedLimitsMode"@,
    {
        self.base_plus("/api/v2/transfer/speedLimitsMode")
    }

    /// The address of the toggle-speed-limits endpoint.
    pub fn toggle_speed_limits_url(&self) -> (r: String)
        ensures
            r@ == self.address@ + "/api/v2/transfer/toggleSpeedLimitsMode"@,
    {
        self.base_plus("/api/v2/transfer/toggleSpeedLimitsMode")
    }

    /// The address of the torrent-list endpoint for the given request: the
    /// query part appears only when the request emits at least one
    /// parameter.
    pub fn torrent_list_url(&self, req: &TorrentRequest) -> (r: String)
        ensures
            r@ == self.address@ + "/api/v2/torrents/info"@ + (if spec_render_query(
                spec_torrent_request_pairs(*req),
            ).len() == 0 {
                Seq::<char>::empty()
            } else {
                "?"@ + spec_render_query(spec_torrent_request_pairs(*req))
            }),
    {
        let mut u = self.base_plus("/api/v2/torrents/info");
        let q = req.url();
        if !q.as_str().is_empty() {
            u.append("?");
            u.append(q.as_str());
            proof {
                assert(u@ =~= self.address@ + "/api/v2/torrents/info"@ + ("?"@ + q@));
            }
        } else {
            proof {
                assert(u@ =~= self.address@ + "/api/v2/torrents/info"@ + Seq::<char>::empty());
            }
        }
        u
    }

    /// The address of the add-download endpoint; the form body rides a POST.
    pub fn add_torrent_url(&self) -> (r: String)
        ensures
            r@ == self.address@ + "/api/v2/torrents/add"@,
    {
        self.base_plus("/api/v2/torrents/add")
    }

    /// The address of the per-item properties endpoint.  The identifier is
    /// inserted by simple concatenation; the caller passes segment-safe
    /// values.
    pub fn properties_url(&self, hash: &crate::data::Hash) -> (r: String)
        ensures
            r@ == self.address@ + "/api/v2/torrents/properties?hash="@ + hash@,
    {
        let mut u = self.base_plus("/api/v2/torrents/properties?hash=");
        u.append(hash.as_str());
        u
    }

    /// The address of the per-item trackers endpoint.
    pub fn trackers_url(&self, hash: &crate::data::Hash) -> (r: String)
        ensures
            r@ == self.address@ + "/api/v2/torrents/trackers?hash="@ + hash@,
    {
        let mut u = self.base_plus("/api/v2/torrents/trackers?hash=");
        u.append(hash.as_str());
        u
    }

    /// The address of the per-item contents endpoint.
    pub fn contents_url(&self, hash: &crate::data::Hash) -> (r: String)
        ensures
            r@ == self.address@ + "/api/v2/torrents/files?hash="@ + hash@,
    {
        let mut u = self.base_plus("/api/v2/torrents/files?hash=");
        u.append(hash.as_str());
        u
    }

    /// The address of the category-map endpoint.
    pub fn categories_url(&self) -> (r: String)
        ensures
            r@ == self.address@ + "/api/v2/torrents/categories"@,
    {
        self.base_plus("/api/v2/torrents/categories")
    }

    /// The address of the create-category endpoint.  Name and path are
    /// inserted by simple concatenation; the caller passes segment-safe
    /// values.
    pub fn add_category_url(&self, name: &str, path: &str) -> (r: String)
        ensures
            r@ == self.address@ + "/api/v2/torrents/createCategory?savePath="@ + path@
                + "&category="@ + name@,
    {
        let mut u = self.base_plus("/api/v2/torrents/createCategory?savePath=");
        u.append(path);
        u.append("&category=");
        u.append(name);
        u
    }

    /// The address of the set-category endpoint for one item.
    pub fn set_category_url(&self, hash: &crate::data::Hash, category: &str) -> (r: String)
        ensures
            r@ == self.address@ + "/api/v2/torrents/setCategory?hashes="@ + hash@ + "&category="@
                + category@,
    {
        let mut u = self.base_plus("/api/v2/torrents/setCategory?hashes=");
        u.append(hash.as_str());
        u.append("&category=");
        u.append(category);
        u
    }

    /// The address of the resume endpoint for one item.
    pub fn resume_url(&self, hash: &crate::data::Hash) -> (r: String)
        ensures
            r@ == self.address@ + "/api/v2/torrents/resume?hashes="@ + hash@,
    {
        let mut u = self.base_plus("/api/v2/torrents/resume?hashes=");
        u.append(hash.as_str());
        u
    }

    /// The address of the resume endpoint for a batch of items, joined
    /// with `|`.
    pub fn resume_batch_url(&self, hashes: &Vec<crate::data::Hash>) -> (r: String)
        ensures
            r@ == self.address@ + "/api/v2/torrents/resume?hashes="@ + crate::encode::spec_join(
                hashes@.map_values(|h: crate::data::Hash| h@),
                '|',
            ),
    {
        let mut u = self.base_plus("/api/v2/torrents/resume?hashes=");
        let joined = crate::encode::join_hashes(hashes, '|');
        u.append(joined.as_str());
        u
    }

    /// The address of the pause endpoint for one item.
    pub fn pause_url(&self, hash: &crate::data::Hash) -> (r: String)
        ensures
            r@ == self.address@ + "/api/v2/torrents/pause?hashes="@ + hash@,
    {
        let mut u = self.base_plus("/api/v2/torrents/pause?hashes=");
        u.append(hash.as_str());
        u
    }

    /// The address of the pause endpoint for a batch of items, joined
    /// with `|`.
    pub fn pause_batch_url(&self, hashes: &Vec<crate::data::Hash>) -> (r: String)
        ensures
            r@ == self.address@ + "/api/v2/torrents/pause?hashes="@ + crate::encode::spec_join(
                hashes@.map_values(|h: crate::data::Hash| h@),
                '|',
            ),
    {
        let mut u = self.base_plus("/api/v2/torrents/pause?hashes=");
        let joined = crate::encode::join_hashes(hashes, '|');
        u.append(joined.as_str());
        u
    }

    /// The address of the recheck endpoint for one item.
    pub fn recheck_url(&self, hash: &crate::data::Hash) -> (r: String)
        ensures
            r@ == self.address@ + "/api/v2/torrents/recheck?hashes="@ + hash@,
    {
        let mut u = self.base_plus("/api/v2/torrents/recheck?hashes=");
        u.append(hash.as_str());
        u
    }

    /// The address of the add-tags endpoint for a batch of items.
    pub fn add_tags_url(&self, hashes: &Vec<crate::data::Hash>, tags: &Vec<String>) -> (r: String)
        ensures
            r@ == self.address@ + "/api/v2/torrents/addTags?"@ + "hashes="@
                + crate::encode::spec_join(hashes@.map_values(|h: crate::data::Hash| h@), '|')
                + "&tags="@ + crate::encode::spec_join(tags@.map_values(|t: String| t@), ','),
    {
        let mut u = self.base_plus("/api/v2/torrents/addTags?");
        let helper = crate::queries::TagsUrlHelper { hashes, tags };
        let q = match helper.url() {
            Ok(q) => q,
            Err(_) => {
                // TagsUrlHelper::url always succeeds.
                String::new()
            },
        };
        u.append(q.as_str());
        proof {
            assert(u@ =~= self.address@ + "/api/v2/torrents/addTags?"@ + "hashes="@
                + crate::encode::spec_join(hashes@.map_values(|h: crate::data::Hash| h@), '|')
                + "&tags="@ + crate::encode::spec_join(tags@.map_values(|t: String| t@), ','));
        }
        u
    }
}

/// The address of the login endpoint under a base address, for use before
/// any session exists.
pub fn login_url_for(address: &str) -> (r: String)
    ensures
        r@ == address@ + "/api/v2/auth/login"@,
{
    let mut u = String::from_str(address);
    u.append("/api/v2/auth/login");
    u
}

/// The form body of a login request: the username and password as
/// percent-encoded form parameters.
pub fn login_body(username: &str, password: &str) -> (r: String)
    ensures
        r@ == spec_render_query(seq![("username"@, username@), ("password"@, password@)]),
{
    let mut q = crate::encode::QueryPairs::new();
    q.add("username", String::from_str(username));
    q.add("password", String::from_str(password));
    proof {
        assert(q@ =~= seq![("username"@, username@), ("password"@, password@)]);
    }
    q.render()
}

/// True of the statuses the remote service answers success with.
pub open spec fn spec_status_ok(status: u16) -> bool {
    200 <= status < 300
}

/// Checks an HTTP status: a success status passes, and any other becomes
/// [`Error::RemoteRequestFailed`] carrying the status and the body text
/// (or an empty text when the body is not UTF-8).
pub fn check_status(status: u16, body: &Vec<u8>) -> (r: Result<(), Error>)
    ensures
        r is Ok <==> spec_status_ok(status),
        !spec_status_ok(status) ==> (r matches Err(e) && (e matches Error::RemoteRequestFailed {
            status: s2,
            body: b2,
        } && s2 == status && b2@ == (if valid_utf8(body@) {
            decode_utf8(body@)
        } else {
            Seq::<char>::empty()
        }))),
{
    if 200 <= status && status < 300 {
        Ok(())
    } else {
        let copy = copy_range(body, 0, body.len());
        proof {
            assert(body@.subrange(0, body@.len() as int) =~= body@);
        }
        let text = match string_from_utf8(copy) {
            Some(s) => s,
            None => String::new(),
        };
        Err(Error::RemoteRequestFailed { status, body: text })
    }
}

/// Wraps a decode failure as the error an operation surfaces.
pub fn decode_error(reason: DecodeReason) -> (r: Error)
    ensures
        r == Error::DecodeFailure(reason),
{
    Error::DecodeFailure(reason)
}

/// Reads a speed-limits-mode body, surfacing the operation-level error.
pub fn alternate_limits_response(status: u16, body: &Vec<u8>) -> (r: Result<AlternateLimits, Error>)
    ensures
        r is Ok <==> spec_status_ok(status) && crate::decode::spec_decode_alternate_limits(body@)
            is Ok,
        r is Ok ==> r->Ok_0 == crate::decode::spec_decode_alternate_limits(body@)->Ok_0,
        !spec_status_ok(status) ==> (r matches Err(e) && (e matches Error::RemoteRequestFailed {
            status: s2,
            body: b2,
        } && s2 == status && b2@ == (if valid_utf8(body@) {
            decode_utf8(body@)
        } else {
            Seq::<char>::empty()
        }))),
        spec_status_ok(status) && crate::decode::spec_decode_alternate_limits(body@) is Err ==> (
        r matches Err(e) && e == Error::DecodeFailure(
            crate::decode::spec_decode_alternate_limits(body@)->Err_0,
        )),
{
    match check_status(status, body) {
        Err(e) => {
            return Err(e);
        },
        Ok(()) => {},
    }
    match crate::decode::decode_alternate_limits(body) {
        Ok(v) => Ok(v),
        Err(reason) => Err(decode_error(reason)),
    }
}

} // verus!
