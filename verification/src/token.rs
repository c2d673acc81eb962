//! The CAS token cache: per refresh route, a connection is reused
//! until its expiration comes within the safety margin, and only then
//! is the route fetched again.

use vstd::prelude::*;
use crate::error::DownloadError;
use crate::xet_integration::ResponseHeaders;
use crate::xet_integration::XetConnectionInfo;
use crate::xet_integration::XetFileData;
use crate::xet_integration::connection_info_spec;
use crate::xet_integration::parse_xet_connection_info_from_headers;

verus! {

/// How long before its expiration a token stops counting as valid,
/// in seconds.
pub const TOKEN_VALIDITY_MARGIN_SECS: u64 = 60;

impl XetConnectionInfo {
    /// A field-by-field copy, equal to the original.
    pub fn duplicate(&self) -> (r: XetConnectionInfo)
        ensures
            r == *self,
    {
        XetConnectionInfo {
            endpoint: self.endpoint.clone(),
            access_token: self.access_token.clone(),
            expiration_unix_epoch: self.expiration_unix_epoch,
        }
    }
}

/// The token manager's state: the bearer token of the hub, and the
/// connection cached from the last refresh, keyed by its route.
pub struct XetTokenManager {
    pub hf_token: Option<String>,
    pub cached_connection_info: Option<(XetConnectionInfo, String)>,
}

/// The cached token can still be used at `now`: it expires more than
/// the safety margin from now.
pub open spec fn token_valid_spec(m: &XetTokenManager, now: u64) -> bool {
    match m.cached_connection_info {
        Some((info, _)) => info.expiration_unix_epoch > now + TOKEN_VALIDITY_MARGIN_SECS,
        None => false,
    }
}

/// A refresh for `route` at `now` is served from the cache: the
/// cached connection is valid and belongs to that route.
pub open spec fn refresh_from_cache(m: &XetTokenManager, route: Seq<char>, now: u64) -> bool {
    token_valid_spec(m, now) && match m.cached_connection_info {
        Some((_, cached_route)) => cached_route@ == route,
        None => false,
    }
}

/// What a refresh request must do.
#[derive(Debug)]
pub enum RefreshAction {
    /// Return this cached connection; no request goes out.
    UseCached { info: XetConnectionInfo },
    /// The cache cannot serve the route: fetch the refresh route.
    FetchRoute,
}

impl XetTokenManager {
    /// A fresh manager holding the hub token and no cached
    /// connection.
    pub fn new(hf_token: Option<String>) -> (r: Self)
        ensures
            r.hf_token == hf_token,
            r.cached_connection_info == None::<(XetConnectionInfo, String)>,
    {
        XetTokenManager { hf_token, cached_connection_info: None }
    }

    /// Whether the cached token is still valid at `now`.
    pub fn is_token_valid(&self, now: u64) -> (r: bool)
        ensures
            r == token_valid_spec(self, now),
    {
        match &self.cached_connection_info {
            Some((info, _)) => info.expiration_unix_epoch > now.saturating_add(
                TOKEN_VALIDITY_MARGIN_SECS,
            ),
            None => false,
        }
    }

    /// Decide a refresh request for `file_data`'s route at `now`: the
    /// cached connection is returned exactly when it is valid and
    /// belongs to the same route; otherwise the route must be
    /// fetched.
    pub fn refresh_action(&self, file_data: &XetFileData, now: u64) -> (r: RefreshAction)
        ensures
            match r {
                RefreshAction::UseCached { info } => {
                    &&& refresh_from_cache(self, file_data.refresh_route@, now)
                    &&& self.cached_connection_info matches Some((cached, _)) && info == cached
                },
                RefreshAction::FetchRoute => !refresh_from_cache(
                    self,
                    file_data.refresh_route@,
                    now,
                ),
            },
    {
        if self.is_token_valid(now) {
            match &self.cached_connection_info {
                Some((info, cached_route)) => {
                    if cached_route.eq(&file_data.refresh_route) {
                        RefreshAction::UseCached { info: info.duplicate() }
                    } else {
                        RefreshAction::FetchRoute
                    }
                },
                None => RefreshAction::FetchRoute,
            }
        } else {
            RefreshAction::FetchRoute
        }
    }

    /// Ingest the response of a fetched refresh route: cache and
    /// return the connection its headers describe, or fail without
    /// touching the cache when a header is missing or malformed.
    pub fn ingest_refresh_response(&mut self, headers: &ResponseHeaders, refresh_route: &str) -> (r:
        Result<XetConnectionInfo, DownloadError>)
        ensures
            final(self).hf_token == old(self).hf_token,
            match r {
                Ok(info) => {
                    &&& connection_info_spec(headers) == Some(
                        (info.endpoint@, info.access_token@, info.expiration_unix_epoch),
                    )
                    &&& final(self).cached_connection_info matches Some((cached, route))
                        && cached == info && route@ == refresh_route@
                },
                Err(e) => {
                    &&& connection_info_spec(headers) is None
                    &&& e == DownloadError::MissingXetHeaders
                    &&& final(self).cached_connection_info == old(self).cached_connection_info
                },
            },
    {
        match parse_xet_connection_info_from_headers(headers) {
            Some(info) => {
                let copy = info.duplicate();
                self.cached_connection_info = Some((info, refresh_route.to_owned()));
                Ok(copy)
            },
            None => Err(DownloadError::MissingXetHeaders),
        }
    }
}

/// Once a refresh has cached a connection, every refresh for the same
/// route is served from the cache while the token stays valid: no
/// second request goes out.
pub proof fn lemma_token_cache_single_fetch(
    m: XetTokenManager,
    info: XetConnectionInfo,
    route: String,
    now: u64,
)
    requires
        m.cached_connection_info == Some((info, route)),
        info.expiration_unix_epoch > now + TOKEN_VALIDITY_MARGIN_SECS,
    ensures
        refresh_from_cache(&m, route@, now),
{
}

/// The capability handed to the chunk downloader for renewing CAS
/// credentials: it carries the file metadata whose refresh route the
/// renewal must call.
pub struct XetTokenRefresher {
    pub file_data: XetFileData,
}

impl XetTokenRefresher {
    /// A refresher bound to one file's refresh route.
    pub fn new(file_data: XetFileData) -> (r: Self)
        ensures
            r.file_data == file_data,
    {
        XetTokenRefresher { file_data }
    }

    /// The token-and-expiration pair a renewed connection hands back
    /// to the chunk downloader.
    pub fn token_info_of(&self, info: &XetConnectionInfo) -> (r: (String, u64))
        ensures
            r.0 == info.access_token,
            r.1 == info.expiration_unix_epoch,
    {
        (info.access_token.clone(), info.expiration_unix_epoch)
    }
}

} // verus!
