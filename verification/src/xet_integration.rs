//! Parsing of the dedup metadata the hub serves in response headers:
//! the content hash, the token-refresh route taken from a `Link`
//! header, and the CAS connection data of a refresh response.

use vstd::prelude::*;
use crate::text::chars_of;
use crate::text::contains_chars;
use crate::text::contains_seq;
use crate::text::find_char;
use crate::text::find_char_spec;
use crate::text::parse_u64;
use crate::text::string_of;
use crate::text::subvec;
use crate::text::u64_dec_parse;

verus! {

/// Dedup file metadata taken from a HEAD response: the content hash
/// and the URL that refreshes CAS credentials.
#[derive(Debug, Clone)]
pub struct XetFileData {
    pub file_hash: String,
    pub refresh_route: String,
}

/// Connection data for the CAS server: endpoint, bearer token, and
/// the token's unix-epoch expiration.
#[derive(Debug, Clone)]
pub struct XetConnectionInfo {
    pub endpoint: String,
    pub access_token: String,
    pub expiration_unix_epoch: u64,
}

/// The kind of CAS credential asked for.
#[derive(Debug, Clone, Copy, PartialEq, Eq, Structural)]
pub enum XetTokenType {
    Read,
    Write,
}

impl XetTokenType {
    /// The lower-case name the hub's token routes use.
    pub fn as_str(&self) -> (r: &'static str)
        ensures
            r@ == token_type_name(*self),
    {
        match self {
            XetTokenType::Read => "read",
            XetTokenType::Write => "write",
        }
    }
}

/// The route name of each token type.
pub open spec fn token_type_name(t: XetTokenType) -> Seq<char> {
    match t {
        XetTokenType::Read => "read"@,
        XetTokenType::Write => "write"@,
    }
}

/// The URL of the hub route that issues CAS credentials for a
/// repository revision directly.
pub fn xet_token_url(
    endpoint: &str,
    repo_type: &str,
    repo_id: &str,
    token_type: XetTokenType,
    revision: &str,
) -> (r: String)
    ensures
        r@ == endpoint@ + "/api/"@ + repo_type@ + "s/"@ + repo_id@ + "/xet-"@ + token_type_name(
            token_type,
        ) + "-token/"@ + revision@,
{
    let mut s = String::from_str(endpoint);
    s.append("/api/");
    s.append(repo_type);
    s.append("s/");
    s.append(repo_id);
    s.append("/xet-");
    s.append(token_type.as_str());
    s.append("-token/");
    s.append(revision);
    s
}

/// The response-header values the dedup logic reads. Each field holds
/// the header's text when the response carried it.
#[derive(Debug, Clone)]
pub struct ResponseHeaders {
    pub xet_hash: Option<String>,
    pub link: Option<String>,
    pub xet_refresh_route: Option<String>,
    pub cas_url: Option<String>,
    pub access_token: Option<String>,
    pub token_expiration: Option<String>,
}

/// The `rel="xet-auth"` attribute, double-quoted.
pub open spec fn rel_xet_auth_dq() -> Seq<char> {
    "rel=\"xet-auth\""@
}

/// The `rel='xet-auth'` attribute, single-quoted.
pub open spec fn rel_xet_auth_sq() -> Seq<char> {
    "rel='xet-auth'"@
}

/// A comma-separated `Link` entry names the `xet-auth` relation.
pub open spec fn part_selects(p: Seq<char>) -> bool {
    contains_seq(p, rel_xet_auth_dq()) || contains_seq(p, rel_xet_auth_sq())
}

/// The text between the first `<` and the first `>` of a `Link`
/// entry, when both occur in that order.
pub open spec fn part_url(p: Seq<char>) -> Option<Seq<char>> {
    match find_char_spec(p, '<') {
        Some(i) => match find_char_spec(p, '>') {
            Some(j) => if i + 1 <= j {
                Some(p.subrange(i + 1, j))
            } else {
                None
            },
            None => None,
        },
        None => None,
    }
}

/// The URL of the first comma-separated `Link` entry that names the
/// `xet-auth` relation and delimits a URL with `<` and `>`.
pub open spec fn link_auth_url(s: Seq<char>) -> Option<Seq<char>>
    decreases s.len(),
    via link_auth_url_decreases
{
    match find_char_spec(s, ',') {
        Some(k) => {
            if part_selects(s.subrange(0, k)) && part_url(s.subrange(0, k)) is Some {
                part_url(s.subrange(0, k))
            } else {
                link_auth_url(s.subrange(k + 1, s.len() as int))
            }
        },
        None => {
            if part_selects(s) && part_url(s) is Some {
                part_url(s)
            } else {
                None
            }
        },
    }
}

#[via_fn]
proof fn link_auth_url_decreases(s: Seq<char>) {
    crate::text::lemma_find_char_spec(s, ',');
}

/// The URL of one entry, when the entry selects and delimits one.
fn part_auth_url(part: &Vec<char>) -> (r: Option<Vec<char>>)
    ensures
        match r {
            Some(u) => part_selects(part@) && part_url(part@) == Some(u@),
            None => !(part_selects(part@) && part_url(part@) is Some),
        },
{
    let dq = chars_of("rel=\"xet-auth\"");
    let sq = chars_of("rel='xet-auth'");
    let selected = contains_chars(part, &dq) || contains_chars(part, &sq);
    if !selected {
        return None;
    }
    let start = match find_char(part, '<') {
        Some(i) => i,
        None => {
            return None;
        },
    };
    let end = match find_char(part, '>') {
        Some(j) => j,
        None => {
            return None;
        },
    };
    proof {
        crate::text::lemma_find_char_spec(part@, '<');
        crate::text::lemma_find_char_spec(part@, '>');
        assert((start as int) < part@.len());
        assert((end as int) < part@.len());
    }
    if start < end {
        Some(subvec(part, start + 1, end))
    } else {
        None
    }
}

/// Walk the comma-separated entries of a `Link` header.
fn link_auth_url_chars(s: &Vec<char>) -> (r: Option<Vec<char>>)
    ensures
        match r {
            Some(u) => link_auth_url(s@) == Some(u@),
            None => link_auth_url(s@) == None::<Seq<char>>,
        },
    decreases s@.len(),
{
    match find_char(s, ',') {
        Some(k) => {
            proof {
                crate::text::lemma_find_char_spec(s@, ',');
                assert((k as int) < s@.len());
            }
            let part = subvec(s, 0, k);
            match part_auth_url(&part) {
                Some(u) => Some(u),
                None => {
                    let n = s.len();
                    assert(k < n);
                    let rest = subvec(s, k + 1, n);
                    link_auth_url_chars(&rest)
                },
            }
        },
        None => {
            match part_auth_url(s) {
                Some(u) => Some(u),
                None => None,
            }
        },
    }
}

/// Find the `xet-auth` URL in a `Link` header: the first
/// comma-separated entry carrying `rel="xet-auth"` (single or double
/// quotes) yields the text it delimits with `<` and `>`.
pub fn parse_link_header_for_xet_auth(link_str: &str) -> (r: Option<String>)
    ensures
        match r {
            Some(u) => link_auth_url(link_str@) == Some(u@),
            None => link_auth_url(link_str@) == None::<Seq<char>>,
        },
{
    let chars = chars_of(link_str);
    match link_auth_url_chars(&chars) {
        Some(u) => Some(string_of(&u)),
        None => None,
    }
}

/// A `Link` entry of the shape `<URL>; rel="xet-auth"`, with single
/// or double quotes around the relation name.
pub open spec fn link_entry(url: Seq<char>, single_quotes: bool) -> Seq<char> {
    seq!['<'] + url + seq!['>', ';', ' '] + (if single_quotes {
        rel_xet_auth_sq()
    } else {
        rel_xet_auth_dq()
    })
}

/// A canonical entry selects, delimits exactly its URL, and holds no
/// comma.
proof fn lemma_canonical_entry_parts(url: Seq<char>, single_quotes: bool)
    requires
        forall|i: int| 0 <= i < url.len() ==> url[i] != '<' && url[i] != '>' && url[i] != ',',
    ensures
        part_selects(link_entry(url, single_quotes)),
        part_url(link_entry(url, single_quotes)) == Some(url),
        forall|j: int| 0 <= j < link_entry(url, single_quotes).len() ==> link_entry(
            url,
            single_quotes,
        )[j] != ',',
{
    reveal_strlit("rel=\"xet-auth\"");
    reveal_strlit("rel='xet-auth'");
    let rel = if single_quotes {
        rel_xet_auth_sq()
    } else {
        rel_xet_auth_dq()
    };
    assert(rel_xet_auth_dq() =~= seq![
        'r', 'e', 'l', '=', '"', 'x', 'e', 't', '-', 'a', 'u', 't', 'h', '"',
    ]);
    assert(rel_xet_auth_sq() =~= seq![
        'r', 'e', 'l', '=', '\'', 'x', 'e', 't', '-', 'a', 'u', 't', 'h', '\'',
    ]);
    let s = link_entry(url, single_quotes);
    let n = url.len() as int;
    assert(s.len() == n + 4 + rel.len());
    assert(s[0] == '<');
    assert(forall|i: int| 0 <= i < n ==> s[1 + i] == url[i]);
    assert(s[n + 1] == '>');
    assert(s[n + 2] == ';');
    assert(s[n + 3] == ' ');
    assert(forall|i: int| 0 <= i < rel.len() ==> s[n + 4 + i] == rel[i]);

    // No comma anywhere in the entry.
    assert forall|j: int| 0 <= j < s.len() implies s[j] != ',' by {
        if 1 <= j < n + 1 {
            assert(s[j] == url[j - 1]);
        } else if j >= n + 4 {
            assert(s[j] == rel[j - n - 4]);
        }
    }

    // The relation attribute occurs, so the entry is selected.
    assert(s.subrange(n + 4, s.len() as int) =~= rel);
    assert(crate::text::matches_at(s, rel, n + 4));

    // The URL is delimited by the first `<` and the first `>`.
    crate::text::lemma_find_char_spec_of_first(s, '<', 0);
    assert forall|j: int| 0 <= j < n + 1 implies s[j] != '>' by {
        if 1 <= j {
            assert(s[j] == url[j - 1]);
        }
    }
    crate::text::lemma_find_char_spec_of_first(s, '>', n + 1);
    assert(s.subrange(1, n + 1) =~= url);
}

/// For every entry `<URL>; rel="xet-auth"` whose URL holds none of
/// the delimiters, exactly `URL` is returned, with single or double
/// quotes alike.
pub proof fn lemma_link_entry_extracts_url(url: Seq<char>, single_quotes: bool)
    requires
        forall|i: int| 0 <= i < url.len() ==> url[i] != '<' && url[i] != '>' && url[i] != ',',
    ensures
        link_auth_url(link_entry(url, single_quotes)) == Some(url),
{
    lemma_canonical_entry_parts(url, single_quotes);
    crate::text::lemma_find_char_spec_none(link_entry(url, single_quotes), ',');
}

/// In a header of several entries, a first entry of the canonical
/// shape yields exactly its URL, whatever follows the comma.
pub proof fn lemma_link_first_entry_wins(url: Seq<char>, single_quotes: bool, rest: Seq<char>)
    requires
        forall|i: int| 0 <= i < url.len() ==> url[i] != '<' && url[i] != '>' && url[i] != ',',
    ensures
        link_auth_url(link_entry(url, single_quotes) + seq![','] + rest) == Some(url),
{
    lemma_canonical_entry_parts(url, single_quotes);
    let entry = link_entry(url, single_quotes);
    let s = entry + seq![','] + rest;
    let k = entry.len() as int;
    assert(s[k] == ',');
    assert(forall|j: int| 0 <= j < k ==> s[j] == entry[j]);
    crate::text::lemma_find_char_spec_of_first(s, ',', k);
    assert(s.subrange(0, k) =~= entry);
}

/// An entry that does not carry the relation, or delimits no URL, is
/// skipped: the rest of the header decides.
pub proof fn lemma_link_entry_skipped(part: Seq<char>, rest: Seq<char>)
    requires
        forall|j: int| 0 <= j < part.len() ==> part[j] != ',',
        !(part_selects(part) && part_url(part) is Some),
    ensures
        link_auth_url(part + seq![','] + rest) == link_auth_url(rest),
{
    let s = part + seq![','] + rest;
    let k = part.len() as int;
    assert(s[k] == ',');
    assert(forall|j: int| 0 <= j < k ==> s[j] == part[j]);
    crate::text::lemma_find_char_spec_of_first(s, ',', k);
    assert(s.subrange(0, k) =~= part);
    assert(s.subrange(k + 1, s.len() as int) =~= rest);
}

/// The refresh route the headers describe: the `Link` header's
/// `xet-auth` URL when a `Link` header is present, else the value of
/// the dedicated refresh-route header.
pub open spec fn refresh_route_spec(h: &ResponseHeaders) -> Option<Seq<char>> {
    match h.link {
        Some(l) => link_auth_url(l@),
        None => match h.xet_refresh_route {
            Some(rr) => Some(rr@),
            None => None,
        },
    }
}

/// The dedup metadata the headers describe: present exactly when the
/// content-hash header and a refresh route are both present.
pub open spec fn file_data_spec(h: &ResponseHeaders) -> Option<(Seq<char>, Seq<char>)> {
    match h.xet_hash {
        Some(hash) => match refresh_route_spec(h) {
            Some(route) => Some((hash@, route)),
            None => None,
        },
        None => None,
    }
}

/// Read dedup file metadata from response headers. The content hash
/// comes from its dedicated header; the refresh route from the `Link`
/// header's `xet-auth` entry, with the dedicated route header as the
/// fallback when no `Link` header is present.
pub fn parse_xet_file_data_from_headers(headers: &ResponseHeaders) -> (r: Option<XetFileData>)
    ensures
        match r {
            Some(d) => file_data_spec(headers) == Some((d.file_hash@, d.refresh_route@)),
            None => file_data_spec(headers) == None::<(Seq<char>, Seq<char>)>,
        },
{
    let file_hash = match &headers.xet_hash {
        Some(h) => h.clone(),
        None => {
            return None;
        },
    };
    let refresh_route = match &headers.link {
        Some(l) => match parse_link_header_for_xet_auth(l.as_str()) {
            Some(u) => u,
            None => {
                return None;
            },
        },
        None => match &headers.xet_refresh_route {
            Some(rr) => rr.clone(),
            None => {
                return None;
            },
        },
    };
    Some(XetFileData { file_hash, refresh_route })
}

/// The connection data the headers describe: present exactly when the
/// CAS URL and token headers are present and the expiration header
/// holds a decimal `u64`.
pub open spec fn connection_info_spec(h: &ResponseHeaders) -> Option<(Seq<char>, Seq<char>, u64)> {
    match h.cas_url {
        Some(endpoint) => match h.access_token {
            Some(token) => match h.token_expiration {
                Some(exp) => match u64_dec_parse(exp@) {
                    Some(v) => Some((endpoint@, token@, v)),
                    None => None,
                },
                None => None,
            },
            None => None,
        },
        None => None,
    }
}

/// Read CAS connection data from the headers of a refresh response.
pub fn parse_xet_connection_info_from_headers(headers: &ResponseHeaders) -> (r: Option<
    XetConnectionInfo,
>)
    ensures
        match r {
            Some(c) => connection_info_spec(headers) == Some(
                (c.endpoint@, c.access_token@, c.expiration_unix_epoch),
            ),
            None => connection_info_spec(headers) == None::<(Seq<char>, Seq<char>, u64)>,
        },
{
    let endpoint = match &headers.cas_url {
        Some(u) => u.clone(),
        None => {
            return None;
        },
    };
    let access_token = match &headers.access_token {
        Some(t) => t.clone(),
        None => {
            return None;
        },
    };
    let expiration_unix_epoch = match &headers.token_expiration {
        Some(e) => {
            let chars = chars_of(e.as_str());
            match parse_u64(&chars) {
                Some(v) => v,
                None => {
                    return None;
                },
            }
        },
        None => {
            return None;
        },
    };
    Some(XetConnectionInfo { endpoint, access_token, expiration_unix_epoch })
}

} // verus!
