//! Server settings and the headers derived from them: the content security
//! policies of previews and embeds, and the public origin of the server.
use vstd::prelude::*;
use crate::opus::opt_text;
use crate::text::{chars_of, concat_chars, replace_all, replace_chars, string_of};

verus! {

#[verifier::external_type_specification]
#[verifier::external_body]
pub struct ExUrl(url::Url);

#[verifier::external_type_specification]
#[verifier::external_body]
pub struct ExHeaderName(http::HeaderName);

#[verifier::external_type_specification]
#[verifier::external_body]
pub struct ExHeaderValue(http::HeaderValue);

#[verifier::external_type_specification]
#[verifier::external_body]
pub struct ExInvalidHeaderValue(http::header::InvalidHeaderValue);

#[verifier::external_type_specification]
#[verifier::external_body]
#[verifier::reject_recursive_types(T)]
pub struct ExHeaderMap<T>(http::HeaderMap<T>);

/// How an image is scaled.
#[derive(Clone, Copy, Debug, PartialEq, Eq, Structural)]
pub enum ImageRendering {
    Auto,
    Pixelated,
}

/// The language of a code inscription.
#[derive(Clone, Copy, Debug, PartialEq, Eq, Structural)]
pub enum Language {
    Css,
    JavaScript,
    Json,
    Python,
    Yaml,
}

/// The kind of content an inscription holds.
#[derive(Clone, Copy, Debug, PartialEq, Eq, Structural)]
pub enum Media {
    Audio,
    Code(Language),
    Font,
    Iframe,
    Image(ImageRendering),
    Markdown,
    Model,
    Pdf,
    Text,
    Unknown,
    Video,
}

/// Why a content security policy header could not be made.
#[derive(Debug)]
pub enum PolicyError {
    /// Previews of iframe content have no policy of their own.
    IframeMedia,
    /// The policy scoped to this origin is not a valid header value.
    InvalidOrigin(String),
    /// The embed policy is not a valid header value.
    InvalidEmbedPolicy,
}

/// Server settings.
pub struct ServerConfig {
    pub accept_offers: bool,
    pub csp_origin: Option<String>,
    pub decompress: bool,
    pub domain: Option<String>,
    pub index_sats: bool,
    pub json_api_enabled: bool,
    pub proxy: Option<url::Url>,
}

impl Default for ServerConfig {
    fn default() -> (r: Self)
        ensures
            !r.accept_offers && r.csp_origin is None && !r.decompress && r.domain is None
                && !r.index_sats && !r.json_api_enabled && r.proxy is None,
    {
        ServerConfig {
            accept_offers: false,
            csp_origin: None,
            decompress: false,
            domain: None,
            index_sats: false,
            json_api_enabled: false,
            proxy: None,
        }
    }
}

/// The text of an optional string slice.
pub open spec fn opt_str(o: Option<&str>) -> Option<Seq<char>> {
    match o {
        Some(s) => Some(s@),
        None => None,
    }
}

/// A text that `HeaderValue::from_str` accepts: each byte of its UTF-8 form is
/// a tab or at least 32 and not 127, so each character is a tab, or not a
/// control character below 32 and not DEL.
pub open spec fn is_header_text(s: Seq<char>) -> bool {
    forall|i: int| 0 <= i < s.len() ==> (' ' <= #[trigger] s[i] && s[i] != '\x7f') || s[i] == '\t'
}

/// A text that `HeaderValue::from_static` accepts: tabs and visible ASCII only.
pub open spec fn is_visible_ascii_text(s: Seq<char>) -> bool {
    forall|i: int| 0 <= i < s.len() ==> (' ' <= #[trigger] s[i] && s[i] < '\x7f') || s[i] == '\t'
}

/// A text of ASCII characters only.
pub open spec fn is_ascii_text(s: Seq<char>) -> bool {
    forall|i: int| 0 <= i < s.len() ==> #[trigger] s[i] < '\u{80}'
}

/// The bytes of an ASCII text, one per character.
pub open spec fn ascii_bytes(s: Seq<char>) -> Seq<u8> {
    s.map_values(|c: char| c as u8)
}

/// The header value that `HeaderValue::from_str` makes of a text.
pub uninterp spec fn parsed_header_value(text: Seq<char>) -> http::HeaderValue;

/// The header value that `HeaderValue::from_static` makes of a text.
pub uninterp spec fn static_header_value(text: Seq<char>) -> http::HeaderValue;

/// `http::HeaderValue::from_str`. Trusted: it succeeds exactly on texts whose
/// every byte is a tab or at least 32 and not 127 (its source checks this
/// byte by byte), and then gives `parsed_header_value(text)`, which holds the
/// text's bytes; that is stated for ASCII texts, whose bytes are their
/// characters, and left unstated for others.
#[verifier::external_body]
fn header_value_from_str(text: &str) -> (r: Result<http::HeaderValue, http::header::InvalidHeaderValue>)
    ensures
        r is Ok <==> is_header_text(text@),
        r matches Ok(v) ==> v == parsed_header_value(text@),
        r matches Ok(v) ==> (is_ascii_text(text@) ==> header_value_bytes(v) == ascii_bytes(text@)),
{
    http::HeaderValue::from_str(text)
}

/// `http::HeaderValue::from_static`, which panics on any byte other than a tab
/// or visible ASCII; the requirement leaves those texts out. Trusted: it gives
/// `static_header_value(text)`, which holds the text's bytes.
#[verifier::external_body]
fn header_value_from_static(text: &'static str) -> (r: http::HeaderValue)
    requires
        is_visible_ascii_text(text@),
    ensures
        r == static_header_value(text@),
        header_value_bytes(r) == ascii_bytes(text@),
{
    http::HeaderValue::from_static(text)
}

/// A header name that `HeaderName::from_static` accepts without panicking:
/// non-empty, short, and made of lowercase ASCII letters, digits and `-` only.
pub open spec fn is_lower_header_name(name: Seq<char>) -> bool {
    &&& 0 < name.len() <= 64
    &&& forall|i: int| 0 <= i < name.len() ==>
        ('a' <= #[trigger] name[i] && name[i] <= 'z') || ('0' <= name[i] && name[i] <= '9') || name[i] == '-'
}

/// The header name that `HeaderName::from_static` makes of a text.
pub uninterp spec fn static_header_name(name: Seq<char>) -> http::HeaderName;

/// `http::HeaderName::from_static`, which panics on names with bytes outside
/// its table of lowercase token characters; the requirement keeps to a subset
/// of what it accepts. Trusted: it gives `static_header_name(name)`.
#[verifier::external_body]
fn header_name_from_static(name: &'static str) -> (r: http::HeaderName)
    requires
        is_lower_header_name(name@),
    ensures
        r == static_header_name(name@),
{
    http::HeaderName::from_static(name)
}

/// The (lowercase name, value bytes) pairs that a header map holds; the values
/// under one name in the order in which they were added.
pub uninterp spec fn header_map_entries(headers: http::HeaderMap) -> Seq<(Seq<char>, Seq<u8>)>;

/// The bytes that a header value holds.
pub uninterp spec fn header_value_bytes(value: http::HeaderValue) -> Seq<u8>;

/// The bytes of the first entry under `name`, if any.
pub open spec fn first_value(entries: Seq<(Seq<char>, Seq<u8>)>, name: Seq<char>) -> Option<Seq<u8>>
    decreases entries.len(),
{
    if entries.len() == 0 {
        None
    } else if entries[0].0 == name {
        Some(entries[0].1)
    } else {
        first_value(entries.drop_first(), name)
    }
}

/// Bytes that `HeaderValue::to_str` accepts: tabs and visible ASCII only.
pub open spec fn is_visible_ascii_bytes(b: Seq<u8>) -> bool {
    forall|i: int| 0 <= i < b.len() ==> (32 <= #[trigger] b[i] && b[i] < 127) || b[i] == 9
}

/// ASCII bytes read as characters.
pub open spec fn ascii_text(b: Seq<u8>) -> Seq<char> {
    b.map_values(|x: u8| x as char)
}

/// The text of the first value under `name` in a request's headers, when that
/// value is visible ASCII.
pub open spec fn header_text(headers: http::HeaderMap, name: Seq<char>) -> Option<Seq<char>> {
    match first_value(header_map_entries(headers), name) {
        Some(b) => if is_visible_ascii_bytes(b) { Some(ascii_text(b)) } else { None },
        None => None,
    }
}

/// `http::HeaderMap::get` with a `&str` name. Trusted: for a lowercase name it
/// gives the first value stored under that name, if any (its source parses the
/// name and looks it up; names are stored in lowercase). Nothing is stated for
/// other names.
#[verifier::external_body]
fn header_get<'a>(headers: &'a http::HeaderMap, name: &str) -> (r: Option<&'a http::HeaderValue>)
    ensures
        is_lower_header_name(name@) ==> (r is Some <==> first_value(header_map_entries(*headers), name@) is Some),
        is_lower_header_name(name@) ==> (r matches Some(v)
            ==> first_value(header_map_entries(*headers), name@) == Some(header_value_bytes(*v))),
{
    headers.get(name)
}

/// `http::HeaderValue::to_str`, kept only when it succeeds. Trusted: it
/// succeeds exactly when every byte is a tab or visible ASCII (its source checks
/// each byte), and the text is then those bytes.
#[verifier::external_body]
fn header_value_text(value: &http::HeaderValue) -> (r: Option<&str>)
    ensures
        r is Some <==> is_visible_ascii_bytes(header_value_bytes(*value)),
        r matches Some(t) ==> t@ == ascii_text(header_value_bytes(*value)),
{
    value.to_str().ok()
}

/// The text of the first value under `name` in `headers`, when that value is
/// visible ASCII. This is stated for lowercase names; for others the result
/// is left unstated (the header map also finds names given in other cases).
pub fn request_header_text(headers: &http::HeaderMap, name: &str) -> (r: Option<String>)
    ensures
        is_lower_header_name(name@) ==> opt_text(r) == header_text(*headers, name@),
{
    match header_get(headers, name) {
        Some(value) => match header_value_text(value) {
            Some(text) => Some(text.to_owned()),
            None => None,
        },
        None => None,
    }
}

/// The policy of a preview of this media, before scoping to an origin; none
/// for iframes.
pub open spec fn preview_policy(media: Media) -> Option<Seq<char>> {
    match media {
        Media::Audio => Some("default-src 'self'; script-src 'self' 'unsafe-inline' 'wasm-unsafe-eval'; style-src 'self' 'unsafe-inline'; media-src 'self' blob:; connect-src 'self'"@),
        Media::Code(_) => Some("script-src-elem 'self' https://cdn.jsdelivr.net"@),
        Media::Font => Some("script-src-elem 'self'; style-src 'self' 'unsafe-inline'"@),
        Media::Iframe => None,
        Media::Image(_) => Some("default-src 'self' 'unsafe-inline'"@),
        Media::Markdown => Some("script-src-elem 'self' https://cdn.jsdelivr.net"@),
        Media::Model => Some("script-src-elem 'self' https://ajax.googleapis.com"@),
        Media::Pdf => Some("script-src-elem 'self' https://cdn.jsdelivr.net"@),
        Media::Text => Some("default-src 'self'"@),
        Media::Unknown => Some("default-src 'self'"@),
        Media::Video => Some("default-src 'self'"@),
    }
}

/// The policy of an embed of this media, before scoping to an origin.
pub open spec fn embed_policy(media: Media) -> Seq<char> {
    match media {
        Media::Audio => "default-src 'self'; script-src 'self' 'unsafe-inline' 'wasm-unsafe-eval'; style-src 'self' 'unsafe-inline'; media-src 'self' blob:; connect-src 'self'; img-src 'self' data:"@,
        Media::Image(_) => "default-src 'self'; img-src 'self' data:; style-src 'self' 'unsafe-inline'"@,
        Media::Video => "default-src 'self'; media-src 'self' blob:; style-src 'self' 'unsafe-inline'"@,
        _ => "default-src 'self'; style-src 'self' 'unsafe-inline'"@,
    }
}

/// The origin that policies are scoped to: the configured one, else the host.
pub open spec fn policy_origin(csp_origin: Option<Seq<char>>, host: Option<Seq<char>>) -> Option<Seq<char>> {
    match csp_origin {
        Some(o) => Some(o),
        None => host,
    }
}

/// A policy scoped to an origin: every `'self'` replaced by the origin.
pub open spec fn scoped_policy(policy: Seq<char>, origin: Option<Seq<char>>) -> Seq<char> {
    match origin {
        Some(o) => replace_all(policy, "'self'"@, o),
        None => policy,
    }
}

/// The origin under which the server is reached: the configured policy
/// origin, else `https://` and the configured domain, else the request's
/// scheme (`http` when not forwarded) and host, else `http://localhost`.
pub open spec fn served_origin(
    csp_origin: Option<Seq<char>>,
    domain: Option<Seq<char>>,
    host: Option<Seq<char>>,
    scheme: Option<Seq<char>>,
) -> Seq<char> {
    match csp_origin {
        Some(o) => o,
        None => match domain {
            Some(d) => "https://"@ + d,
            None => match host {
                Some(h) => (match scheme {
                    Some(s) => s,
                    None => "http"@,
                }) + "://"@ + h,
                None => "http://localhost"@,
            },
        },
    }
}

fn scope(policy: &str, origin: Option<&str>) -> (r: Vec<char>)
    ensures
        r@ == scoped_policy(policy@, opt_str(origin)),
{
    match origin {
        Some(o) => {
            let pattern = chars_of("'self'");
            proof {
                reveal_strlit("'self'");
            }
            replace_chars(&chars_of(policy), &pattern, &chars_of(o))
        },
        None => chars_of(policy),
    }
}

impl ServerConfig {
    fn origin<'a>(&'a self, host: Option<&'a str>) -> (r: Option<&'a str>)
        ensures
            opt_str(r) == policy_origin(opt_text(self.csp_origin), opt_str(host)),
    {
        match &self.csp_origin {
            Some(o) => Some(o.as_str()),
            None => host,
        }
    }

    /// The `content-security-policy` header of a preview of `media`: its policy
    /// with `'self'` replaced by the configured origin or else the host.
    pub fn preview_content_security_policy(&self, media: Media, host: Option<&str>) -> (r: Result<
        [(http::HeaderName, http::HeaderValue); 1],
        PolicyError,
    >)
        ensures
            match preview_policy(media) {
                None => r matches Err(PolicyError::IframeMedia),
                Some(policy) => match policy_origin(opt_text(self.csp_origin), opt_str(host)) {
                    Some(origin) => {
                        let text = replace_all(policy, "'self'"@, origin);
                        &&& (r is Ok <==> is_header_text(text))
                        &&& (r matches Ok(h) ==> h@[0].1 == parsed_header_value(text))
                        &&& (r matches Ok(h) ==> (is_ascii_text(text) ==> header_value_bytes(h@[0].1) == ascii_bytes(text)))
                        &&& (r matches Ok(h) ==> h@[0].0 == static_header_name("content-security-policy"@))
                        &&& (r matches Err(e) ==> e matches PolicyError::InvalidOrigin(o) && o@ == origin)
                    },
                    None => r matches Ok(h) && h@[0].1 == static_header_value(policy)
                        && header_value_bytes(h@[0].1) == ascii_bytes(policy)
                        && h@[0].0 == static_header_name("content-security-policy"@),
                },
            },
    {
        let policy: &'static str = match media {
            Media::Audio => "default-src 'self'; script-src 'self' 'unsafe-inline' 'wasm-unsafe-eval'; style-src 'self' 'unsafe-inline'; media-src 'self' blob:; connect-src 'self'",
            Media::Code(_) => "script-src-elem 'self' https://cdn.jsdelivr.net",
            Media::Font => "script-src-elem 'self'; style-src 'self' 'unsafe-inline'",
            Media::Iframe => {
                return Err(PolicyError::IframeMedia);
            },
            Media::Image(_) => "default-src 'self' 'unsafe-inline'",
            Media::Markdown => "script-src-elem 'self' https://cdn.jsdelivr.net",
            Media::Model => "script-src-elem 'self' https://ajax.googleapis.com",
            Media::Pdf => "script-src-elem 'self' https://cdn.jsdelivr.net",
            Media::Text => "default-src 'self'",
            Media::Unknown => "default-src 'self'",
            Media::Video => "default-src 'self'",
        };
        let value = match self.origin(host) {
            Some(origin) => {
                let scoped = string_of(&scope(policy, Some(origin)));
                match header_value_from_str(scoped.as_str()) {
                    Ok(v) => v,
                    Err(_) => {
                        return Err(PolicyError::InvalidOrigin(origin.to_owned()));
                    },
                }
            },
            None => {
                proof {
                    reveal_strlit("default-src 'self'; script-src 'self' 'unsafe-inline' 'wasm-unsafe-eval'; style-src 'self' 'unsafe-inline'; media-src 'self' blob:; connect-src 'self'");
                    reveal_strlit("script-src-elem 'self' https://cdn.jsdelivr.net");
                    reveal_strlit("script-src-elem 'self'; style-src 'self' 'unsafe-inline'");
                    reveal_strlit("default-src 'self' 'unsafe-inline'");
                    reveal_strlit("script-src-elem 'self' https://ajax.googleapis.com");
                    reveal_strlit("default-src 'self'");
                }
                header_value_from_static(policy)
            },
        };
        proof {
            reveal_strlit("content-security-policy");
        }
        Ok([(header_name_from_static("content-security-policy"), value)])
    }

    /// The `content-security-policy` header of an embed of `media`: its policy,
    /// with `'self'` replaced by the configured origin or else the host, followed
    /// by `; frame-ancestors *`.
    pub fn embed_content_security_policy(&self, media: Media, host: Option<&str>) -> (r: Result<
        [(http::HeaderName, http::HeaderValue); 1],
        PolicyError,
    >)
        ensures
            ({
                let text = scoped_policy(embed_policy(media), policy_origin(opt_text(self.csp_origin), opt_str(host)))
                    + "; frame-ancestors *"@;
                &&& (r is Ok <==> is_header_text(text))
                &&& (r matches Ok(h) ==> h@[0].1 == parsed_header_value(text))
                &&& (r matches Ok(h) ==> (is_ascii_text(text) ==> header_value_bytes(h@[0].1) == ascii_bytes(text)))
                &&& (r matches Ok(h) ==> h@[0].0 == static_header_name("content-security-policy"@))
                &&& (r matches Err(e) ==> e matches PolicyError::InvalidEmbedPolicy)
            }),
    {
        let base: &'static str = match media {
            Media::Audio => "default-src 'self'; script-src 'self' 'unsafe-inline' 'wasm-unsafe-eval'; style-src 'self' 'unsafe-inline'; media-src 'self' blob:; connect-src 'self'; img-src 'self' data:",
            Media::Image(_) => "default-src 'self'; img-src 'self' data:; style-src 'self' 'unsafe-inline'",
            Media::Video => "default-src 'self'; media-src 'self' blob:; style-src 'self' 'unsafe-inline'",
            _ => "default-src 'self'; style-src 'self' 'unsafe-inline'",
        };
        let scoped = scope(base, self.origin(host));
        let text = string_of(&concat_chars(scoped, &chars_of("; frame-ancestors *")));
        match header_value_from_str(text.as_str()) {
            Ok(value) => {
                proof {
                    reveal_strlit("content-security-policy");
                }
                Ok([(header_name_from_static("content-security-policy"), value)])
            },
            Err(_) => Err(PolicyError::InvalidEmbedPolicy),
        }
    }

    /// The origin under which the server is reached, given the request's host
    /// and forwarded scheme.
    pub fn public_origin_from(&self, host: Option<&str>, scheme: Option<&str>) -> (r: String)
        ensures
            r@ == served_origin(opt_text(self.csp_origin), opt_text(self.domain), opt_str(host), opt_str(scheme)),
    {
        if let Some(origin) = &self.csp_origin {
            return origin.clone();
        }
        if let Some(domain) = &self.domain {
            return string_of(&concat_chars(chars_of("https://"), &chars_of(domain.as_str())));
        }
        if let Some(host) = host {
            let scheme = match scheme {
                Some(s) => s,
                None => "http",
            };
            return string_of(&concat_chars(concat_chars(chars_of(scheme), &chars_of("://")), &chars_of(host)));
        }
        "http://localhost".to_owned()
    }

    /// The origin under which the server is reached, reading the `host` and
    /// `x-forwarded-proto` headers of a request when no origin or domain is
    /// configured.
    pub fn public_origin(&self, headers: &http::HeaderMap) -> (r: String)
        ensures
            r@ == served_origin(
                opt_text(self.csp_origin),
                opt_text(self.domain),
                header_text(*headers, "host"@),
                header_text(*headers, "x-forwarded-proto"@),
            ),
    {
        proof {
            reveal_strlit("host");
            reveal_strlit("x-forwarded-proto");
        }
        let host = request_header_text(headers, "host");
        let scheme = request_header_text(headers, "x-forwarded-proto");
        let host_str = match &host {
            Some(h) => Some(h.as_str()),
            None => None,
        };
        let scheme_str = match &scheme {
            Some(s) => Some(s.as_str()),
            None => None,
        };
        self.public_origin_from(host_str, scheme_str)
    }
}

} // verus!
