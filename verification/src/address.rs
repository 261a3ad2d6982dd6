//! Absolute URLs: their normal form and their origin.

use crate::error::{AppError, AppErrorView};
use crate::text::{conjoin, decimal, decimal_of};
use url::Url;
use vstd::prelude::*;
use vstd::string::*;
use vstd::utf8::encode_utf8;

verus! {

/// The origin of a web address: scheme, host and port.
#[derive(Debug)]
pub struct Origin {
    pub scheme: String,
    pub host: String,
    pub port: u16,
}

/// An absolute URL in its normal form.
#[derive(Debug)]
pub struct Link {
    pub text: String,
}

/// An origin as a value of mathematics.
pub struct OriginView {
    pub scheme: Seq<char>,
    pub host: Seq<char>,
    pub port: u16,
}

/// A link as a value of mathematics.
pub struct LinkView {
    pub text: Seq<char>,
}

impl View for Origin {
    type V = OriginView;

    open spec fn view(&self) -> OriginView {
        OriginView { scheme: self.scheme@, host: self.host@, port: self.port }
    }
}

impl View for Link {
    type V = LinkView;

    open spec fn view(&self) -> LinkView {
        LinkView { text: self.text@ }
    }
}

/// How many colons a text may hold for its origin to be asked for. A URL of
/// the scheme `blob` has the origin of the URL in its path, which may be of
/// that scheme again; each such step takes a colon.
pub const MAX_COLONS: usize = 64;

/// The byte of a colon.
pub const COLON: u8 = 58;

/// How many of the bytes are colons.
pub open spec fn colons(bytes: Seq<u8>) -> nat
    decreases bytes.len(),
{
    if bytes.len() == 0 {
        0
    } else {
        colons(bytes.drop_last()) + if bytes.last() == COLON {
            1nat
        } else {
            0nat
        }
    }
}

/// How many colons a text holds, counted in its UTF-8 form.
pub open spec fn colons_in(raw: Seq<char>) -> nat {
    colons(encode_utf8(raw))
}

/// What a text is as an absolute URL, or why it is none.
pub uninterp spec fn parsed_url(raw: Seq<char>) -> Result<LinkView, Seq<char>>;

/// The origin of the absolute URL that a text is, `None` where the origin is
/// opaque; or why the text is no URL.
pub uninterp spec fn url_origin(raw: Seq<char>) -> Result<Option<OriginView>, Seq<char>>;

/// `url::Url::parse`, with the URL handed out as its serialization, and a
/// failure as the error's text. Both depend on the text alone.
#[verifier::external_body]
fn parse_url(raw: &str) -> (r: Result<Link, String>)
    ensures
        match r {
            Ok(link) => parsed_url(raw@) == Ok::<LinkView, Seq<char>>(link@),
            Err(why) => parsed_url(raw@) == Err::<LinkView, Seq<char>>(why@),
        },
{
    match Url::parse(raw) {
        Ok(url) => Ok(Link { text: String::from(url) }),
        Err(why) => Err(why.to_string()),
    }
}

/// `url::Url::origin` of what `url::Url::parse` makes of the text, handed out
/// as scheme, host as it is displayed, and port; an opaque origin is `None`,
/// a text that is no URL the error's text. All of it depends on the text
/// alone. For a URL of the scheme `blob` the call calls itself on the URL in
/// the path, at most once for each colon of the text: the bound keeps that
/// from running out of stack.
#[verifier::external_body]
fn origin_of(raw: &str) -> (r: Result<Option<Origin>, String>)
    requires
        colons_in(raw@) <= MAX_COLONS,
    ensures
        match r {
            Ok(Some(o)) => url_origin(raw@) == Ok::<Option<OriginView>, Seq<char>>(Some(o@)),
            Ok(None) => url_origin(raw@) == Ok::<Option<OriginView>, Seq<char>>(None),
            Err(why) => url_origin(raw@) == Err::<Option<OriginView>, Seq<char>>(why@),
        },
{
    match Url::parse(raw) {
        Ok(url) => match url.origin() {
            url::Origin::Tuple(scheme, host, port) => Ok(
                Some(Origin { scheme, host: host.to_string(), port }),
            ),
            url::Origin::Opaque(_) => Ok(None),
        },
        Err(why) => Err(why.to_string()),
    }
}

impl Link {
    /// Reads an absolute URL. A text that is none is a `ParseFailure` with the
    /// parser's account.
    pub fn parse(raw: &str) -> (r: Result<Link, AppError>)
        ensures
            match r {
                Ok(link) => parsed_url(raw@) == Ok::<LinkView, Seq<char>>(link@),
                Err(e) => e matches AppError::ParseFailure(m) && parsed_url(raw@) == Err::<
                    LinkView,
                    Seq<char>,
                >(m@),
            },
    {
        match parse_url(raw) {
            Ok(link) => Ok(link),
            Err(why) => Err(AppError::ParseFailure(why)),
        }
    }
}

/// Counts the colons of a text.
pub fn count_colons(raw: &str) -> (n: usize)
    ensures
        n == colons_in(raw@),
{
    let bytes = raw.as_bytes();
    let mut n: usize = 0;
    let mut i: usize = 0;
    while i < bytes.len()
        invariant
            i <= bytes.len(),
            n <= i,
            bytes@ == encode_utf8(raw@),
            n == colons(bytes@.take(i as int)),
        decreases bytes.len() - i,
    {
        assert(bytes@.take(i + 1).drop_last() =~= bytes@.take(i as int));
        if bytes[i] == COLON {
            n += 1;
        }
        i += 1;
    }
    assert(bytes@.take(bytes.len() as int) =~= bytes@);
    n
}

/// The account of a text with more colons than `MAX_COLONS`.
pub open spec fn too_many_colons() -> Seq<char> {
    "too many colons in link"@
}

/// The origin of the absolute URL that a text is: `None` where it is opaque.
/// A text with more colons than `MAX_COLONS` is refused; a text that is no
/// URL is a failure with the parser's account.
pub open spec fn origin_or_failure(raw: Seq<char>) -> Result<Option<OriginView>, AppErrorView> {
    if colons_in(raw) > MAX_COLONS {
        Err(AppErrorView::ParseFailure(too_many_colons()))
    } else {
        match url_origin(raw) {
            Ok(origin) => Ok(origin),
            Err(why) => Err(AppErrorView::ParseFailure(why)),
        }
    }
}

/// The view of an origin, or none, or an error.
pub open spec fn origin_view(r: Result<Option<Origin>, AppError>) -> Result<
    Option<OriginView>,
    AppErrorView,
> {
    match r {
        Ok(Some(o)) => Ok(Some(o@)),
        Ok(None) => Ok(None),
        Err(e) => Err(e.deep_view()),
    }
}

impl Origin {
    /// The origin of the absolute URL that a text is: scheme, host and port,
    /// or `None` where the origin is opaque.
    pub fn of(raw: &str) -> (r: Result<Option<Origin>, AppError>)
        ensures
            origin_view(r) == origin_or_failure(raw@),
    {
        if count_colons(raw) > MAX_COLONS {
            return Err(AppError::ParseFailure(String::from_str("too many colons in link")));
        }
        match origin_of(raw) {
            Ok(origin) => Ok(origin),
            Err(why) => Err(AppError::ParseFailure(why)),
        }
    }
}

/// Where an origin keeps its icon by convention, before the address is put in
/// normal form: scheme, host and port, then `/favicon.ico`.
pub open spec fn favicon_address(origin: OriginView) -> Seq<char> {
    origin.scheme + "://"@ + origin.host + ":"@ + decimal(origin.port as nat) + "/favicon.ico"@
}

/// Writes down where an origin keeps its icon by convention.
pub fn favicon_address_of(origin: &Origin) -> (r: String)
    ensures
        r@ == favicon_address(origin@),
{
    let mut r = conjoin(origin.scheme.as_str(), "://");
    r.append(origin.host.as_str());
    r.append(":");
    r.append(decimal_of(origin.port).as_str());
    r.append("/favicon.ico");
    r
}

} // verus!
