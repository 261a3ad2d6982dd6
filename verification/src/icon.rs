//! The icon of a feed: where to look for it, and how to inline what a server
//! answers as a data URI.

use crate::address::{
    favicon_address, favicon_address_of, origin_or_failure, parsed_url, Link, LinkView, Origin,
};
use crate::error::{AppError, AppErrorView};
use crate::feed::{Channel, ChannelView};
use crate::text::{conjoin, decimal, decimal_of};
use base64::engine::general_purpose;
use base64::Engine;
use vstd::prelude::*;
use vstd::string::*;

verus! {

/// What a server answered to a request: the status code, the value of the
/// `content-type` header where there is one, and the body.
#[derive(Debug)]
pub struct HttpReply {
    pub status: u16,
    pub content_type: Option<String>,
    pub body: Vec<u8>,
}

/// A server's answer as a value of mathematics.
pub struct HttpReplyView {
    pub status: u16,
    pub content_type: Option<Seq<char>>,
    pub body: Seq<u8>,
}

impl DeepView for HttpReply {
    type V = HttpReplyView;

    open spec fn deep_view(&self) -> HttpReplyView {
        HttpReplyView {
            status: self.status,
            content_type: self.content_type.deep_view(),
            body: self.body@,
        }
    }
}

/// The view of a result that holds a link, or none, or an error.
pub open spec fn candidate_view(r: Result<Option<Link>, AppError>) -> Result<
    Option<LinkView>,
    AppErrorView,
> {
    match r {
        Ok(Some(l)) => Ok(Some(l@)),
        Ok(None) => Ok(None),
        Err(e) => Err(e.deep_view()),
    }
}

/// What a text is as a link, a failure being a `ParseFailure` with the
/// parser's account.
pub open spec fn link_or_failure(raw: Seq<char>) -> Result<Option<LinkView>, AppErrorView> {
    match parsed_url(raw) {
        Ok(l) => Ok(Some(l)),
        Err(why) => Err(AppErrorView::ParseFailure(why)),
    }
}

/// Where the icon of a channel is to be looked for: at the image that the
/// channel names; else at `/favicon.ico` of the origin of the channel's link;
/// nowhere if that origin is opaque. A link that is no URL, or that holds
/// too many colons for its origin to be asked for, is a failure.
pub open spec fn icon_candidate(channel: ChannelView) -> Result<Option<LinkView>, AppErrorView> {
    match channel.image_url {
        Some(raw) => link_or_failure(raw),
        None => match origin_or_failure(channel.link) {
            Err(e) => Err(e),
            Ok(None) => Ok(None),
            Ok(Some(o)) => link_or_failure(favicon_address(o)),
        },
    }
}

/// Reads a text as a link that is there.
fn link_or_failure_of(raw: &str) -> (r: Result<Option<Link>, AppError>)
    ensures
        candidate_view(r) == link_or_failure(raw@),
{
    match Link::parse(raw) {
        Ok(l) => Ok(Some(l)),
        Err(e) => Err(e),
    }
}

/// Return a URL for the channel icon, if available
pub fn get_icon_url(channel: &Channel) -> (r: Result<Option<Link>, AppError>)
    ensures
        candidate_view(r) == icon_candidate(channel.deep_view()),
{
    match &channel.image_url {
        Some(raw) => link_or_failure_of(raw.as_str()),
        None => match Origin::of(channel.link.as_str()) {
            Err(e) => Err(e),
            Ok(None) => Ok(None),
            Ok(Some(origin)) => link_or_failure_of(favicon_address_of(&origin).as_str()),
        },
    }
}

/// The standard base64 form of a byte string, with padding.
pub uninterp spec fn base64_standard(data: Seq<u8>) -> Seq<char>;

/// Whether a body is short enough for its base64 form to have a length.
pub open spec fn encodable(len: nat) -> bool {
    len / 3 < usize::MAX / 4
}

/// `base64::Engine::encode` of `base64::engine::general_purpose::STANDARD`:
/// the text depends on the bytes alone. The call panics where the length of
/// the text would not fit in `usize`.
#[verifier::external_body]
fn base64_encode(data: &[u8]) -> (r: String)
    requires
        encodable(data@.len()),
    ensures
        r@ == base64_standard(data@),
{
    general_purpose::STANDARD.encode(data)
}

/// A data URI in base64: the MIME type, and the payload as it stands.
pub open spec fn inlined(mime: Seq<char>, payload: Seq<char>) -> Seq<char> {
    "data:"@ + mime + ";base64,"@ + payload
}

/// The data URI of a body: the MIME type, and the body in base64.
pub open spec fn data_uri(mime: Seq<char>, body: Seq<u8>) -> Seq<char> {
    inlined(mime, base64_standard(body))
}

/// Writes a data URI in base64 around a payload that is encoded already.
pub fn inlined_of(mime: &str, payload: &str) -> (r: String)
    ensures
        r@ == inlined(mime@, payload@),
{
    let mut uri = conjoin("data:", mime);
    uri.append(";base64,");
    uri.append(payload);
    uri
}

/// The account of a download that did not end with status 200.
pub open spec fn download_failure(status: u16) -> Seq<char> {
    "error downloading icon ("@ + decimal(status as nat) + ")"@
}

/// The account of a body that is too long to be written in base64.
pub open spec fn too_large() -> Seq<char> {
    "icon too large to inline"@
}

/// The icon that a server's answer holds: an answer other than 200 is a
/// failure with the status; one without a content type holds no icon; else
/// the icon is the data URI of type and body, as a link.
pub open spec fn icon_of_reply(reply: HttpReplyView) -> Result<Option<LinkView>, AppErrorView> {
    if reply.status != 200 {
        Err(AppErrorView::IconResolutionFailure(download_failure(reply.status)))
    } else {
        match reply.content_type {
            None => Ok(None),
            Some(mime) => if !encodable(reply.body.len()) {
                Err(AppErrorView::IconResolutionFailure(too_large()))
            } else {
                link_or_failure(data_uri(mime, reply.body))
            },
        }
    }
}

/// Return the icon as a data URL, if found
pub fn get_icon(reply: &HttpReply) -> (r: Result<Option<Link>, AppError>)
    ensures
        candidate_view(r) == icon_of_reply(reply.deep_view()),
{
    if reply.status != 200 {
        let mut why = conjoin("error downloading icon (", decimal_of(reply.status).as_str());
        why.append(")");
        return Err(AppError::IconResolutionFailure(why));
    }
    match &reply.content_type {
        None => Ok(None),
        Some(mime) => {
            if reply.body.len() / 3 >= usize::MAX / 4 {
                return Err(
                    AppError::IconResolutionFailure(String::from_str("icon too large to inline")),
                );
            }
            let payload = base64_encode(reply.body.as_slice());
            link_or_failure_of(inlined_of(mime.as_str(), payload.as_str()).as_str())
        },
    }
}

} // verus!
