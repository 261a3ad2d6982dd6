//! Reading an item of a feed: its identifier, its cleaned body, its publish
//! time.

use crate::address::{parsed_url, Link, LinkView};
use crate::clock::{now, parse_pub_date, publish_time, Timestamp};
use crate::error::AppError;
use crate::feed::{Item, ItemView};
use crate::hashing::{
    hex_encode, hex_lower, is_lower_hex, lemma_hex_lower_shape, sha256_digest, sha256_of,
};
use crate::text::conjoin;
use scraper::Html;
use vstd::prelude::*;
use vstd::string::*;
use vstd::utf8::encode_utf8;

verus! {

/// What is known of an item once it is read: the fields of the article that it
/// may become, and what there was to remark on the way.
#[derive(Debug)]
pub struct ItemContent {
    pub title: String,
    pub link: Option<Link>,
    pub content: Option<String>,
    pub article_id: String,
    pub published: Timestamp,
    pub warnings: Vec<String>,
}

/// A read item as a value of mathematics.
pub struct ItemContentView {
    pub title: Seq<char>,
    pub link: Option<LinkView>,
    pub content: Option<Seq<char>>,
    pub article_id: Seq<char>,
    pub published: Timestamp,
    pub warnings: Seq<Seq<char>>,
}

impl DeepView for ItemContent {
    type V = ItemContentView;

    open spec fn deep_view(&self) -> ItemContentView {
        ItemContentView {
            title: self.title@,
            link: match self.link {
                Some(l) => Some(l@),
                None => None,
            },
            content: self.content.deep_view(),
            article_id: self.article_id@,
            published: self.published,
            warnings: self.warnings.deep_view(),
        }
    }
}

/// A fragment of HTML after cleaning, and the errors its parser met.
#[derive(Debug)]
pub struct Cleaned {
    pub html: String,
    pub errors: Vec<String>,
}

/// A cleaned fragment as a value of mathematics.
pub struct CleanedView {
    pub html: Seq<char>,
    pub errors: Seq<Seq<char>>,
}

impl DeepView for Cleaned {
    type V = CleanedView;

    open spec fn deep_view(&self) -> CleanedView {
        CleanedView { html: self.html@, errors: self.errors.deep_view() }
    }
}

/// What a text is once it has been parsed as a fragment of HTML and written
/// out again, and the errors that the parser met, in order.
pub uninterp spec fn parsed_fragment(fragment: Seq<char>) -> CleanedView;

/// `scraper::Html::parse_fragment`, handed out as the inner HTML of the
/// tree's root element and the texts of the tree's `errors`. Both depend on
/// the fragment alone.
#[verifier::external_body]
fn parse_fragment(fragment: &str) -> (r: Cleaned)
    ensures
        r.deep_view() == parsed_fragment(fragment@),
{
    let tree = Html::parse_fragment(fragment);
    Cleaned {
        html: tree.root_element().inner_html(),
        errors: tree.errors.iter().map(|e| e.to_string()).collect(),
    }
}

/// The title of an item that has none.
pub open spec fn untitled() -> Seq<char> {
    "Untitled"@
}

/// The message whose digest names an item without identifier or link: title,
/// summary and content, one after the other, as UTF-8.
pub open spec fn fallback_message(title: Seq<char>, summary: Seq<char>, content: Seq<char>) -> Seq<
    u8,
> {
    encode_utf8(title + summary + content)
}

/// The identifier of an item without identifier or link: `sha256:` and the
/// SHA-256 digest of its message in lower-case hexadecimal.
pub open spec fn fallback_id(title: Seq<char>, summary: Seq<char>, content: Seq<char>) -> Seq<
    char,
> {
    tagged(sha256_digest(fallback_message(title, summary, content)))
}

/// The identifier of an item: its own where it has one, else its link in
/// normal form, else the fallback identifier.
pub open spec fn derived_id(
    explicit_id: Option<Seq<char>>,
    link: Option<LinkView>,
    title: Seq<char>,
    summary: Seq<char>,
    content: Seq<char>,
) -> Seq<char> {
    match explicit_id {
        Some(id) => id,
        None => match link {
            Some(l) => l.text,
            None => fallback_id(title, summary, content),
        },
    }
}

/// The characters of a string that may be absent.
pub open spec fn text_of(s: Option<&str>) -> Option<Seq<char>> {
    match s {
        Some(s) => Some(s@),
        None => None,
    }
}

/// The view of a link that may be absent.
pub open spec fn link_view(link: Option<&Link>) -> Option<LinkView> {
    match link {
        Some(l) => Some(l@),
        None => None,
    }
}

/// The text of an option, or the empty text.
pub open spec fn or_empty(s: Option<Seq<char>>) -> Seq<char> {
    match s {
        Some(s) => s,
        None => Seq::empty(),
    }
}

/// The identifier that a digest gives: `sha256:` and the digest in lower-case
/// hexadecimal.
pub open spec fn tagged(digest: Seq<u8>) -> Seq<char> {
    "sha256:"@ + hex_lower(digest)
}

/// Whether a text has the shape of an identifier that a SHA-256 digest
/// gives: `sha256:` and 64 lower-case hexadecimal digits.
pub open spec fn is_fallback_id(id: Seq<char>) -> bool {
    &&& id.len() == 7 + 64
    &&& id.subrange(0, 7) == "sha256:"@
    &&& forall|i: int| 7 <= i < id.len() ==> is_lower_hex(#[trigger] id[i])
}

/// The identifier that a digest of 32 bytes gives has the shape of a
/// fallback identifier.
pub proof fn lemma_tagged_shape(digest: Seq<u8>)
    requires
        digest.len() == 32,
    ensures
        is_fallback_id(tagged(digest)),
{
    reveal_strlit("sha256:");
    lemma_hex_lower_shape(digest);
    let id = tagged(digest);
    assert("sha256:"@.len() == 7);
    assert(id.subrange(0, 7) =~= "sha256:"@);
    assert forall|i: int| 7 <= i < id.len() implies is_lower_hex(#[trigger] id[i]) by {
        assert(id[i] == hex_lower(digest)[i - 7]);
    }
}

/// Writes the identifier that a digest gives.
pub fn tagged_of(digest: &[u8]) -> (r: String)
    ensures
        r@ == tagged(digest@),
        digest@.len() == 32 ==> is_fallback_id(r@),
{
    proof {
        if digest@.len() == 32 {
            lemma_tagged_shape(digest@);
        }
    }
    let mut id = String::from_str("sha256:");
    id.append(hex_encode(digest).as_str());
    id
}

/// Derives the stable identifier of an item.
pub fn derive_id(
    explicit_id: Option<&str>,
    link: Option<&Link>,
    title: &str,
    summary: &str,
    content: &str,
) -> (r: String)
    ensures
        r@ == derived_id(text_of(explicit_id), link_view(link), title@, summary@, content@),
        explicit_id is None && link is None ==> is_fallback_id(r@),
{
    match explicit_id {
        Some(id) => String::from_str(id),
        None => match link {
            Some(l) => l.text.clone(),
            None => {
                let mut message = conjoin(title, summary);
                message.append(content);
                let digest = sha256_of(message.as_str().as_bytes());
                tagged_of(digest.as_slice())
            },
        },
    }
}

/// The remark on a parse error of a fragment.
pub open spec fn fragment_warning(error: Seq<char>) -> Seq<char> {
    "error parsing fragment: "@ + error
}

/// The remarks on the parse errors of a fragment, in order.
pub open spec fn fragment_warnings(errors: Seq<Seq<char>>) -> Seq<Seq<char>> {
    Seq::new(errors.len(), |i: int| fragment_warning(errors[i]))
}

/// The remark on a publish date that cannot be read.
pub open spec fn date_warning(article_id: Seq<char>, raw: Seq<char>, why: Seq<char>) -> Seq<char> {
    "invalid pub date for "@ + article_id + " ("@ + raw + "): "@ + why
}

/// The text of an item that becomes the body: the full content where there
/// is one, else the description.
pub open spec fn raw_body(item: ItemView) -> Option<Seq<char>> {
    match item.content {
        Some(c) => Some(c),
        None => item.description,
    }
}

/// What an item is once its link has been parsed, its body cleaned and its
/// publish date read: `link` is the link, if the item has one; `cleaned` is
/// the body, if the item has one; `date` is what became of the publish date,
/// if the item has one. Where the date is missing or cannot be read, the
/// item counts as published at `now`; that it cannot be read is remarked.
pub open spec fn assembled(
    item: ItemView,
    link: Option<LinkView>,
    cleaned: Option<CleanedView>,
    date: Option<Result<Timestamp, Seq<char>>>,
    now: Timestamp,
) -> ItemContentView {
    let title = match item.title {
        Some(t) => t,
        None => untitled(),
    };
    let content = match cleaned {
        Some(c) => Some(c.html),
        None => None,
    };
    let remarks = match cleaned {
        Some(c) => fragment_warnings(c.errors),
        None => Seq::empty(),
    };
    let article_id = derived_id(
        item.guid,
        link,
        title,
        or_empty(item.description),
        or_empty(content),
    );
    ItemContentView {
        title,
        link,
        content,
        article_id,
        published: match date {
            Some(Ok(at)) => at,
            _ => now,
        },
        warnings: match date {
            Some(Err(why)) => remarks.push(date_warning(article_id, or_empty(item.pub_date), why)),
            _ => remarks,
        },
    }
}

/// What an item is once it is read at the instant `now`, or why its link is
/// no URL.
pub open spec fn normalized(item: ItemView, now: Timestamp) -> Result<ItemContentView, Seq<char>> {
    let link = match item.link {
        Some(raw) => match parsed_url(raw) {
            Ok(l) => Ok(Some(l)),
            Err(why) => Err(why),
        },
        None => Ok(None),
    };
    match link {
        Err(why) => Err(why),
        Ok(link) => Ok(
            assembled(
                item,
                link,
                match raw_body(item) {
                    Some(raw) => Some(parsed_fragment(raw)),
                    None => None,
                },
                match item.pub_date {
                    Some(raw) => Some(publish_time(raw)),
                    None => None,
                },
                now,
            ),
        ),
    }
}

/// Process / cleanup document content: the fragment is parsed as HTML and
/// written out again; the parser's errors come along.
pub fn process_content(content: &str) -> (r: Cleaned)
    ensures
        r.deep_view() == parsed_fragment(content@),
{
    parse_fragment(content)
}

/// Writes the remark on a publish date that cannot be read.
pub fn date_warning_of(article_id: &str, raw: &str, why: &str) -> (r: String)
    ensures
        r@ == date_warning(article_id@, raw@, why@),
{
    let mut r = conjoin("invalid pub date for ", article_id);
    r.append(" (");
    r.append(raw);
    r.append("): ");
    r.append(why);
    r
}

/// Writes the remarks on the parse errors of a fragment.
pub fn fragment_warnings_of(errors: &Vec<String>) -> (r: Vec<String>)
    ensures
        r.deep_view() == fragment_warnings(errors.deep_view()),
{
    let mut r: Vec<String> = Vec::new();
    let mut i: usize = 0;
    while i < errors.len()
        invariant
            i <= errors.len(),
            r.len() == i,
            forall|k: int| 0 <= k < i ==> (#[trigger] r[k])@ == fragment_warning(errors[k]@),
        decreases errors.len() - i,
    {
        r.push(conjoin("error parsing fragment: ", errors[i].as_str()));
        i += 1;
    }
    assert(r.deep_view() =~= fragment_warnings(errors.deep_view()));
    r
}

/// The view of a link that may be absent.
pub open spec fn held_link_view(link: Option<Link>) -> Option<LinkView> {
    match link {
        Some(l) => Some(l@),
        None => None,
    }
}

/// The view of what became of a publish date.
pub open spec fn date_view(date: Option<Result<Timestamp, String>>) -> Option<
    Result<Timestamp, Seq<char>>,
> {
    match date {
        Some(Ok(at)) => Some(Ok(at)),
        Some(Err(why)) => Some(Err(why@)),
        None => None,
    }
}

/// Puts an item together once its link has been parsed, its body cleaned and
/// its publish date read.
pub fn assemble(
    item: &Item,
    link: Option<Link>,
    cleaned: Option<Cleaned>,
    date: Option<Result<Timestamp, String>>,
    now: Timestamp,
) -> (r: ItemContent)
    ensures
        r.deep_view() == assembled(
            item.deep_view(),
            held_link_view(link),
            cleaned.deep_view(),
            date_view(date),
            now,
        ),
        item.guid is None && link is None ==> is_fallback_id(r.article_id@),
{
    let title = match &item.title {
        Some(t) => t.clone(),
        None => String::from_str("Untitled"),
    };
    let (content, mut warnings) = match cleaned {
        Some(cleaned) => {
            let remarks = fragment_warnings_of(&cleaned.errors);
            (Some(cleaned.html), remarks)
        },
        None => (None, Vec::new()),
    };
    proof {
        reveal_strlit("");
        assert(""@ =~= Seq::<char>::empty());
    }
    let summary: &str = match &item.description {
        Some(d) => d.as_str(),
        None => "",
    };
    let body: &str = match &content {
        Some(c) => c.as_str(),
        None => "",
    };
    let guid: Option<&str> = match &item.guid {
        Some(g) => Some(g.as_str()),
        None => None,
    };
    let raw_date: &str = match &item.pub_date {
        Some(d) => d.as_str(),
        None => "",
    };
    let article_id = derive_id(guid, link.as_ref(), title.as_str(), summary, body);
    let ghost remarks = warnings.deep_view();
    let published = match date {
        Some(Ok(at)) => at,
        Some(Err(why)) => {
            warnings.push(date_warning_of(article_id.as_str(), raw_date, why.as_str()));
            assert(warnings.deep_view() =~= remarks.push(
                date_warning(article_id@, raw_date@, why@),
            ));
            now
        },
        None => now,
    };
    let r = ItemContent { title, link, content, article_id, published, warnings };
    proof {
        let read = assembled(
            item.deep_view(),
            held_link_view(link),
            cleaned.deep_view(),
            date_view(date),
            now,
        );
        assert(read.article_id == r.deep_view().article_id);
        assert(read.warnings == r.deep_view().warnings);
    }
    r
}

/// Reads an item at the instant `now`: title, link, cleaned body, identifier
/// and publish time. Only a link that is no URL makes it fail.
pub fn normalize(item: &Item, now: Timestamp) -> (r: Result<ItemContent, AppError>)
    ensures
        match r {
            Ok(c) => normalized(item.deep_view(), now) == Ok::<ItemContentView, Seq<char>>(
                c.deep_view(),
            ),
            Err(e) => e matches AppError::ParseFailure(why) && normalized(item.deep_view(), now)
                == Err::<ItemContentView, Seq<char>>(why@),
        },
        item.guid is None && item.link is None ==> r is Ok && is_fallback_id(r->Ok_0.article_id@),
{
    let link = match &item.link {
        Some(raw) => match Link::parse(raw.as_str()) {
            Ok(link) => Some(link),
            Err(e) => {
                return Err(e);
            },
        },
        None => None,
    };
    let raw: Option<&String> = match &item.content {
        Some(c) => Some(c),
        None => match &item.description {
            Some(d) => Some(d),
            None => None,
        },
    };
    let cleaned = match raw {
        Some(raw) => Some(process_content(raw.as_str())),
        None => None,
    };
    let date = match &item.pub_date {
        Some(raw) => Some(parse_pub_date(raw.as_str())),
        None => None,
    };
    Ok(assemble(item, link, cleaned, date, now))
}

/// Return the content of an Item, read at the present instant.
pub fn get_content(item: &Item) -> (r: Result<ItemContent, AppError>)
    ensures
        exists|at: Timestamp|
            at.in_range() && at.offset_seconds == 0 && match r {
                Ok(c) => #[trigger] normalized(item.deep_view(), at) == Ok::<
                    ItemContentView,
                    Seq<char>,
                >(c.deep_view()),
                Err(e) => e matches AppError::ParseFailure(why) && normalized(item.deep_view(), at)
                    == Err::<ItemContentView, Seq<char>>(why@),
            },
        item.link is None ==> r is Ok,
        item.guid is None && item.link is None ==> r is Ok && is_fallback_id(r->Ok_0.article_id@),
{
    normalize(item, now())
}

} // verus!
