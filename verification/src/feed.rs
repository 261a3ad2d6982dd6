//! Feed documents as the library takes them: a channel and its items.

use vstd::prelude::*;

verus! {

/// One entry of a channel, as the feed document gives it.
#[derive(Debug, Clone)]
pub struct Item {
    pub title: Option<String>,
    pub link: Option<String>,
    pub description: Option<String>,
    pub content: Option<String>,
    pub guid: Option<String>,
    pub pub_date: Option<String>,
}

/// A feed document: what it says of itself, and its items in document order.
#[derive(Debug, Clone)]
pub struct Channel {
    pub title: String,
    pub link: String,
    pub image_url: Option<String>,
    pub items: Vec<Item>,
}

/// An item as a value of mathematics.
pub struct ItemView {
    pub title: Option<Seq<char>>,
    pub link: Option<Seq<char>>,
    pub description: Option<Seq<char>>,
    pub content: Option<Seq<char>>,
    pub guid: Option<Seq<char>>,
    pub pub_date: Option<Seq<char>>,
}

/// A channel as a value of mathematics.
pub struct ChannelView {
    pub title: Seq<char>,
    pub link: Seq<char>,
    pub image_url: Option<Seq<char>>,
    pub items: Seq<ItemView>,
}

impl DeepView for Item {
    type V = ItemView;

    open spec fn deep_view(&self) -> ItemView {
        ItemView {
            title: self.title.deep_view(),
            link: self.link.deep_view(),
            description: self.description.deep_view(),
            content: self.content.deep_view(),
            guid: self.guid.deep_view(),
            pub_date: self.pub_date.deep_view(),
        }
    }
}

impl DeepView for Channel {
    type V = ChannelView;

    open spec fn deep_view(&self) -> ChannelView {
        ChannelView {
            title: self.title@,
            link: self.link@,
            image_url: self.image_url.deep_view(),
            items: self.items.deep_view(),
        }
    }
}

} // verus!
