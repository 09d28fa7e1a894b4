//! The content model: a channel's items, their class-specific payloads, and
//! the derivation of local storage paths, URLs and file bodies.
//!
//! The derivation methods are partial functions of `class`: each is defined
//! only for the classes listed in its `requires`, and only when the payload
//! fields that class is guaranteed to carry are present.  Calling one outside
//! its domain is a contract violation, not a recoverable error, so the
//! contracts exclude those inputs instead of giving them a value.

use vstd::prelude::*;

use crate::text::{dec_str, ext_of, extension_of, u32_to_string};

verus! {

/// The classes a content item can have.
#[derive(Debug, Clone, Copy, PartialEq, Eq)]
pub enum Class {
    Image,
    Attachment,
    Text,
    Link,
    Channel,
    Media,
}

/// The `{url}` record carried by an item's `source` field.
#[derive(Debug, Clone, PartialEq, Eq)]
pub struct SourceData {
    pub url: Option<String>,
}

/// One rendition URL of an image payload.
#[derive(Debug, Clone, PartialEq, Eq)]
pub struct ImageUrl {
    pub url: String,
}

/// The payload of an `Image` item: three renditions and optional metadata.
#[derive(Debug, Clone, PartialEq, Eq)]
pub struct ImageData {
    pub filename: Option<String>,
    pub content_type: Option<String>,
    pub display: ImageUrl,
    pub thumb: ImageUrl,
    pub square: ImageUrl,
}

/// The payload of an `Attachment` item; every field is required once the
/// payload is present.
#[derive(Debug, Clone, PartialEq, Eq)]
pub struct AttachmentData {
    pub file_name: String,
    pub file_size: u64,
    pub file_size_display: String,
    pub content_type: String,
    pub extension: String,
    pub url: String,
}

/// How a content item is stored locally.  `path` is unset at fetch time and
/// assigned once by the consumer before any path derivation is used.
#[derive(Debug, Clone, PartialEq, Eq)]
pub struct Content {
    pub id: u32,
    pub created_at: String,
    pub updated_at: String,
    pub slug: Option<String>,
    pub class: Class,
    pub base_class: String,
    pub content: Option<String>,
    pub content_html: Option<String>,
    pub position: u32,
    pub source: Option<SourceData>,
    pub title: Option<String>,
    pub image: Option<ImageData>,
    pub path: Option<String>,
    pub attachment: Option<AttachmentData>,
    pub downloaded: Option<bool>,
}

/// The wire default of the `downloaded` flag: absent means not downloaded.
pub fn defaul_false() -> (r: Option<bool>)
    ensures
        r == Some(false),
{
    Some(false)
}

/// A page's worth of channel content, and equally the merged whole: the
/// channel slug with an ordered item list.
#[derive(Debug, Clone, PartialEq, Eq)]
pub struct ContentDaddy {
    pub slug: String,
    pub contents: Vec<Content>,
}

/// A page of a user's channel listing.
#[derive(Debug, Clone, PartialEq, Eq)]
pub struct Channels {
    pub length: u32,
    pub channels: Vec<ChannelThumb>,
}

/// A user summary: how many channels they hold, and their slug.
#[derive(Debug, Clone, PartialEq, Eq)]
pub struct BasicUser {
    pub length: u32,
    pub slug: Option<String>,
}

/// Summary of a channel: identity and its declared item count, which drives
/// the pagination planner.
#[derive(Debug, Clone, PartialEq, Eq)]
pub struct ChannelThumb {
    pub title: String,
    pub id: u32,
    pub slug: String,
    pub created_at: String,
    pub updated_at: String,
    pub length: u32,
    pub status: Option<String>,
    pub owner_id: Option<u32>,
}

impl Content {
    /// The file name part of a derived path: `{id}.{ext}`.
    pub open spec fn file_name_spec(self, ext: Seq<char>) -> Seq<char> {
        dec_str(self.id as nat) + "."@ + ext
    }

    /// A derived path: `{path}/{id}.{ext}`.
    pub open spec fn path_with_ext_spec(self, ext: Seq<char>) -> Seq<char> {
        self.path->Some_0@ + "/"@ + self.file_name_spec(ext)
    }

    /// The extension an `Image` item resolves: taken from the image payload's
    /// file name when a payload is present, else from the source URL.
    pub open spec fn image_ext_spec(self) -> Seq<char> {
        if self.image is Some {
            ext_of(self.image->Some_0.filename->Some_0@)
        } else {
            ext_of(self.source->Some_0.url->Some_0@)
        }
    }

    /// Which fields the path derivation for `self.class` reads, beyond the
    /// assigned `path` itself.
    pub open spec fn path_fields_present(self) -> bool {
        match self.class {
            Class::Image => {
                if self.image is Some {
                    self.image->Some_0.filename is Some
                } else {
                    self.source is Some && self.source->Some_0.url is Some
                }
            },
            Class::Attachment => self.attachment is Some,
            _ => true,
        }
    }

    /// The storage path each class derives.
    pub open spec fn path_spec(self) -> Seq<char> {
        match self.class {
            Class::Image => self.path_with_ext_spec(self.image_ext_spec()),
            Class::Attachment => self.path_with_ext_spec(self.attachment->Some_0.extension@),
            Class::Text => self.path_with_ext_spec("md"@),
            Class::Link => self.path_with_ext_spec("url"@),
            Class::Media => self.path_with_ext_spec("url"@),
            Class::Channel => self.path->Some_0@,
        }
    }

    /// Record the path where the item will be stored locally; every other
    /// field keeps its value.
    pub fn add_path(&mut self, path: String)
        ensures
            (*final(self) == Content { path: Some(path), ..*old(self) }),
    {
        self.path = Some(path);
    }

    /// The storage path of the item, dispatched on its class.
    pub fn get_path(&self) -> (r: String)
        requires
            self.path is Some,
            self.path_fields_present(),
        ensures
            r@ == self.path_spec(),
    {
        match self.class {
            Class::Image => self.get_image_path(),
            Class::Attachment => self.get_attachment_path(),
            Class::Text => self.get_text_path(),
            Class::Link => self.get_link_path(),
            Class::Media => self.get_link_path(),
            Class::Channel => self.get_channel_path(),
        }
    }

    /// The path of an attachment: `{path}/{id}.{attachment.extension}`.
    pub fn get_attachment_path(&self) -> (r: String)
        requires
            self.path is Some,
            self.attachment is Some,
        ensures
            r@ == self.path_with_ext_spec(self.attachment->Some_0.extension@),
    {
        let ext = match &self.attachment {
            Some(a) => a.extension.as_str(),
            None => unreached(),
        };
        self.build_path_with_ext(ext)
    }

    /// The path of a nested channel: the assigned base path itself, since a
    /// channel is stored as a directory.
    pub fn get_channel_path(&self) -> (r: String)
        requires
            self.path is Some,
        ensures
            r@ == self.path->Some_0@,
    {
        match &self.path {
            Some(p) => p.clone(),
            None => unreached(),
        }
    }

    /// The path of a text item: `{path}/{id}.md`.
    pub fn get_text_path(&self) -> (r: String)
        requires
            self.path is Some,
        ensures
            r@ == self.path_with_ext_spec("md"@),
    {
        self.build_path_with_ext("md")
    }

    /// The path of a link or media item: `{path}/{id}.url`.
    pub fn get_link_path(&self) -> (r: String)
        requires
            self.path is Some,
        ensures
            r@ == self.path_with_ext_spec("url"@),
    {
        self.build_path_with_ext("url")
    }

    /// The path of an image: `{path}/{id}.{ext}`, the extension resolved
    /// from the image payload's file name, or from the source URL when the
    /// item carries no image payload.
    pub fn get_image_path(&self) -> (r: String)
        requires
            self.path is Some,
            self.image is Some ==> self.image->Some_0.filename is Some,
            self.image is None ==> self.source is Some && self.source->Some_0.url is Some,
        ensures
            r@ == self.path_with_ext_spec(self.image_ext_spec()),
    {
        let ext = match &self.image {
            Some(img) => match &img.filename {
                Some(f) => extension_of(f.as_str()),
                None => unreached(),
            },
            None => match &self.source {
                Some(src) => match &src.url {
                    Some(u) => extension_of(u.as_str()),
                    None => unreached(),
                },
                None => unreached(),
            },
        };
        self.build_path_with_ext(ext.as_str())
    }

    /// Builds `{path}/{id}.{ext}`.
    fn build_path_with_ext(&self, ext: &str) -> (r: String)
        requires
            self.path is Some,
        ensures
            r@ == self.path_with_ext_spec(ext@),
    {
        let base = match &self.path {
            Some(p) => p.clone(),
            None => unreached(),
        };
        let id_s = u32_to_string(self.id);
        base.concat("/").concat(id_s.as_str()).concat(".").concat(ext)
    }

    /// Which fields the URL derivation for `self.class` reads.
    pub open spec fn url_fields_present(self) -> bool {
        match self.class {
            Class::Image => self.image is None ==> self.source is Some
                && self.source->Some_0.url is Some,
            Class::Attachment => self.attachment is Some,
            _ => true,
        }
    }

    /// The URL each class resolves.  A link without an image payload yields
    /// the empty string; an image without one falls back to the source URL.
    pub open spec fn content_url_spec(self) -> Seq<char> {
        match self.class {
            Class::Link => if self.image is Some {
                self.image->Some_0.display.url@
            } else {
                Seq::empty()
            },
            Class::Image => if self.image is Some {
                self.image->Some_0.display.url@
            } else {
                self.source->Some_0.url->Some_0@
            },
            Class::Attachment => self.attachment->Some_0.url@,
            _ => Seq::empty(),
        }
    }

    /// The remote URL of the item's content.  Defined only for `Link`,
    /// `Image` and `Attachment`; any other class is a contract violation.
    pub fn get_content_url(&self) -> (r: String)
        requires
            self.class == Class::Link || self.class == Class::Image || self.class
                == Class::Attachment,
            self.url_fields_present(),
        ensures
            r@ == self.content_url_spec(),
    {
        match self.class {
            Class::Link => match &self.image {
                Some(image) => image.display.url.clone(),
                None => String::new(),
            },
            Class::Image => match &self.image {
                Some(image) => image.display.url.clone(),
                None => match &self.source {
                    Some(src) => match &src.url {
                        Some(u) => u.clone(),
                        None => unreached(),
                    },
                    None => unreached(),
                },
            },
            Class::Attachment => match &self.attachment {
                Some(a) => a.url.clone(),
                None => unreached(),
            },
            _ => unreached(),
        }
    }

    /// The body of a shortcut file pointing at `url`.
    pub open spec fn shortcut_body_spec(url: Seq<char>) -> Seq<char> {
        "[InternetShortcut]\nURL="@ + url
    }

    /// Which fields the body derivation for `self.class` reads.
    pub open spec fn content_fields_present(self) -> bool {
        match self.class {
            Class::Text => self.content_html is Some,
            _ => self.source is Some && self.source->Some_0.url is Some,
        }
    }

    /// The local file body each class derives: text keeps its HTML content
    /// verbatim, a link or media item becomes an internet-shortcut file.
    pub open spec fn content_spec(self) -> Seq<char> {
        match self.class {
            Class::Text => self.content_html->Some_0@,
            _ => Self::shortcut_body_spec(self.source->Some_0.url->Some_0@),
        }
    }

    /// The content to store when no file needs downloading.  Defined only
    /// for `Text`, `Link` and `Media`; any other class is a contract
    /// violation.
    pub fn get_content(&self) -> (r: String)
        requires
            self.class == Class::Text || self.class == Class::Link || self.class == Class::Media,
            self.content_fields_present(),
        ensures
            r@ == self.content_spec(),
    {
        match self.class {
            Class::Text => match &self.content_html {
                Some(c) => c.clone(),
                None => unreached(),
            },
            Class::Link => self.shortcut_body(),
            Class::Media => self.shortcut_body(),
            _ => unreached(),
        }
    }

    /// Builds the shortcut-file body from the source URL.
    fn shortcut_body(&self) -> (r: String)
        requires
            self.source is Some,
            self.source->Some_0.url is Some,
        ensures
            r@ == Self::shortcut_body_spec(self.source->Some_0.url->Some_0@),
    {
        let url = match &self.source {
            Some(src) => match &src.url {
                Some(u) => u.as_str(),
                None => unreached(),
            },
            None => unreached(),
        };
        String::from_str("[InternetShortcut]\nURL=").concat(url)
    }
}

impl ChannelThumb {
    /// The directory a channel is stored under: `channels/{slug}/`.
    pub fn get_path(&self) -> (r: String)
        ensures
            r@ == "channels/"@ + self.slug@ + "/"@,
    {
        String::from_str("channels/").concat(self.slug.as_str()).concat("/")
    }

    /// The summary a nested-channel item stands for.  The item must carry a
    /// title and a slug; the declared length defaults to zero, since a
    /// nested reference carries no count.
    pub fn from_content(c: &Content) -> (r: ChannelThumb)
        requires
            c.title is Some,
            c.slug is Some,
        ensures
            r.title == c.title->Some_0,
            r.id == c.id,
            r.slug == c.slug->Some_0,
            r.created_at == c.created_at,
            r.updated_at == c.updated_at,
            r.length == 0,
            r.status is None,
            r.owner_id is None,
    {
        let title = match &c.title {
            Some(t) => t.clone(),
            None => unreached(),
        };
        let slug = match &c.slug {
            Some(s) => s.clone(),
            None => unreached(),
        };
        ChannelThumb {
            title,
            id: c.id,
            slug,
            created_at: c.created_at.clone(),
            updated_at: c.updated_at.clone(),
            length: 0,
            status: None,
            owner_id: None,
        }
    }
}

} // verus!
