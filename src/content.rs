//! Message content: a plain text, or a sequence of text and image parts.
use base64::Engine;
use vstd::prelude::*;

verus! {

/// The value of an optional text.
pub open spec fn opt_text(o: Option<String>) -> Option<Seq<char>> {
    match o {
        Some(s) => Some(s@),
        None => None,
    }
}

/// A reference to an image: a URL, or a `data:` URL holding the image.
#[derive(Debug, Clone)]
pub struct ImageUrl {
    pub url: String,
}

/// One part of a multi-part content.
#[derive(Debug, Clone)]
pub enum ContentContainer {
    Text { typ: String, text: String },
    Image { typ: String, image_url: ImageUrl },
}

/// A content part as a value.
pub enum PartView {
    Text { typ: Seq<char>, text: Seq<char> },
    Image { typ: Seq<char>, url: Seq<char> },
}

/// Content: a single text, or an ordered sequence of parts.
#[derive(Debug, Clone)]
pub enum Content {
    Text(String),
    Containers(Vec<ContentContainer>),
}

/// Content as a value.
pub enum ContentView {
    Text(Seq<char>),
    Parts(Seq<PartView>),
}

impl View for ContentContainer {
    type V = PartView;

    open spec fn view(&self) -> PartView {
        match self {
            ContentContainer::Text { typ, text } => PartView::Text { typ: typ@, text: text@ },
            ContentContainer::Image { typ, image_url } => PartView::Image {
                typ: typ@,
                url: image_url.url@,
            },
        }
    }
}

/// The values of a sequence of parts.
pub open spec fn parts_view(cs: Seq<ContentContainer>) -> Seq<PartView> {
    cs.map_values(|c: ContentContainer| c@)
}

impl View for Content {
    type V = ContentView;

    open spec fn view(&self) -> ContentView {
        match self {
            Content::Text(s) => ContentView::Text(s@),
            Content::Containers(cs) => ContentView::Parts(parts_view(cs@)),
        }
    }
}

/// The text part that a plain text becomes inside a multi-part content.
pub open spec fn text_part(text: Seq<char>) -> PartView {
    PartView::Text { typ: "text"@, text }
}

/// The single-part content that an image URL becomes.
pub open spec fn image_part(typ: Seq<char>, url: Seq<char>) -> PartView {
    PartView::Image { typ, url }
}

/// Merging content that arrives later (`rhs`) into content already held
/// (`lhs`): texts concatenate, a text joins a part sequence as a text part on
/// its side, part sequences concatenate.
pub open spec fn merge_content(lhs: ContentView, rhs: ContentView) -> ContentView {
    match (lhs, rhs) {
        (ContentView::Text(a), ContentView::Text(b)) => ContentView::Text(a + b),
        (ContentView::Text(a), ContentView::Parts(ps)) => ContentView::Parts(
            seq![text_part(a)] + ps,
        ),
        (ContentView::Parts(ps), ContentView::Text(b)) => ContentView::Parts(
            ps.push(text_part(b)),
        ),
        (ContentView::Parts(ps), ContentView::Parts(qs)) => ContentView::Parts(ps + qs),
    }
}

/// Merging optional content: when one side is absent the other wins.
pub open spec fn merge_opt_content(lhs: Option<ContentView>, rhs: Option<ContentView>) -> Option<
    ContentView,
> {
    match (lhs, rhs) {
        (Some(a), Some(b)) => Some(merge_content(a, b)),
        (None, b) => b,
        (a, None) => a,
    }
}

/// Appending one part to content: a text becomes its first part.
pub open spec fn append_part(c: ContentView, item: PartView) -> ContentView {
    match c {
        ContentView::Text(a) => ContentView::Parts(seq![text_part(a), item]),
        ContentView::Parts(ps) => ContentView::Parts(ps.push(item)),
    }
}

fn text_container(text: String) -> (r: ContentContainer)
    ensures
        r@ == text_part(text@),
{
    ContentContainer::Text { typ: "text".to_owned(), text }
}

impl ContentContainer {
    /// A text part.
    pub fn from_text(text: &str) -> (r: Self)
        ensures
            r@ == text_part(text@),
    {
        text_container(text.to_owned())
    }

    /// An image part, of type `image`.
    pub fn from_image(image_url: ImageUrl) -> (r: Self)
        ensures
            r@ == image_part("image"@, image_url.url@),
    {
        ContentContainer::Image { typ: "image".to_owned(), image_url }
    }
}

/// Standard padded Base64 of `bytes`, as the `base64` crate writes it.
pub uninterp spec fn standard_base64_of(bytes: Seq<u8>) -> Seq<char>;

/// Relies on `base64::prelude::BASE64_STANDARD.encode`: the text depends on
/// the bytes alone. It panics when the encoded length overflows `usize`.
#[verifier::external_body]
fn encode_base64(bytes: &[u8]) -> (r: String)
    requires
        bytes@.len() / 3 * 4 + 4 <= usize::MAX,
    ensures
        r@ == standard_base64_of(bytes@),
{
    base64::prelude::BASE64_STANDARD.encode(bytes)
}

/// The `data:` URL of an image given in Base64.
pub open spec fn data_url(suffix: Seq<char>, encoded: Seq<char>) -> Seq<char> {
    "data:image/"@ + suffix + ";base64,"@ + encoded
}

impl ImageUrl {
    /// The `data:` URL of an image of type `suffix` whose Base64 text is
    /// `encoded`.
    pub fn from_encoded_image(encoded: &str, suffix: &str) -> (r: Self)
        ensures
            r.url@ == data_url(suffix@, encoded@),
    {
        let mut url = "data:image/".to_owned();
        url.append(suffix);
        url.append(";base64,");
        url.append(encoded);
        ImageUrl { url }
    }

    /// The `data:` URL of an image of type `suffix` (such as `png`) held in
    /// `image`.
    pub fn from_image_binary(image: &[u8], suffix: &str) -> (r: Self)
        requires
            image@.len() / 3 * 4 + 4 <= usize::MAX,
        ensures
            r.url@ == data_url(suffix@, standard_base64_of(image@)),
    {
        let encoded = encode_base64(image);
        ImageUrl::from_encoded_image(encoded.as_str(), suffix)
    }

    /// An image reference by URL.
    pub fn from_url(url: &str) -> (r: Self)
        ensures
            r.url@ == url@,
    {
        ImageUrl { url: url.to_owned() }
    }
}

impl Content {
    /// A content made of one image part of type `image_url`.
    pub fn from_image_url(url: &str) -> (r: Self)
        ensures
            r@ == ContentView::Parts(seq![image_part("image_url"@, url@)]),
    {
        let part = ContentContainer::Image {
            typ: "image_url".to_owned(),
            image_url: ImageUrl::from_url(url),
        };
        let mut cs: Vec<ContentContainer> = Vec::new();
        cs.push(part);
        assert(parts_view(cs@) =~= seq![image_part("image_url"@, url@)]);
        Content::Containers(cs)
    }

    /// A content made of one image part of type `image_url`.
    pub fn from_image(image_url: ImageUrl) -> (r: Self)
        ensures
            r@ == ContentView::Parts(seq![image_part("image_url"@, image_url.url@)]),
    {
        let ghost u = image_url.url@;
        let part = ContentContainer::Image { typ: "image_url".to_owned(), image_url };
        let mut cs: Vec<ContentContainer> = Vec::new();
        cs.push(part);
        assert(parts_view(cs@) =~= seq![image_part("image_url"@, u)]);
        Content::Containers(cs)
    }

    /// A plain text content.
    pub fn from_text(text: &str) -> (r: Self)
        ensures
            r@ == ContentView::Text(text@),
    {
        Content::Text(text.to_owned())
    }

    /// Merges content that arrived later into this one.
    pub fn merge(&mut self, rhs: Self)
        ensures
            final(self)@ == merge_content(old(self)@, rhs@),
    {
        match rhs {
            Content::Text(s1) => match self {
                Content::Text(s0) => {
                    s0.append(s1.as_str());
                },
                Content::Containers(cs) => {
                    let ghost before = cs@;
                    cs.push(text_container(s1));
                    assert(parts_view(cs@) =~= parts_view(before).push(text_part(s1@)));
                },
            },
            Content::Containers(mut cs1) => match self {
                Content::Text(s0) => {
                    let ghost rest = cs1@;
                    let mut cs: Vec<ContentContainer> = Vec::new();
                    cs.push(text_container(s0.clone()));
                    cs.append(&mut cs1);
                    assert(parts_view(cs@) =~= seq![text_part(s0@)] + parts_view(rest));
                    *self = Content::Containers(cs);
                },
                Content::Containers(cs) => {
                    let ghost before = cs@;
                    let ghost rest = cs1@;
                    cs.append(&mut cs1);
                    assert(parts_view(cs@) =~= parts_view(before) + parts_view(rest));
                },
            },
        }
    }

    /// Appends one part; a plain text becomes the first part.
    pub fn append(&mut self, item: ContentContainer)
        ensures
            final(self)@ == append_part(old(self)@, item@),
    {
        match self {
            Content::Text(s) => {
                let first = text_container(s.clone());
                let mut cs: Vec<ContentContainer> = Vec::new();
                cs.push(first);
                cs.push(item);
                assert(parts_view(cs@) =~= seq![text_part(s@), item@]);
                *self = Content::Containers(cs);
            },
            Content::Containers(cs) => {
                let ghost before = cs@;
                cs.push(item);
                assert(parts_view(cs@) =~= parts_view(before).push(item@));
            },
        }
    }
}

} // verus!
