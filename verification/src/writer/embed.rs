//! Image resolution for the editor's writer.
//!
//! Images in markdown are written as `/image/{name}`. The resolver maps each
//! name to where the image is found in one of three states:
//! - Pending: a data URL for immediate preview while the upload runs
//! - Draft: `/image/{ident}/draft/{blob_rkey}/{name}`
//! - Published: `/image/{ident}/{entry_rkey}/{name}`
use crate::keyed::{assoc_insert, assoc_map, assoc_position, keys_distinct, lemma_assoc_dom, lemma_assoc_value};
use crate::render::ImageResolver;
use crate::strings::{str_strip_prefix, string_push_str};
use crate::types::EditorImage;
use vstd::prelude::*;

verus! {

/// Where an image of the document is found, its strings taken by their text.
pub enum ImageSource {
    /// Data URL for immediate preview (still uploading).
    Pending(Seq<char>),
    /// Uploaded as a draft blob.
    Draft { blob_rkey: Seq<char>, ident: Seq<char> },
    /// Part of a published entry.
    Published { entry_rkey: Seq<char>, ident: Seq<char> },
}

/// The text `/image/`.
pub open spec fn image_prefix() -> Seq<char> {
    seq!['/', 'i', 'm', 'a', 'g', 'e', '/']
}

/// The text `/draft/`.
pub open spec fn draft_segment() -> Seq<char> {
    seq!['/', 'd', 'r', 'a', 'f', 't', '/']
}

/// The image name a markdown image URL refers to: what follows `/image/`,
/// or the whole URL where it does not begin so.
pub open spec fn image_name_in(url: Seq<char>) -> Seq<char> {
    if image_prefix().is_prefix_of(url) {
        url.skip(image_prefix().len() as int)
    } else {
        url
    }
}

/// The URL at which the image `name` is served.
pub open spec fn served_url(src: ImageSource, name: Seq<char>) -> Seq<char> {
    match src {
        ImageSource::Pending(data_url) => data_url,
        ImageSource::Draft { blob_rkey, ident } => image_prefix() + ident + draft_segment()
            + blob_rkey + seq!['/'] + name,
        ImageSource::Published { entry_rkey, ident } => image_prefix() + ident + seq!['/']
            + entry_rkey + seq!['/'] + name,
    }
}

/// What a resolver holding `images` answers for the markdown URL `url`.
pub open spec fn resolution(images: Map<Seq<char>, ImageSource>, url: Seq<char>) -> Option<
    Seq<char>,
> {
    let name = image_name_in(url);
    if images.dom().contains(name) {
        Some(served_url(images[name], name))
    } else {
        None
    }
}

/// The name an image is known by: its name, else its alt text.
pub open spec fn editor_image_name(img: EditorImage) -> Seq<char> {
    match img.name {
        Some(n) => n@,
        None => img.alt@,
    }
}

/// The images a resolver built from `imgs` holds: published mode
/// (`entry_rkey` given) takes every named image, draft mode only those with a
/// published blob.
pub open spec fn images_from(
    imgs: Seq<EditorImage>,
    ident: Seq<char>,
    entry_rkey: Option<Seq<char>>,
) -> Map<Seq<char>, ImageSource>
    decreases imgs.len(),
{
    if imgs.len() == 0 {
        Map::empty()
    } else {
        let before = images_from(imgs.drop_last(), ident, entry_rkey);
        let img = imgs.last();
        let name = editor_image_name(img);
        if name.len() == 0 {
            before
        } else {
            match entry_rkey {
                Some(rkey) => before.insert(name, ImageSource::Published { entry_rkey: rkey, ident }),
                None => match img.published_blob_rkey {
                    Some(b) => before.insert(name, ImageSource::Draft { blob_rkey: b@, ident }),
                    None => before,
                },
            }
        }
    }
}

/// An optional string slice taken by its text.
pub open spec fn opt_str_view(o: Option<&str>) -> Option<Seq<char>> {
    match o {
        Some(s) => Some(s@),
        None => None,
    }
}

/// Resolved image path.
enum ResolvedImage {
    Pending(String),
    Draft { blob_rkey: String, ident: String },
    Published { entry_rkey: String, ident: String },
}

impl View for ResolvedImage {
    type V = ImageSource;

    closed spec fn view(&self) -> ImageSource {
        match self {
            ResolvedImage::Pending(d) => ImageSource::Pending(d@),
            ResolvedImage::Draft { blob_rkey, ident } => ImageSource::Draft {
                blob_rkey: blob_rkey@,
                ident: ident@,
            },
            ResolvedImage::Published { entry_rkey, ident } => ImageSource::Published {
                entry_rkey: entry_rkey@,
                ident: ident@,
            },
        }
    }
}

impl Clone for ResolvedImage {
    fn clone(&self) -> (r: Self)
        ensures
            r == *self,
    {
        match self {
            ResolvedImage::Pending(d) => ResolvedImage::Pending(d.clone()),
            ResolvedImage::Draft { blob_rkey, ident } => ResolvedImage::Draft {
                blob_rkey: blob_rkey.clone(),
                ident: ident.clone(),
            },
            ResolvedImage::Published { entry_rkey, ident } => ResolvedImage::Published {
                entry_rkey: entry_rkey.clone(),
                ident: ident.clone(),
            },
        }
    }
}

/// The part of a markdown image URL that names the image.
fn image_name_of(url: &str) -> (r: &str)
    ensures
        r@ == image_name_in(url@),
{
    let prefix = "/image/";
    proof {
        reveal_strlit("/image/");
        assert(prefix@ =~= image_prefix());
    }
    match str_strip_prefix(url, prefix) {
        Some(rest) => rest,
        None => url,
    }
}

/// The URL at which the image `name` is served.
fn served(img: &ResolvedImage, name: &str) -> (r: String)
    ensures
        r@ == served_url(img@, name@),
{
    proof {
        reveal_strlit("/image/");
        reveal_strlit("/draft/");
        reveal_strlit("/");
    }
    match img {
        ResolvedImage::Pending(data_url) => data_url.clone(),
        ResolvedImage::Draft { blob_rkey, ident } => {
            let mut s = String::new();
            string_push_str(&mut s, "/image/");
            string_push_str(&mut s, ident.as_str());
            string_push_str(&mut s, "/draft/");
            string_push_str(&mut s, blob_rkey.as_str());
            string_push_str(&mut s, "/");
            string_push_str(&mut s, name);
            proof {
                assert(s@ =~= served_url(img@, name@));
            }
            s
        },
        ResolvedImage::Published { entry_rkey, ident } => {
            let mut s = String::new();
            string_push_str(&mut s, "/image/");
            string_push_str(&mut s, ident.as_str());
            string_push_str(&mut s, "/");
            string_push_str(&mut s, entry_rkey.as_str());
            string_push_str(&mut s, "/");
            string_push_str(&mut s, name);
            proof {
                assert(s@ =~= served_url(img@, name@));
            }
            s
        },
    }
}

/// Resolves image paths in the editor.
///
/// Supports three states for images:
/// - Pending: uses data URL for immediate preview while upload is in progress
/// - Draft: uses path format `/image/{did}/draft/{blob_rkey}/{name}`
/// - Published: uses path format `/image/{did}/{entry_rkey}/{name}`
///
/// Image URLs in markdown use the format `/image/{name}`.
pub struct EditorImageResolver {
    /// All resolved images: name -> resolved path info
    images: Vec<(String, ResolvedImage)>,
}

impl EditorImageResolver {
    #[verifier::type_invariant]
    closed spec fn names_once(&self) -> bool {
        keys_distinct(self.images@)
    }

    /// Image name → where the image is found.
    pub closed spec fn images(&self) -> Map<Seq<char>, ImageSource> {
        assoc_map(self.images@)
    }

    pub fn new() -> (r: Self)
        ensures
            r.images() == Map::<Seq<char>, ImageSource>::empty(),
    {
        EditorImageResolver { images: Vec::new() }
    }

    fn insert_image(&mut self, name: String, img: ResolvedImage)
        ensures
            final(self).images() == old(self).images().insert(name@, img@),
    {
        proof {
            use_type_invariant(&*self);
        }
        let mut images = Vec::new();
        std::mem::swap(&mut images, &mut self.images);
        assoc_insert(&mut images, name, img);
        self.images = images;
    }

    fn find(&self, name: &str) -> (r: Option<&ResolvedImage>)
        ensures
            if self.images().dom().contains(name@) {
                r matches Some(img) && img@ == self.images()[name@]
            } else {
                r is None
            },
    {
        proof {
            use_type_invariant(self);
        }
        let key = name.to_owned();
        proof {
            lemma_assoc_dom(self.images@, key@);
        }
        match assoc_position(&self.images, &key) {
            Some(i) => {
                proof {
                    lemma_assoc_value(self.images@, i as int);
                }
                Some(&self.images[i].1)
            },
            None => None,
        }
    }

    /// Add a pending image with a data URL for immediate preview.
    pub fn add_pending(&mut self, name: &str, data_url: String)
        ensures
            final(self).images() == old(self).images().insert(
                name@,
                ImageSource::Pending(data_url@),
            ),
    {
        self.insert_image(name.to_owned(), ResolvedImage::Pending(data_url));
    }

    /// Promote a pending image to uploaded (draft) status.
    pub fn promote_to_uploaded(&mut self, name: &str, blob_rkey: &str, ident: &str)
        ensures
            final(self).images() == old(self).images().insert(
                name@,
                ImageSource::Draft { blob_rkey: blob_rkey@, ident: ident@ },
            ),
    {
        self.insert_image(
            name.to_owned(),
            ResolvedImage::Draft { blob_rkey: blob_rkey.to_owned(), ident: ident.to_owned() },
        );
    }

    /// Add an already-uploaded draft image.
    pub fn add_uploaded(&mut self, name: &str, blob_rkey: &str, ident: &str)
        ensures
            final(self).images() == old(self).images().insert(
                name@,
                ImageSource::Draft { blob_rkey: blob_rkey@, ident: ident@ },
            ),
    {
        self.insert_image(
            name.to_owned(),
            ResolvedImage::Draft { blob_rkey: blob_rkey.to_owned(), ident: ident.to_owned() },
        );
    }

    /// Add a published image.
    pub fn add_published(&mut self, name: &str, entry_rkey: &str, ident: &str)
        ensures
            final(self).images() == old(self).images().insert(
                name@,
                ImageSource::Published { entry_rkey: entry_rkey@, ident: ident@ },
            ),
    {
        self.insert_image(
            name.to_owned(),
            ResolvedImage::Published { entry_rkey: entry_rkey.to_owned(), ident: ident.to_owned() },
        );
    }

    /// Check if an image is pending upload.
    pub fn is_pending(&self, name: &str) -> (r: bool)
        ensures
            r == (self.images().dom().contains(name@) && self.images()[name@] is Pending),
    {
        match self.find(name) {
            Some(ResolvedImage::Pending(_)) => true,
            _ => false,
        }
    }

    /// Build a resolver from editor images and user identifier.
    ///
    /// For draft mode (entry_rkey=None), only images with a published blob are included.
    /// For published mode (entry_rkey=Some), all images are included.
    pub fn from_images(images: &[EditorImage], ident: &str, entry_rkey: Option<&str>) -> (r: Self)
        ensures
            r.images() == images_from(images@, ident@, opt_str_view(entry_rkey)),
    {
        let mut resolver = Self::new();
        let mut i: usize = 0;
        while i < images.len()
            invariant
                i <= images@.len(),
                resolver.images() == images_from(
                    images@.take(i as int),
                    ident@,
                    opt_str_view(entry_rkey),
                ),
            decreases images@.len() - i,
        {
            let editor_image = &images[i];
            proof {
                assert(images@.take(i + 1).drop_last() =~= images@.take(i as int));
                assert(images@.take(i + 1).last() == images@[i as int]);
            }
            // Get the name from the image (alt text as fallback)
            let name: &str = match &editor_image.name {
                Some(n) => n.as_str(),
                None => editor_image.alt.as_str(),
            };
            if name.unicode_len() > 0 {
                match entry_rkey {
                    // Published mode: use entry rkey for all images
                    Some(rkey) => {
                        resolver.add_published(name, rkey, ident);
                    },
                    // Draft mode: use the published blob's rkey
                    None => {
                        if let Some(blob_rkey) = &editor_image.published_blob_rkey {
                            resolver.add_uploaded(name, blob_rkey.as_str(), ident);
                        }
                    },
                }
            }
            i = i + 1;
        }
        proof {
            assert(images@.take(i as int) =~= images@);
        }
        resolver
    }
}

impl ImageResolver for EditorImageResolver {
    fn resolve_image_url(&self, url: &str) -> (r: Option<String>)
        ensures
            match resolution(self.images(), url@) {
                Some(u) => r matches Some(s) && s@ == u,
                None => r is None,
            },
    {
        // Extract image name from /image/{name} format
        let name = image_name_of(url);
        match self.find(name) {
            Some(img) => Some(served(img, name)),
            None => None,
        }
    }
}

impl Clone for EditorImageResolver {
    fn clone(&self) -> (r: Self)
        ensures
            r.images() == self.images(),
    {
        proof {
            use_type_invariant(self);
        }
        let mut images: Vec<(String, ResolvedImage)> = Vec::new();
        let mut i: usize = 0;
        while i < self.images.len()
            invariant
                i <= self.images@.len(),
                images@ == self.images@.take(i as int),
            decreases self.images@.len() - i,
        {
            let entry = (self.images[i].0.clone(), self.images[i].1.clone());
            images.push(entry);
            proof {
                assert(images@ =~= self.images@.take(i + 1));
            }
            i = i + 1;
        }
        proof {
            assert(self.images@.take(i as int) =~= self.images@);
        }
        EditorImageResolver { images }
    }
}

impl Default for EditorImageResolver {
    fn default() -> (r: Self)
        ensures
            r.images() == Map::<Seq<char>, ImageSource>::empty(),
    {
        EditorImageResolver { images: Vec::new() }
    }
}

/// An image added under `name`, in whatever state, is what the markdown URL
/// `/image/{name}` resolves to.
pub proof fn law_added_image_resolves(
    images: Map<Seq<char>, ImageSource>,
    name: Seq<char>,
    src: ImageSource,
)
    ensures
        resolution(images.insert(name, src), image_prefix() + name) == Some(served_url(src, name)),
{
    let url = image_prefix() + name;
    assert(url.subrange(0, 7) =~= image_prefix());
    assert(url.skip(7) =~= name);
}

/// Promoting an image ends its pending state, and every other image keeps
/// its own.
pub proof fn law_promotion_ends_pending(
    images: Map<Seq<char>, ImageSource>,
    name: Seq<char>,
    blob_rkey: Seq<char>,
    ident: Seq<char>,
    other: Seq<char>,
)
    requires
        other != name,
    ensures
        !(images.insert(name, ImageSource::Draft { blob_rkey, ident })[name] is Pending),
        images.insert(name, ImageSource::Draft { blob_rkey, ident }).dom().contains(other)
            == images.dom().contains(other),
        images.insert(name, ImageSource::Draft { blob_rkey, ident })[other] == images[other],
{
}

} // verus!
