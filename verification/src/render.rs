//! Rendering traits for the editor.
//!
//! These traits abstract over external concerns during rendering:
//! - Providing the content of embeds
//! - Resolving image URLs to CDN paths
//! - Validating wikilinks
//!
//! Implementations are provided by the consuming application (e.g., weaver-app).
use vstd::prelude::*;

verus! {

/// An embed as the markdown gives it: the URL it points at, its title and its
/// ID.
#[derive(Debug)]
pub struct EmbedTag {
    pub dest_url: String,
    pub title: String,
    pub id: String,
}

/// Provides HTML content for embedded resources.
///
/// When rendering embeds, the writer calls this to get the HTML content.
pub trait EmbedContentProvider {
    /// Get HTML content for an embed tag.
    ///
    /// Returns `Some(html)` if the embed content is available,
    /// `None` to render a placeholder.
    fn get_embed_content(&self, tag: &EmbedTag) -> Option<String>;
}

/// Unit type implementation - no embeds available.
impl EmbedContentProvider for () {
    fn get_embed_content(&self, tag: &EmbedTag) -> (r: Option<String>)
        ensures
            r is None,
    {
        None
    }
}

/// A reference provides what it refers to.
impl<T: EmbedContentProvider> EmbedContentProvider for &T {
    fn get_embed_content(&self, tag: &EmbedTag) -> (r: Option<String>)
        ensures
            call_ensures(T::get_embed_content, (&**self, tag), r),
    {
        (**self).get_embed_content(tag)
    }
}

/// No provider provides nothing; a provider answers for itself.
impl<T: EmbedContentProvider> EmbedContentProvider for Option<T> {
    fn get_embed_content(&self, tag: &EmbedTag) -> (r: Option<String>)
        ensures
            match *self {
                Some(inner) => call_ensures(T::get_embed_content, (&inner, tag), r),
                None => r is None,
            },
    {
        match self {
            Some(inner) => inner.get_embed_content(tag),
            None => None,
        }
    }
}

/// Resolves image URLs from markdown to actual paths.
///
/// Markdown may reference images by name (e.g., `/image/photo.jpg`).
/// This trait maps those to actual CDN URLs or data URLs.
pub trait ImageResolver {
    /// Resolve an image URL from markdown to an actual URL.
    ///
    /// Returns `Some(resolved_url)` if the image is found,
    /// `None` to use the original URL unchanged.
    fn resolve_image_url(&self, url: &str) -> Option<String>;
}

/// Unit type implementation - no image resolution.
impl ImageResolver for () {
    fn resolve_image_url(&self, url: &str) -> (r: Option<String>)
        ensures
            r is None,
    {
        None
    }
}

/// Validates wikilinks during rendering.
///
/// Used to add CSS classes indicating whether a wikilink target exists.
pub trait WikilinkValidator {
    /// Check if a wikilink target is valid (exists).
    fn is_valid_link(&self, target: &str) -> bool;
}

/// Unit type implementation - all links are valid.
impl WikilinkValidator for () {
    fn is_valid_link(&self, target: &str) -> (r: bool)
        ensures
            r,
    {
        true
    }
}

/// A reference resolves as what it refers to: its answer is one the
/// referred-to resolver gives for the same URL.
impl<T: ImageResolver> ImageResolver for &T {
    fn resolve_image_url(&self, url: &str) -> (r: Option<String>)
        ensures
            call_ensures(T::resolve_image_url, (&**self, url), r),
    {
        (**self).resolve_image_url(url)
    }
}

/// A reference validates as what it refers to.
impl<T: WikilinkValidator> WikilinkValidator for &T {
    fn is_valid_link(&self, target: &str) -> (r: bool)
        ensures
            call_ensures(T::is_valid_link, (&**self, target), r),
    {
        (**self).is_valid_link(target)
    }
}

/// No resolver resolves nothing; a resolver answers for itself.
impl<T: ImageResolver> ImageResolver for Option<T> {
    fn resolve_image_url(&self, url: &str) -> (r: Option<String>)
        ensures
            match *self {
                Some(inner) => call_ensures(T::resolve_image_url, (&inner, url), r),
                None => r is None,
            },
    {
        match self {
            Some(inner) => inner.resolve_image_url(url),
            None => None,
        }
    }
}

/// No validator accepts every link; a validator answers for itself.
impl<T: WikilinkValidator> WikilinkValidator for Option<T> {
    fn is_valid_link(&self, target: &str) -> (r: bool)
        ensures
            match *self {
                Some(inner) => call_ensures(T::is_valid_link, (&inner, target), r),
                None => r,
            },
    {
        match self {
            Some(inner) => inner.is_valid_link(target),
            None => true,
        }
    }
}

} // verus!
