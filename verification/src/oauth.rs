//! OAuth client settings.
use crate::strings::string_push_str;
use vstd::prelude::*;

verus! {

/// The redirect URIs of a client served at `url`: its `/oauth/callback` path.
pub fn make_redirect_uris(url: &str) -> (r: Option<Vec<String>>)
    ensures
        r matches Some(v) && v@.len() == 1 && v@[0]@ == url@ + "/oauth/callback"@,
{
    let mut uri = url.to_owned();
    string_push_str(&mut uri, "/oauth/callback");
    let mut v = Vec::new();
    v.push(uri);
    Some(v)
}

} // verus!
