//! The slice of the site configuration this core reads: the base URL that
//! permalinks are built from, and the site title that render contexts carry.

use vstd::prelude::*;
use vstd::string::*;

verus! {

/// Site-wide configuration.
#[derive(Clone, Debug, PartialEq)]
pub struct Config {
    /// The absolute URL of the site root, with or without a trailing slash.
    pub base_url: String,
    /// The site's title, if any.
    pub title: Option<String>,
}

/// The permalink policy: the base URL without its trailing slash, one
/// slash, the logical path, and a trailing slash ending every directory
/// address. The empty path addresses the site root.
pub open spec fn spec_make_permalink(base_url: Seq<char>, path: Seq<char>) -> Seq<char> {
    let b = if base_url.len() > 0 && base_url.last() == '/' {
        base_url.drop_last()
    } else {
        base_url
    };
    if path.len() == 0 {
        b + "/"@
    } else {
        b + "/"@ + path + "/"@
    }
}

impl Config {
    /// The absolute URL for the document at the logical `path`.
    pub fn make_permalink(&self, path: &str) -> (r: String)
        ensures
            r@ == spec_make_permalink(self.base_url@, path@),
    {
        let b = self.base_url.as_str();
        let n = b.unicode_len();
        let mut r: String;
        if n > 0 && b.get_char(n - 1) == '/' {
            let trimmed = b.substring_char(0, n - 1);
            proof {
                assert(self.base_url@.subrange(0, n - 1) =~= self.base_url@.drop_last());
            }
            r = trimmed.to_owned();
        } else {
            r = self.base_url.clone();
        }
        r.append("/");
        if path.unicode_len() > 0 {
            r.append(path);
            r.append("/");
        }
        r
    }
}

} // verus!
