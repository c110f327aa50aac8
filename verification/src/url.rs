//! Recognizing URLs.

use crate::text::chars_of;
use vstd::prelude::*;

verus! {

/// Whether `text` starts with `prefix`.
pub open spec fn has_prefix(text: Seq<char>, prefix: Seq<char>) -> bool {
    prefix.len() <= text.len() && text.subrange(0, prefix.len() as int) == prefix
}

/// The schemes that a URL can start with.
pub open spec fn url_schemes() -> Seq<Seq<char>> {
    seq![
        "blob:"@,
        "data:"@,
        "feed:"@,
        "file://"@,
        "ftp://"@,
        "git://"@,
        "gopher://"@,
        "http://"@,
        "https://"@,
        "irc://"@,
        "ircs://"@,
        "mailto:"@,
        "sftp://"@,
        "ssh://"@,
        "tel:"@,
    ]
}

/// Whether `url` starts with one of the known schemes.
pub open spec fn spec_is_url(url: Seq<char>) -> bool {
    exists|i: int| 0 <= i < url_schemes().len() && has_prefix(url, #[trigger] url_schemes()[i])
}

/// Whether a link may point to `url`: it is not empty, and is a path from
/// the root of the site or starts with a known scheme.
pub open spec fn spec_url_valid(url: Seq<char>) -> bool {
    url.len() > 0 && (url[0] == '/' || spec_is_url(url))
}

/// Whether `chars` starts with the characters of `prefix`.
pub fn starts_with(chars: &Vec<char>, prefix: &str) -> (r: bool)
    ensures
        r == has_prefix(chars@, prefix@),
{
    let wanted = chars_of(prefix);
    if wanted.len() > chars.len() {
        return false;
    }
    let mut i: usize = 0;
    while i < wanted.len()
        invariant
            i <= wanted.len() <= chars.len(),
            wanted@ == prefix@,
            forall|j: int| 0 <= j < i ==> chars@[j] == wanted@[j],
        decreases wanted.len() - i,
    {
        if chars[i] != wanted[i] {
            assert(chars@.subrange(0, wanted@.len() as int)[i as int] != wanted@[i as int]);
            return false;
        }
        i += 1;
    }
    assert(chars@.subrange(0, wanted@.len() as int) =~= wanted@);
    true
}

/// Whether `url` starts with one of the known schemes.
pub fn is_url(url: &str) -> (r: bool)
    ensures
        r == spec_is_url(url@),
{
    let chars = chars_of(url);
    let schemes = [
        "blob:",
        "data:",
        "feed:",
        "file://",
        "ftp://",
        "git://",
        "gopher://",
        "http://",
        "https://",
        "irc://",
        "ircs://",
        "mailto:",
        "sftp://",
        "ssh://",
        "tel:",
    ];
    assert(Seq::new(schemes@.len(), |i: int| schemes@[i]@) =~= url_schemes());
    let mut i: usize = 0;
    while i < schemes.len()
        invariant
            i <= schemes.len(),
            chars@ == url@,
            schemes@.len() == url_schemes().len(),
            forall|j: int| 0 <= j < schemes@.len() ==> (#[trigger] schemes@[j])@ == url_schemes()[j],
            forall|j: int| 0 <= j < i ==> !has_prefix(url@, #[trigger] url_schemes()[j]),
        decreases schemes.len() - i,
    {
        if starts_with(&chars, schemes[i]) {
            return true;
        }
        i += 1;
    }
    false
}

/// Whether a link may point to `url`.
pub fn url_valid(url: &str) -> (r: bool)
    ensures
        r == spec_url_valid(url@),
{
    if url.is_empty() {
        return false;
    }
    if url.get_char(0) == '/' {
        return true;
    }
    if is_url(url) {
        return true;
    }
    false
}

} // verus!
