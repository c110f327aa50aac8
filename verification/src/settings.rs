//! Settings that select which wikitext features a parse or render may use.

use crate::std_specs::push_char;
use crate::text::{chars_of, str_eq, string_of};
use vstd::prelude::*;

verus! {

/// The kind of document a piece of wikitext belongs to.
#[derive(Clone, Copy, Debug, PartialEq, Eq, Structural)]
pub enum WikitextMode {
    /// A full page.
    Page,
    /// A page draft that has not been published.
    Draft,
    /// A forum post.
    ForumPost,
    /// A private message between users.
    DirectMessage,
    /// A list-pages item template.
    List,
}

impl WikitextMode {
    /// The name of this mode in serialized settings.
    pub open spec fn spec_name(self) -> Seq<char> {
        match self {
            WikitextMode::Page => "page"@,
            WikitextMode::Draft => "draft"@,
            WikitextMode::ForumPost => "forum-post"@,
            WikitextMode::DirectMessage => "direct-message"@,
            WikitextMode::List => "list"@,
        }
    }

    /// The name of this mode in serialized settings.
    pub fn name(self) -> (r: &'static str)
        ensures
            r@ == self.spec_name(),
    {
        match self {
            WikitextMode::Page => "page",
            WikitextMode::Draft => "draft",
            WikitextMode::ForumPost => "forum-post",
            WikitextMode::DirectMessage => "direct-message",
            WikitextMode::List => "list",
        }
    }

    /// The mode that `name` names, if any.
    pub open spec fn spec_from_name(name: Seq<char>) -> Option<WikitextMode> {
        if name == "page"@ {
            Some(WikitextMode::Page)
        } else if name == "draft"@ {
            Some(WikitextMode::Draft)
        } else if name == "forum-post"@ {
            Some(WikitextMode::ForumPost)
        } else if name == "direct-message"@ {
            Some(WikitextMode::DirectMessage)
        } else if name == "list"@ {
            Some(WikitextMode::List)
        } else {
            None
        }
    }

    /// The mode that `name` names, if any.
    pub fn from_name(name: &str) -> (r: Option<WikitextMode>)
        ensures
            r == Self::spec_from_name(name@),
    {
        if crate::text::str_eq(name, "page") {
            Some(WikitextMode::Page)
        } else if crate::text::str_eq(name, "draft") {
            Some(WikitextMode::Draft)
        } else if crate::text::str_eq(name, "forum-post") {
            Some(WikitextMode::ForumPost)
        } else if crate::text::str_eq(name, "direct-message") {
            Some(WikitextMode::DirectMessage)
        } else if crate::text::str_eq(name, "list") {
            Some(WikitextMode::List)
        } else {
            None
        }
    }
}

/// An interwiki prefix and the URL it stands for, with `$$` marking where the
/// rest of the link goes.
#[derive(Debug, Clone, PartialEq, Eq)]
pub struct InterwikiEntry {
    pub prefix: String,
    pub url: String,
}

/// The settings of a parse or render.
#[derive(Debug, Clone, PartialEq, Eq)]
pub struct WikitextSettings {
    /// The kind of document.
    pub mode: WikitextMode,
    /// Whether syntax that only makes sense on a page is available.
    pub enable_page_syntax: bool,
    /// Whether element identifiers are emitted as written instead of being
    /// replaced by generated ones.
    pub use_true_ids: bool,
    /// Whether links may point to local paths.
    pub allow_local_paths: bool,
    /// The interwiki prefixes that links may use.
    pub interwiki: Vec<InterwikiEntry>,
}

impl WikitextSettings {
    /// The settings that go with `mode`: page syntax, true identifiers and
    /// local paths are all available on a page; drafts and list templates
    /// lack true identifiers; posts and messages lack all three. No
    /// interwiki prefix is defined.
    pub fn from_mode(mode: WikitextMode) -> (r: WikitextSettings)
        ensures
            r.mode == mode,
            r.enable_page_syntax == (mode == WikitextMode::Page || mode == WikitextMode::Draft
                || mode == WikitextMode::List),
            r.use_true_ids == (mode == WikitextMode::Page),
            r.allow_local_paths == r.enable_page_syntax,
            r.interwiki@.len() == 0,
    {
        let interwiki: Vec<InterwikiEntry> = Vec::new();
        match mode {
            WikitextMode::Page => WikitextSettings {
                mode,
                enable_page_syntax: true,
                use_true_ids: true,
                allow_local_paths: true,
                interwiki,
            },
            WikitextMode::Draft | WikitextMode::List => WikitextSettings {
                mode,
                enable_page_syntax: true,
                use_true_ids: false,
                allow_local_paths: true,
                interwiki,
            },
            WikitextMode::ForumPost | WikitextMode::DirectMessage => WikitextSettings {
                mode,
                enable_page_syntax: false,
                use_true_ids: false,
                allow_local_paths: false,
                interwiki,
            },
        }
    }
}

/// Whether `i` is the first position of `text` that holds `c`.
pub open spec fn is_first_index(text: Seq<char>, c: char, i: int) -> bool {
    &&& 0 <= i < text.len()
    &&& text[i] == c
    &&& forall|j: int| 0 <= j < i ==> text[j] != c
}

/// The URL that `template` stands for: every `$$` replaced by `rest`.
pub open spec fn expand_template(template: Seq<char>, rest: Seq<char>) -> Seq<char>
    decreases template.len(),
{
    if template.len() == 0 {
        Seq::empty()
    } else if template.len() >= 2 && template[0] == '$' && template[1] == '$' {
        rest + expand_template(template.skip(2), rest)
    } else {
        seq![template[0]] + expand_template(template.skip(1), rest)
    }
}

/// Whether entry `i` is the first entry for `prefix`.
pub open spec fn is_first_entry(entries: Seq<InterwikiEntry>, prefix: Seq<char>, i: int) -> bool {
    &&& 0 <= i < entries.len()
    &&& entries[i].prefix@ == prefix
    &&& forall|j: int| 0 <= j < i ==> (#[trigger] entries[j]).prefix@ != prefix
}

/// The URL that the interwiki link `link` stands for: the link is split at
/// its first colon into a prefix and a rest, neither empty, and the rest is
/// put into the URL of the first entry for the prefix.
pub open spec fn spec_interwiki_build(entries: Seq<InterwikiEntry>, link: Seq<char>) -> Option<
    Seq<char>,
> {
    if exists|i: int| is_first_index(link, ':', i) {
        let colon = choose|i: int| is_first_index(link, ':', i);
        let prefix = link.subrange(0, colon);
        let rest = link.subrange(colon + 1, link.len() as int);
        if prefix.len() == 0 || rest.len() == 0 {
            None
        } else if exists|i: int| is_first_entry(entries, prefix, i) {
            let entry = choose|i: int| is_first_entry(entries, prefix, i);
            Some(expand_template(entries[entry].url@, rest))
        } else {
            None
        }
    } else {
        None
    }
}

/// The URL that `template` stands for: every `$$` replaced by `rest`.
pub fn expand(template: &str, rest: &str) -> (r: String)
    ensures
        r@ == expand_template(template@, rest@),
{
    let chars = chars_of(template);
    let mut out = String::new();
    let mut i: usize = 0;
    assert(chars@.skip(0) =~= chars@);
    while i < chars.len()
        invariant
            i <= chars.len(),
            chars@ == template@,
            out@ + expand_template(chars@.skip(i as int), rest@) == expand_template(
                template@,
                rest@,
            ),
        decreases chars.len() - i,
    {
        let ghost tail = chars@.skip(i as int);
        if chars[i] == '$' && i + 1 < chars.len() && chars[i + 1] == '$' {
            assert(tail.skip(2) =~= chars@.skip(i + 2));
            assert(out@ + (rest@ + expand_template(tail.skip(2), rest@)) =~= (out@ + rest@)
                + expand_template(tail.skip(2), rest@));
            out.append(rest);
            i += 2;
        } else {
            assert(tail.skip(1) =~= chars@.skip(i + 1));
            assert(out@ + (seq![tail[0]] + expand_template(tail.skip(1), rest@)) =~= out@.push(
                tail[0],
            ) + expand_template(tail.skip(1), rest@));
            push_char(&mut out, chars[i]);
            i += 1;
        }
    }
    assert(out@ + Seq::<char>::empty() =~= out@);
    out
}

impl WikitextSettings {
    /// The URL that the interwiki link `link` stands for, if its prefix is
    /// defined.
    #[verifier::loop_isolation(false)]
    pub fn interwiki_build(&self, link: &str) -> (r: Option<String>)
        ensures
            crate::tree::clone::option_string_view(r) == spec_interwiki_build(
                self.interwiki@,
                link@,
            ),
    {
        let chars = chars_of(link);
        let mut colon: usize = 0;
        while colon < chars.len() && chars[colon] != ':'
            invariant
                colon <= chars.len(),
                forall|j: int| 0 <= j < colon ==> chars@[j] != ':',
            decreases chars.len() - colon,
        {
            colon += 1;
        }
        if colon == chars.len() {
            return None;
        }
        proof {
            assert(is_first_index(link@, ':', colon as int));
            assert forall|i: int| is_first_index(link@, ':', i) implies i == colon by {}
        }
        if colon == 0 || colon + 1 == chars.len() {
            return None;
        }
        let prefix = string_of(&chars, 0, colon);
        let rest = string_of(&chars, colon + 1, chars.len());
        let mut i: usize = 0;
        while i < self.interwiki.len()
            invariant
                i <= self.interwiki.len(),
                forall|j: int| 0 <= j < i ==> (#[trigger] self.interwiki@[j]).prefix@ != prefix@,
            decreases self.interwiki.len() - i,
        {
            if str_eq(self.interwiki[i].prefix.as_str(), prefix.as_str()) {
                proof {
                    assert(is_first_entry(self.interwiki@, prefix@, i as int));
                    assert forall|k: int|
                        is_first_entry(self.interwiki@, prefix@, k) implies k == i by {}
                }
                return Some(expand(self.interwiki[i].url.as_str(), rest.as_str()));
            }
            i += 1;
        }
        None
    }
}

} // verus!
