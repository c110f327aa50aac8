//! The state of an HTML rendering.

use crate::error::RenderError;
use crate::std_specs::{push_char, replace_range, share};
use crate::text::{
    count_char, covers, has_char, has_occurrence, lemma_settles_without_first_char,
    replace_all_rescanning, replace_until_none, settles, splice,
};
use std::collections::HashSet;
use std::sync::Arc;
use vstd::prelude::*;

verus! {

/// Information about a user that a host supplies.
#[derive(Debug, Clone, PartialEq, Eq)]
pub struct UserInfo {
    pub user_id: u64,
    pub user_name: String,
    pub user_avatar_data: String,
    pub user_profile_url: String,
}

/// The host's knowledge of articles and users.
///
/// A renderer asks the host whenever it needs something that the syntax tree
/// does not hold. Nothing is assumed about the answers but what the host
/// itself says of them: for each question about an article the host names
/// the answers that it may give, and where it names none, any answer may
/// come.
pub trait ArticleHandle {
    /// Whether the host may give `answer` when asked for the title of the
    /// article with the given identifier.
    open spec fn answers_title(&self, id: u64, answer: Result<String, RenderError>) -> bool {
        true
    }

    /// Whether the host may give `answer` when asked for the rating of the
    /// article with the given identifier.
    open spec fn answers_rating(&self, id: u64, answer: Result<Option<i32>, RenderError>) -> bool {
        true
    }

    /// Whether the host may give `answer` when asked for the tags of the
    /// article with the given identifier.
    open spec fn answers_tags(&self, id: u64, answer: Result<HashSet<String>, RenderError>) -> bool {
        true
    }

    /// The title of the article with the given identifier.
    fn get_title(&self, id: u64) -> (r: Result<String, RenderError>)
        ensures
            self.answers_title(id, r),
    ;

    /// The rating of the article, if it has one.
    fn get_rating(&self, id: u64) -> (r: Result<Option<i32>, RenderError>)
        ensures
            self.answers_rating(id, r),
    ;

    /// The tags of the article.
    fn get_tags(&self, id: u64) -> (r: Result<HashSet<String>, RenderError>)
        ensures
            self.answers_tags(id, r),
    ;

    /// What is known about the user with the given name.
    fn get_user_info(&self, name: &str) -> Option<UserInfo>;
}

/// Which buffer the context writes to.
#[derive(Debug, Copy, Clone, PartialEq, Eq, Structural)]
pub enum WriteMode {
    Html,
    FootnoteBlock,
}

/// The text that stands in the HTML where the footnote block will go.
pub const FOOTNOTE_BLOCK_TOKEN: &'static str = "\0footnote-block\0";

/// The heading that every footnote block starts with.
pub const FOOTNOTE_BLOCK_TITLE: &'static str = "<div class=\"title\">Footnotes</div>";

/// The footnotes gathered so far.
#[derive(Debug, Clone, PartialEq, Eq)]
pub struct FootnoteContext {
    pub buffer: String,
    pub has_block: bool,
    pub count: u32,
}

impl FootnoteContext {
    /// A context without footnotes: the block holds its title alone.
    pub fn new() -> (r: Self)
        ensures
            r.buffer@ == FOOTNOTE_BLOCK_TITLE@,
            !r.has_block,
            r.count == 0,
    {
        FootnoteContext {
            buffer: String::from_str(FOOTNOTE_BLOCK_TITLE),
            has_block: false,
            count: 0,
        }
    }

    /// Records whether the page has a place for the footnote block.
    pub fn set_block(&mut self, value: bool)
        ensures
            final(self).has_block == value,
            final(self).buffer == old(self).buffer,
            final(self).count == old(self).count,
    {
        self.has_block = value;
    }

    /// Whether a footnote has been counted.
    pub fn has_footnotes(&self) -> (r: bool)
        ensures
            r == (self.count > 0),
    {
        self.count > 0
    }

    /// Counts one more footnote and returns its number.
    pub fn incr(&mut self) -> (r: u32)
        requires
            old(self).count < u32::MAX,
        ensures
            r == old(self).count + 1,
            final(self).count == r,
            final(self).buffer == old(self).buffer,
            final(self).has_block == old(self).has_block,
    {
        self.count += 1;
        self.count
    }

    /// Whether there are footnotes and no place for their block yet.
    pub fn needs_block(&self) -> (r: bool)
        ensures
            r == (self.count > 0 && !self.has_block),
    {
        self.count > 0 && !self.has_block
    }

    /// The footnote block as written so far.
    pub fn contents(&self) -> (r: &str)
        ensures
            r@ == self.buffer@,
    {
        self.buffer.as_str()
    }

    /// The footnote block, to be written to.
    pub fn buffer(&mut self) -> (r: &mut String)
        ensures
            *r == old(self).buffer,
            final(self).buffer == *final(r),
            final(self).has_block == old(self).has_block,
            final(self).count == old(self).count,
    {
        &mut self.buffer
    }
}

/// The state of one HTML rendering.
pub struct HtmlContext<H: ArticleHandle> {
    pub html: String,
    pub style: String,
    pub write_mode: WriteMode,
    pub footnotes: FootnoteContext,
    pub id: u64,
    pub handle: Arc<H>,
}

impl<H: ArticleHandle> HtmlContext<H> {
    /// A context for rendering the article `id`: nothing has been written,
    /// and what is written goes to the HTML.
    pub fn new(id: u64, handle: Arc<H>) -> (r: Self)
        ensures
            r.html@ == Seq::<char>::empty(),
            r.style@ == Seq::<char>::empty(),
            r.write_mode == WriteMode::Html,
            r.footnotes.buffer@ == FOOTNOTE_BLOCK_TITLE@,
            !r.footnotes.has_block,
            r.footnotes.count == 0,
            r.id == id,
            r.handle == handle,
    {
        HtmlContext {
            html: String::new(),
            style: String::new(),
            write_mode: WriteMode::Html,
            footnotes: FootnoteContext::new(),
            handle,
            id,
        }
    }

    /// The identifier of the article being rendered.
    pub fn id(&self) -> (r: u64)
        ensures
            r == self.id,
    {
        self.id
    }

    /// The host.
    pub fn handle(&self) -> (r: Arc<H>)
        ensures
            r == self.handle,
    {
        share(&self.handle)
    }

    /// The footnotes gathered so far.
    pub fn footnotes(&self) -> (r: &FootnoteContext)
        ensures
            *r == self.footnotes,
    {
        &self.footnotes
    }

    /// The footnotes gathered so far, to be changed.
    pub fn footnotes_mut(&mut self) -> (r: &mut FootnoteContext)
        ensures
            *r == old(self).footnotes,
            *final(self) == (HtmlContext { footnotes: *final(r), ..*old(self) }),
    {
        &mut self.footnotes
    }

    /// The text of the buffer that is written to in the current mode.
    pub open spec fn current(&self) -> Seq<char> {
        match self.write_mode {
            WriteMode::Html => self.html@,
            WriteMode::FootnoteBlock => self.footnotes.buffer@,
        }
    }

    /// Whether `self` differs from `before` at most in the buffer that is
    /// written to in the current mode.
    pub open spec fn same_but_current(&self, before: &Self) -> bool {
        &&& self.style == before.style
        &&& self.write_mode == before.write_mode
        &&& self.id == before.id
        &&& self.handle == before.handle
        &&& self.footnotes.has_block == before.footnotes.has_block
        &&& self.footnotes.count == before.footnotes.count
        &&& match before.write_mode {
            WriteMode::Html => self.footnotes.buffer == before.footnotes.buffer,
            WriteMode::FootnoteBlock => self.html == before.html,
        }
    }

    /// The buffer that is written to in the current mode: the HTML, or the
    /// footnote block.
    pub fn buffer(&mut self) -> (r: &mut String)
        ensures
            r@ == old(self).current(),
            final(self).current() == final(r)@,
            final(self).same_but_current(old(self)),
    {
        match self.write_mode {
            WriteMode::Html => &mut self.html,
            WriteMode::FootnoteBlock => self.footnotes.buffer(),
        }
    }

    /// Appends text to the current buffer.
    pub fn push_str(&mut self, s: &str)
        ensures
            final(self).current() == old(self).current() + s@,
            final(self).same_but_current(old(self)),
    {
        self.buffer().append(s);
    }

    /// Asks the host for the title of the article being rendered, and
    /// hands on the answer.
    pub fn get_title(&self) -> (r: Result<String, RenderError>)
        ensures
            self.handle.answers_title(self.id, r),
    {
        self.handle.get_title(self.id)
    }

    /// Asks the host for the rating of the article being rendered, and
    /// hands on the answer.
    pub fn get_rating(&self) -> (r: Result<Option<i32>, RenderError>)
        ensures
            self.handle.answers_rating(self.id, r),
    {
        self.handle.get_rating(self.id)
    }

    /// Asks the host for the tags of the article being rendered, and hands
    /// on the answer. The context stays as it is.
    pub fn get_tags(&mut self) -> (r: Result<HashSet<String>, RenderError>)
        ensures
            old(self).handle.answers_tags(old(self).id, r),
            *final(self) == *old(self),
    {
        self.handle.get_tags(self.id)
    }

    /// What takes the place of the footnote block token: the gathered
    /// footnotes, or nothing where there are none.
    pub open spec fn footnote_block(&self) -> Seq<char> {
        if self.footnotes.count > 0 {
            self.footnotes.buffer@
        } else {
            Seq::empty()
        }
    }

    /// Puts the footnote block wherever the HTML holds its token, until the
    /// HTML holds the token nowhere. The replacing must come to an end, as it
    /// does wherever the footnote block holds no NUL character.
    pub fn substitute_footnote_block(&mut self)
        requires
            old(self).write_mode == WriteMode::Html,
            !(old(self).footnotes.count > 0 && !old(self).footnotes.has_block),
            settles(old(self).html@, FOOTNOTE_BLOCK_TOKEN@, old(self).footnote_block()),
        ensures
            final(self).html@ == replace_until_none(
                old(self).html@,
                FOOTNOTE_BLOCK_TOKEN@,
                old(self).footnote_block(),
            ),
            !has_occurrence(final(self).html@, FOOTNOTE_BLOCK_TOKEN@),
            final(self).same_but_current(old(self)),
    {
        proof {
            reveal_strlit("\0footnote-block\0");
            reveal_strlit("");
        }
        let block = if self.footnotes.has_footnotes() {
            self.footnotes.contents()
        } else {
            ""
        };
        assert(block@ =~= self.footnote_block());
        replace_all_rescanning(&mut self.html, FOOTNOTE_BLOCK_TOKEN, block);
    }

    /// Puts the footnote block in place where that is in order and sure to
    /// come to an end: in the mode that writes HTML, with no footnote still
    /// waiting for its block, and with no NUL character in the footnote block.
    /// Returns whether it did; where it did not, the context stays as it is.
    pub fn try_substitute_footnote_block(&mut self) -> (r: bool)
        ensures
            r == (old(self).write_mode == WriteMode::Html && !(old(self).footnotes.count > 0
                && !old(self).footnotes.has_block) && count_char(old(self).footnote_block(), '\0')
                == 0),
            r ==> final(self).html@ == replace_until_none(
                old(self).html@,
                FOOTNOTE_BLOCK_TOKEN@,
                old(self).footnote_block(),
            ) && final(self).same_but_current(old(self)),
            !r ==> *final(self) == *old(self),
    {
        let writes_html = match self.write_mode {
            WriteMode::Html => true,
            WriteMode::FootnoteBlock => false,
        };
        if !writes_html || self.footnotes.needs_block() {
            return false;
        }
        if self.footnotes.has_footnotes() && has_char(self.footnotes.contents(), '\0') {
            return false;
        }
        proof {
            reveal_strlit("\0footnote-block\0");
            lemma_settles_without_first_char(
                self.html@,
                FOOTNOTE_BLOCK_TOKEN@,
                self.footnote_block(),
            );
        }
        self.substitute_footnote_block();
        true
    }

    /// Adds a style sheet, on a line of its own.
    pub fn add_style(&mut self, style: &str)
        ensures
            final(self).style@ == if old(self).style@.len() == 0 {
                style@
            } else {
                old(self).style@.push('\n') + style@
            },
            final(self).html == old(self).html,
            final(self).write_mode == old(self).write_mode,
            final(self).footnotes == old(self).footnotes,
            final(self).id == old(self).id,
            final(self).handle == old(self).handle,
    {
        if !self.style.as_str().is_empty() {
            push_char(&mut self.style, '\n');
        }
        self.style.append(style);
        assert(Seq::<char>::empty() + style@ =~= style@);
    }

    /// Inserts `s` into the current buffer at the byte offset `idx`, which
    /// must be the offset of a character.
    pub fn insert_str(&mut self, idx: usize, s: &str)
        requires
            exists|at: int| #[trigger] covers(old(self).current(), idx, idx, at, at),
        ensures
            forall|at: int| #[trigger]
                covers(old(self).current(), idx, idx, at, at) ==> final(self).current() == splice(
                    old(self).current(),
                    at,
                    at,
                    s@,
                ),
            final(self).same_but_current(old(self)),
    {
        replace_range(self.buffer(), idx, idx, s);
    }

    /// Appends one character to the current buffer.
    pub fn push(&mut self, ch: char)
        ensures
            final(self).current() == old(self).current().push(ch),
            final(self).same_but_current(old(self)),
    {
        push_char(self.buffer(), ch);
    }

    /// Runs `f` with footnote-block mode switched on, and switches back to
    /// HTML mode whatever `f` returns. What `f` wrote is in the footnote
    /// block, and what `f` returned is returned.
    pub fn write_footnote_block<F>(&mut self, f: F) -> (r: Result<(), RenderError>) where
        F: FnOnce(&mut Self) -> Result<(), RenderError>,

        requires
            forall|ctx: &mut Self|
                *ctx == (HtmlContext { write_mode: WriteMode::FootnoteBlock, ..*old(self) })
                    ==> #[trigger] call_requires(f, (ctx,)),
        ensures
            final(self).write_mode == WriteMode::Html,
            exists|ctx: &mut Self|
                *ctx == (HtmlContext { write_mode: WriteMode::FootnoteBlock, ..*old(self) })
                    && #[trigger] call_ensures(f, (ctx,), r) && *final(self) == (HtmlContext {
                    write_mode: WriteMode::Html,
                    ..*final(ctx)
                }),
    {
        self.write_mode = WriteMode::FootnoteBlock;
        let result = f(self);
        self.write_mode = WriteMode::Html;
        result
    }
}

/// The result of an HTML rendering.
#[derive(Debug, Clone, PartialEq, Eq)]
pub struct HtmlOutput {
    pub html: String,
    pub style: String,
}

impl<H: ArticleHandle> HtmlContext<H> {
    /// The rendered HTML and styles.
    pub fn into_output(self) -> (r: HtmlOutput)
        ensures
            r.html == self.html,
            r.style == self.style,
    {
        HtmlOutput { html: self.html, style: self.style }
    }
}

} // verus!
