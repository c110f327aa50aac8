//! The state of a plain text rendering.

use crate::data::PageInfo;
use crate::render::handle::Handle;
use crate::settings::WikitextSettings;
use crate::std_specs::push_char;
use crate::tree::element::Element;
use vstd::prelude::*;

verus! {

/// The texts of `parts` in a row.
pub open spec fn join(parts: Seq<Seq<char>>) -> Seq<char>
    decreases parts.len(),
{
    if parts.len() == 0 {
        Seq::empty()
    } else {
        join(parts.drop_last()) + parts.last()
    }
}

/// `count` spaces.
pub open spec fn spaces(count: nat) -> Seq<char> {
    Seq::new(count, |i: int| ' ')
}

/// The number after `index` in a numbered list; counting stops at the
/// largest number there is.
pub open spec fn next_index(index: usize) -> usize {
    if index < usize::MAX {
        (index + 1) as usize
    } else {
        index
    }
}

/// The mathematical value of a [`TextContext`]: what has been written, and
/// how what follows is to be written.
pub struct TextState {
    /// The text written so far.
    pub output: Seq<char>,
    /// What every new line starts with.
    pub prefixes: Seq<Seq<char>>,
    /// For the list being rendered and each list around it, the number of
    /// its next item. Never empty.
    pub list_depths: Seq<usize>,
    /// Whether characters are written as spaces.
    pub invisible: bool,
}

impl TextState {
    /// The state at the start of a rendering.
    pub open spec fn start() -> TextState {
        TextState {
            output: Seq::empty(),
            prefixes: Seq::empty(),
            list_depths: seq![1usize],
            invisible: false,
        }
    }

    /// Whether the state can be rendered from: the list of lists is not
    /// empty.
    pub open spec fn wf(self) -> bool {
        self.list_depths.len() >= 1
    }

    /// `text` written to the output as it is.
    pub open spec fn write(self, text: Seq<char>) -> TextState {
        TextState { output: self.output + text, ..self }
    }

    /// One character written: a space in invisible mode.
    pub open spec fn push(self, ch: char) -> TextState {
        self.write(
            seq![
                if self.invisible {
                    ' '
                } else {
                    ch
                },
            ],
        )
    }

    /// Text written: as many spaces in invisible mode.
    pub open spec fn push_str(self, text: Seq<char>) -> TextState {
        self.write(
            if self.invisible {
                spaces(text.len())
            } else {
                text
            },
        )
    }

    /// A new line started: a newline, and every prefix.
    pub open spec fn add_newline(self) -> TextState {
        self.write(seq!['\n'] + join(self.prefixes))
    }

    /// `count` new lines started.
    pub open spec fn add_newlines(self, count: nat) -> TextState
        decreases count,
    {
        if count == 0 {
            self
        } else {
            self.add_newline().add_newlines((count - 1) as nat)
        }
    }

    /// `count` spaces written.
    pub open spec fn indent(self, count: nat) -> TextState
        decreases count,
    {
        if count == 0 {
            self
        } else {
            self.push(' ').indent((count - 1) as nat)
        }
    }

    /// A prefix added for the lines that follow.
    pub open spec fn push_prefix(self, prefix: Seq<char>) -> TextState {
        TextState { prefixes: self.prefixes.push(prefix), ..self }
    }

    /// The prefix added last taken away.
    pub open spec fn pop_prefix(self) -> TextState {
        if self.prefixes.len() > 0 {
            TextState { prefixes: self.prefixes.drop_last(), ..self }
        } else {
            self
        }
    }

    /// Invisible mode switched on or off.
    pub open spec fn set_invisible(self, invisible: bool) -> TextState {
        TextState { invisible, ..self }
    }

    /// How deep in lists the rendering is.
    pub open spec fn list_depth(self) -> nat {
        self.list_depths.len()
    }

    /// A list entered: its items are numbered from one.
    pub open spec fn incr_list_depth(self) -> TextState {
        TextState { list_depths: self.list_depths.push(1usize), ..self }
    }

    /// The innermost list left; the outermost stays.
    pub open spec fn decr_list_depth(self) -> TextState {
        if self.list_depths.len() > 1 {
            TextState { list_depths: self.list_depths.drop_last(), ..self }
        } else {
            self
        }
    }

    /// The number of the next item of the innermost list.
    pub open spec fn list_index(self) -> usize {
        self.list_depths.last()
    }

    /// The number of the next item of the innermost list counted up.
    pub open spec fn count_item(self) -> TextState {
        TextState {
            list_depths: self.list_depths.drop_last().push(next_index(self.list_depths.last())),
            ..self
        }
    }
}

/// The views of a list of prefixes.
pub open spec fn prefix_views(prefixes: Seq<&'static str>) -> Seq<Seq<char>> {
    Seq::new(prefixes.len(), |i: int| prefixes[i]@)
}

/// The state of a plain text rendering.
pub struct TextContext<'a> {
    output: String,
    info: &'a PageInfo,
    handle: &'a Handle,
    settings: &'a WikitextSettings,
    prefixes: Vec<&'static str>,
    list_depths: Vec<usize>,
    invisible: bool,
    table_of_contents: &'a [Element],
    footnotes: &'a [Vec<Element>],
}

impl<'a> TextContext<'a> {
    /// What has been written, and how what follows is to be written.
    pub closed spec fn state(&self) -> TextState {
        TextState {
            output: self.output@,
            prefixes: prefix_views(self.prefixes@),
            list_depths: self.list_depths@,
            invisible: self.invisible,
        }
    }

    /// The page that is rendered.
    pub closed spec fn spec_info(&self) -> &'a PageInfo {
        self.info
    }

    /// The host of the rendering.
    pub closed spec fn spec_handle(&self) -> &'a Handle {
        self.handle
    }

    /// The settings of the rendering.
    pub closed spec fn spec_settings(&self) -> &'a WikitextSettings {
        self.settings
    }

    /// Whether `self` is `before` with another state.
    pub open spec fn same_setting(&self, before: &Self) -> bool {
        &&& self.spec_info() == before.spec_info()
        &&& self.spec_handle() == before.spec_handle()
        &&& self.spec_settings() == before.spec_settings()
        &&& self.spec_table_of_contents() == before.spec_table_of_contents()
        &&& self.spec_footnotes() == before.spec_footnotes()
    }

    /// A context at the start of a rendering.
    pub fn new(
        info: &'a PageInfo,
        handle: &'a Handle,
        settings: &'a WikitextSettings,
        table_of_contents: &'a [Element],
        footnotes: &'a [Vec<Element>],
    ) -> (r: Self)
        ensures
            r.state() == TextState::start(),
            r.spec_info() == info,
            r.spec_handle() == handle,
            r.spec_settings() == settings,
            r.spec_table_of_contents() == table_of_contents,
            r.spec_footnotes() == footnotes,
    {
        let mut list_depths: Vec<usize> = Vec::new();
        list_depths.push(1);
        let r = TextContext {
            output: String::new(),
            info,
            handle,
            settings,
            prefixes: Vec::new(),
            list_depths,
            invisible: false,
            table_of_contents,
            footnotes,
        };
        assert(r.state().prefixes =~= Seq::<Seq<char>>::empty());
        assert(r.state().list_depths =~= seq![1usize]);
        r
    }

    /// The page that is rendered.
    pub fn info(&self) -> (r: &'a PageInfo)
        ensures
            r == self.spec_info(),
    {
        self.info
    }

    /// The host of the rendering.
    pub fn handle(&self) -> (r: &'a Handle)
        ensures
            r == self.spec_handle(),
    {
        self.handle
    }

    /// The settings of the rendering.
    pub fn settings(&self) -> (r: &'a WikitextSettings)
        ensures
            r == self.spec_settings(),
    {
        self.settings
    }

    /// The table of contents of the page that is rendered.
    pub closed spec fn spec_table_of_contents(&self) -> &'a [Element] {
        self.table_of_contents
    }

    /// The footnotes of the page that is rendered.
    pub closed spec fn spec_footnotes(&self) -> &'a [Vec<Element>] {
        self.footnotes
    }

    /// The table of contents of the page that is rendered.
    pub fn table_of_contents(&self) -> (r: &'a [Element])
        ensures
            r == self.spec_table_of_contents(),
    {
        self.table_of_contents
    }

    /// The footnotes of the page that is rendered.
    pub fn footnotes(&self) -> (r: &'a [Vec<Element>])
        ensures
            r == self.spec_footnotes(),
    {
        self.footnotes
    }

    /// The text written so far, to be written to as it is.
    pub fn buffer(&mut self) -> (r: &mut String)
        ensures
            r@ == old(self).state().output,
            final(self).state() == (TextState { output: final(r)@, ..old(self).state() }),
            final(self).same_setting(old(self)),
            old(self).state().wf() ==> final(self).state().wf(),
    {
        &mut self.output
    }

    /// The text written.
    pub fn into_output(self) -> (r: String)
        ensures
            r@ == self.state().output,
    {
        self.output
    }

    /// Writes one character: a space in invisible mode.
    pub fn push(&mut self, ch: char)
        ensures
            final(self).state() == old(self).state().push(ch),
            final(self).same_setting(old(self)),
            old(self).state().wf() ==> final(self).state().wf(),
    {
        let written = if self.invisible {
            ' '
        } else {
            ch
        };
        push_char(&mut self.output, written);
        assert(self.output@ =~= old(self).output@ + seq![written]);
    }

    /// Writes text: as many spaces in invisible mode.
    pub fn push_str(&mut self, s: &str)
        ensures
            final(self).state() == old(self).state().push_str(s@),
            final(self).same_setting(old(self)),
            old(self).state().wf() ==> final(self).state().wf(),
    {
        if self.invisible {
            let count = s.unicode_len();
            let mut i: usize = 0;
            while i < count
                invariant
                    i <= count,
                    count == s@.len(),
                    self.output@ == old(self).output@ + spaces(i as nat),
                    self.info == old(self).info,
                    self.handle == old(self).handle,
                    self.settings == old(self).settings,
                    self.prefixes == old(self).prefixes,
                    self.list_depths == old(self).list_depths,
                    self.invisible == old(self).invisible,
                    self.table_of_contents == old(self).table_of_contents,
                    self.footnotes == old(self).footnotes,
                decreases count - i,
            {
                push_char(&mut self.output, ' ');
                assert(self.output@ =~= old(self).output@ + spaces((i + 1) as nat));
                i += 1;
            }
            assert(old(self).output@ + spaces(0) =~= old(self).output@);
        } else {
            self.output.append(s);
        }
    }

    /// Starts a new line: writes a newline and every prefix.
    pub fn add_newline(&mut self)
        ensures
            final(self).state() == old(self).state().add_newline(),
            final(self).same_setting(old(self)),
            old(self).state().wf() ==> final(self).state().wf(),
    {
        push_char(&mut self.output, '\n');
        let ghost all = prefix_views(self.prefixes@);
        let mut i: usize = 0;
        proof {
            assert(all.subrange(0, 0) =~= Seq::<Seq<char>>::empty());
            assert(self.output@ =~= old(self).output@ + (seq!['\n'] + join(all.subrange(0, 0))));
        }
        while i < self.prefixes.len()
            invariant
                i <= self.prefixes.len(),
                all == prefix_views(self.prefixes@),
                self.output@ == old(self).output@ + (seq!['\n'] + join(all.subrange(0, i as int))),
                self.info == old(self).info,
                self.handle == old(self).handle,
                self.settings == old(self).settings,
                self.prefixes == old(self).prefixes,
                self.list_depths == old(self).list_depths,
                self.invisible == old(self).invisible,
                self.table_of_contents == old(self).table_of_contents,
                self.footnotes == old(self).footnotes,
            decreases self.prefixes.len() - i,
        {
            let prefix: &str = self.prefixes[i];
            self.output.append(prefix);
            proof {
                assert(all.subrange(0, i + 1).drop_last() =~= all.subrange(0, i as int));
                assert(all.subrange(0, i + 1).last() == prefix@);
                assert(self.output@ =~= old(self).output@ + (seq!['\n'] + join(
                    all.subrange(0, i + 1),
                )));
            }
            i += 1;
        }
        assert(all.subrange(0, all.len() as int) =~= all);
    }

    /// Starts `count` new lines.
    pub fn add_newlines(&mut self, count: u32)
        ensures
            final(self).state() == old(self).state().add_newlines(count as nat),
            final(self).same_setting(old(self)),
            old(self).state().wf() ==> final(self).state().wf(),
    {
        let mut done: u32 = 0;
        while done < count
            invariant
                done <= count,
                self.same_setting(old(self)),
                old(self).state().wf() ==> self.state().wf(),
                self.state().add_newlines((count - done) as nat) == old(self).state().add_newlines(
                    count as nat,
                ),
            decreases count - done,
        {
            self.add_newline();
            done += 1;
        }
    }

    /// Writes `count` spaces.
    pub fn indent(&mut self, count: usize)
        ensures
            final(self).state() == old(self).state().indent(count as nat),
            final(self).same_setting(old(self)),
            old(self).state().wf() ==> final(self).state().wf(),
    {
        let mut done: usize = 0;
        while done < count
            invariant
                done <= count,
                self.same_setting(old(self)),
                old(self).state().wf() ==> self.state().wf(),
                self.state().indent((count - done) as nat) == old(self).state().indent(
                    count as nat,
                ),
            decreases count - done,
        {
            self.push(' ');
            done += 1;
        }
    }

    /// Adds a prefix for the lines that follow.
    pub fn push_prefix(&mut self, prefix: &'static str)
        ensures
            final(self).state() == old(self).state().push_prefix(prefix@),
            final(self).same_setting(old(self)),
            old(self).state().wf() ==> final(self).state().wf(),
    {
        self.prefixes.push(prefix);
        assert(prefix_views(self.prefixes@) =~= prefix_views(old(self).prefixes@).push(prefix@));
    }

    /// Takes away the prefix added last.
    pub fn pop_prefix(&mut self)
        ensures
            final(self).state() == old(self).state().pop_prefix(),
            final(self).same_setting(old(self)),
            old(self).state().wf() ==> final(self).state().wf(),
    {
        if self.prefixes.len() > 0 {
            let _ = self.prefixes.pop();
            assert(prefix_views(self.prefixes@) =~= prefix_views(old(self).prefixes@).drop_last());
        }
    }

    /// Whether characters are written as spaces.
    pub fn invisible(&self) -> (r: bool)
        ensures
            r == self.state().invisible,
    {
        self.invisible
    }

    /// Switches invisible mode on or off.
    pub fn set_invisible(&mut self, invisible: bool)
        ensures
            final(self).state() == old(self).state().set_invisible(invisible),
            final(self).same_setting(old(self)),
            old(self).state().wf() ==> final(self).state().wf(),
    {
        self.invisible = invisible;
    }

    /// How deep in lists the rendering is.
    pub fn list_depth(&self) -> (r: usize)
        ensures
            r == self.state().list_depth(),
    {
        self.list_depths.len()
    }

    /// Enters a list.
    pub fn incr_list_depth(&mut self)
        ensures
            final(self).state() == old(self).state().incr_list_depth(),
            final(self).same_setting(old(self)),
            old(self).state().wf() ==> final(self).state().wf(),
    {
        self.list_depths.push(1);
    }

    /// Leaves the innermost list; the outermost stays.
    pub fn decr_list_depth(&mut self)
        ensures
            final(self).state() == old(self).state().decr_list_depth(),
            final(self).same_setting(old(self)),
            old(self).state().wf() ==> final(self).state().wf(),
    {
        if self.list_depths.len() > 1 {
            let _ = self.list_depths.pop();
        }
    }

    /// The number of the next item of the innermost list, which is counted
    /// up.
    pub fn next_list_index(&mut self) -> (r: usize)
        requires
            old(self).state().wf(),
        ensures
            r == old(self).state().list_index(),
            final(self).state() == old(self).state().count_item(),
            final(self).same_setting(old(self)),
            old(self).state().wf() ==> final(self).state().wf(),
    {
        let index = self.list_depths.pop().unwrap();
        let next = if index < usize::MAX {
            index + 1
        } else {
            index
        };
        self.list_depths.push(next);
        index
    }
}

} // verus!
