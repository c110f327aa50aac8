//! Kinds of containers and lists.

use vstd::prelude::*;

verus! {

/// The kind of a list.
#[derive(Debug, Clone, Copy, PartialEq, Eq, Structural)]
pub enum ListType {
    /// Items marked with `*`.
    Bullet,
    /// Items marked with `#`.
    Numbered,
    /// Items without a marker of their own.
    Generic,
}

impl ListType {
    /// The name of this kind in serialized trees.
    pub fn name(self) -> (r: &'static str)
        ensures
            r@ == self.spec_name(),
    {
        match self {
            ListType::Bullet => "bullet",
            ListType::Numbered => "numbered",
            ListType::Generic => "generic",
        }
    }

    /// The name of this kind in serialized trees.
    pub open spec fn spec_name(self) -> Seq<char> {
        match self {
            ListType::Bullet => "bullet"@,
            ListType::Numbered => "numbered"@,
            ListType::Generic => "generic"@,
        }
    }
}

/// The smallest level a heading can have.
pub const MIN_HEADING_LEVEL: u8 = 1;

/// The largest level a heading can have.
pub const MAX_HEADING_LEVEL: u8 = 6;

/// The kind of a container element.
#[derive(Debug, Clone, Copy, PartialEq, Eq, Structural)]
pub enum ContainerType {
    Bold,
    Italics,
    Underline,
    Superscript,
    Subscript,
    Strikethrough,
    Monospace,
    Span,
    Div,
    Mark,
    Blockquote,
    Insertion,
    Deletion,
    Hidden,
    Invisible,
    Size,
    Ruby,
    RubyText,
    Paragraph,
    /// A heading of the given level, from 1 to 6.
    Header(u8),
}

impl ContainerType {
    /// Whether this kind can stand in a finished tree: a heading has a level
    /// from 1 to 6.
    pub open spec fn valid(self) -> bool {
        match self {
            ContainerType::Header(level) => MIN_HEADING_LEVEL <= level <= MAX_HEADING_LEVEL,
            _ => true,
        }
    }

    /// Whether a container of this kind may stand inside a paragraph.
    pub open spec fn spec_paragraph_safe(self) -> bool {
        match self {
            ContainerType::Bold
            | ContainerType::Italics
            | ContainerType::Underline
            | ContainerType::Superscript
            | ContainerType::Subscript
            | ContainerType::Strikethrough
            | ContainerType::Monospace
            | ContainerType::Span
            | ContainerType::Mark
            | ContainerType::Insertion
            | ContainerType::Deletion
            | ContainerType::Hidden
            | ContainerType::Invisible
            | ContainerType::Size
            | ContainerType::Ruby
            | ContainerType::RubyText => true,
            ContainerType::Div
            | ContainerType::Blockquote
            | ContainerType::Paragraph
            | ContainerType::Header(_) => false,
        }
    }

    /// Whether a container of this kind may stand inside a paragraph.
    pub fn paragraph_safe(self) -> (r: bool)
        ensures
            r == self.spec_paragraph_safe(),
    {
        match self {
            ContainerType::Div
            | ContainerType::Blockquote
            | ContainerType::Paragraph
            | ContainerType::Header(_) => false,
            _ => true,
        }
    }

    /// The name of this kind in serialized trees.
    pub open spec fn spec_name(self) -> Seq<char> {
        match self {
            ContainerType::Bold => "bold"@,
            ContainerType::Italics => "italics"@,
            ContainerType::Underline => "underline"@,
            ContainerType::Superscript => "superscript"@,
            ContainerType::Subscript => "subscript"@,
            ContainerType::Strikethrough => "strikethrough"@,
            ContainerType::Monospace => "monospace"@,
            ContainerType::Span => "span"@,
            ContainerType::Div => "div"@,
            ContainerType::Mark => "mark"@,
            ContainerType::Blockquote => "blockquote"@,
            ContainerType::Insertion => "insertion"@,
            ContainerType::Deletion => "deletion"@,
            ContainerType::Hidden => "hidden"@,
            ContainerType::Invisible => "invisible"@,
            ContainerType::Size => "size"@,
            ContainerType::Ruby => "ruby"@,
            ContainerType::RubyText => "ruby-text"@,
            ContainerType::Paragraph => "paragraph"@,
            ContainerType::Header(_) => "header"@,
        }
    }

    /// The name of this kind in serialized trees.
    pub fn name(self) -> (r: &'static str)
        ensures
            r@ == self.spec_name(),
    {
        match self {
            ContainerType::Bold => "bold",
            ContainerType::Italics => "italics",
            ContainerType::Underline => "underline",
            ContainerType::Superscript => "superscript",
            ContainerType::Subscript => "subscript",
            ContainerType::Strikethrough => "strikethrough",
            ContainerType::Monospace => "monospace",
            ContainerType::Span => "span",
            ContainerType::Div => "div",
            ContainerType::Mark => "mark",
            ContainerType::Blockquote => "blockquote",
            ContainerType::Insertion => "insertion",
            ContainerType::Deletion => "deletion",
            ContainerType::Hidden => "hidden",
            ContainerType::Invisible => "invisible",
            ContainerType::Size => "size",
            ContainerType::Ruby => "ruby",
            ContainerType::RubyText => "ruby-text",
            ContainerType::Paragraph => "paragraph",
            ContainerType::Header(_) => "header",
        }
    }
}

} // verus!
