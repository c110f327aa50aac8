//! The state of the parser: a cursor into the tokens.

use crate::parsing::result::{Outcome, ParseWarning, ParseWarningKind, Rule, SpecSuccess};
use crate::parsing::rule::block::{end_tag_len, end_tag_length, BlockKind};
use crate::parsing::token::{ExtractedToken, Token};
use crate::parsing::tokenize::{starts_line, token_starts_line};
use crate::settings::WikitextSettings;
use vstd::prelude::*;

verus! {

/// The partial elements that the rule in progress can finish.
#[derive(Debug, Clone, Copy, PartialEq, Eq, Structural)]
pub enum AcceptsPartial {
    /// No partial element is welcome.
    Nothing,
    /// A ruby block is being parsed, which finishes ruby text.
    Ruby,
}

/// Whether `tokens` can be parsed: the last token, and no other, ends the
/// input.
pub open spec fn parseable(tokens: Seq<ExtractedToken>) -> bool {
    &&& tokens.len() >= 1
    &&& tokens.len() <= usize::MAX
    &&& forall|i: int|
        0 <= i < tokens.len() ==> ((#[trigger] tokens[i]).token == Token::InputEnd <==> i
            == tokens.len() - 1)
}

/// The warning that rule `rule` gives at token `pos`.
pub open spec fn warn_at(
    tokens: Seq<ExtractedToken>,
    pos: int,
    rule: Rule,
    kind: ParseWarningKind,
) -> ParseWarning {
    ParseWarning { token: tokens[pos].token, rule, span: tokens[pos].span, kind }
}

/// The failure of rule `rule` at token `pos`.
pub open spec fn fail_at<T>(
    tokens: Seq<ExtractedToken>,
    pos: int,
    rule: Rule,
    kind: ParseWarningKind,
) -> Outcome<T> {
    Outcome { result: Err(warn_at(tokens, pos, rule, kind)), pos }
}

/// A success without warnings.
pub open spec fn succeed_at<T>(item: T, paragraph_safe: bool, pos: int) -> Outcome<T> {
    Outcome { result: Ok(SpecSuccess { item, exceptions: Seq::empty(), paragraph_safe }), pos }
}

/// Whether token `pos` is the first of its line.
pub open spec fn line_starts_at(tokens: Seq<ExtractedToken>, pos: int) -> bool {
    pos == 0 || starts_line(tokens[pos - 1].token)
}

/// The kind of token `pos`, if there is such a token.
pub open spec fn kind_at(tokens: Seq<ExtractedToken>, pos: int) -> Option<Token> {
    if 0 <= pos < tokens.len() {
        Some(tokens[pos].token)
    } else {
        None
    }
}

/// A test on the tokens at the cursor.
#[derive(Debug, Clone, Copy, PartialEq, Eq, Structural)]
pub enum ParseCondition {
    /// The current token has the given kind.
    CurrentToken(Token),
    /// The current token and the one after it have the given kinds.
    TokenPair(Token, Token),
    /// The end tag of a block of the given kind starts at the current token.
    BlockEnd(BlockKind),
}

impl ParseCondition {
    /// A test for the kind of the current token.
    pub fn current(token: Token) -> (r: ParseCondition)
        ensures
            r == ParseCondition::CurrentToken(token),
    {
        ParseCondition::CurrentToken(token)
    }

    /// A test for the kinds of the current token and the next.
    pub fn token_pair(current: Token, next: Token) -> (r: ParseCondition)
        ensures
            r == ParseCondition::TokenPair(current, next),
    {
        ParseCondition::TokenPair(current, next)
    }

    /// Whether the test holds at token `pos`.
    pub open spec fn holds(self, tokens: Seq<ExtractedToken>, pos: int) -> bool {
        match self {
            ParseCondition::CurrentToken(token) => kind_at(tokens, pos) == Some(token),
            ParseCondition::TokenPair(current, next) => kind_at(tokens, pos) == Some(current)
                && kind_at(tokens, pos + 1) == Some(next),
            ParseCondition::BlockEnd(kind) => end_tag_len(tokens, pos, kind) is Some,
        }
    }
}

/// Whether one of `conditions` holds at token `pos`.
pub open spec fn any_holds(
    conditions: Seq<ParseCondition>,
    tokens: Seq<ExtractedToken>,
    pos: int,
) -> bool {
    exists|i: int| 0 <= i < conditions.len() && (#[trigger] conditions[i]).holds(tokens, pos)
}

/// The cursor of a parse in progress.
#[derive(Debug, Clone, Copy)]
pub struct Parser<'t> {
    pub tokens: &'t Vec<ExtractedToken>,
    pub settings: &'t WikitextSettings,
    pub pos: usize,
    pub rule: Rule,
    pub accepts_partial: AcceptsPartial,
}

impl<'t> Parser<'t> {
    /// Whether the cursor points at a token of a parseable sequence.
    pub open spec fn wf(&self) -> bool {
        parseable(self.tokens@) && self.pos < self.tokens@.len()
    }

    /// Whether `self` differs from `before` at most in its position.
    pub open spec fn moved_from(&self, before: &Self) -> bool {
        &&& self.tokens == before.tokens
        &&& self.settings == before.settings
        &&& self.rule == before.rule
        &&& self.accepts_partial == before.accepts_partial
    }

    /// How many tokens lie after the cursor.
    pub open spec fn remaining(&self) -> int {
        self.tokens@.len() - 1 - self.pos
    }

    /// A parser at the first of `tokens`.
    pub fn new(tokens: &'t Vec<ExtractedToken>, settings: &'t WikitextSettings) -> (r: Parser<'t>)
        requires
            parseable(tokens@),
        ensures
            r.wf(),
            r.tokens == tokens,
            r.settings == settings,
            r.pos == 0,
            r.rule == Rule::Page,
            r.accepts_partial == AcceptsPartial::Nothing,
    {
        Parser {
            tokens,
            settings,
            pos: 0,
            rule: Rule::Page,
            accepts_partial: AcceptsPartial::Nothing,
        }
    }

    /// The settings of this parse.
    pub fn settings(&self) -> (r: &'t WikitextSettings)
        ensures
            r == self.settings,
    {
        self.settings
    }

    /// The rule that is being tried.
    pub fn rule(&self) -> (r: Rule)
        ensures
            r == self.rule,
    {
        self.rule
    }

    /// Sets the rule that is being tried.
    pub fn set_rule(&mut self, rule: Rule)
        ensures
            *final(self) == (Parser { rule, ..*old(self) }),
    {
        self.rule = rule;
    }

    /// The partial elements that are welcome.
    pub fn accepts_partial(&self) -> (r: AcceptsPartial)
        ensures
            r == self.accepts_partial,
    {
        self.accepts_partial
    }

    /// Sets the partial elements that are welcome.
    pub fn set_accepts_partial(&mut self, value: AcceptsPartial)
        ensures
            *final(self) == (Parser { accepts_partial: value, ..*old(self) }),
    {
        self.accepts_partial = value;
    }

    /// The token at the cursor.
    pub fn current(&self) -> (r: &'t ExtractedToken)
        requires
            self.wf(),
        ensures
            *r == self.tokens@[self.pos as int],
    {
        &self.tokens[self.pos]
    }

    /// The token `offset` tokens after the cursor, if there is one.
    pub fn look_ahead(&self, offset: usize) -> (r: Option<&'t ExtractedToken>)
        requires
            self.wf(),
        ensures
            match r {
                Some(token) => self.pos + offset < self.tokens@.len() && *token
                    == self.tokens@[self.pos + offset],
                None => self.pos + offset >= self.tokens@.len(),
            },
    {
        if offset < self.tokens.len() - self.pos {
            Some(&self.tokens[self.pos + offset])
        } else {
            None
        }
    }

    /// The kinds of the current token and the next.
    pub fn next_two_tokens(&self) -> (r: (Token, Option<Token>))
        requires
            self.wf(),
        ensures
            Some(r.0) == kind_at(self.tokens@, self.pos as int),
            r.1 == kind_at(self.tokens@, self.pos + 1),
    {
        let first = self.current().token;
        let second = match self.look_ahead(1) {
            Some(token) => Some(token.token),
            None => None,
        };
        (first, second)
    }

    /// The kinds of the current token and the two after it.
    pub fn next_three_tokens(&self) -> (r: (Token, Option<Token>, Option<Token>))
        requires
            self.wf(),
        ensures
            Some(r.0) == kind_at(self.tokens@, self.pos as int),
            r.1 == kind_at(self.tokens@, self.pos + 1),
            r.2 == kind_at(self.tokens@, self.pos + 2),
    {
        let first = self.current().token;
        let second = match self.look_ahead(1) {
            Some(token) => Some(token.token),
            None => None,
        };
        let third = match self.look_ahead(2) {
            Some(token) => Some(token.token),
            None => None,
        };
        (first, second, third)
    }

    /// Whether the current token is the first of its line.
    pub fn start_of_line(&self) -> (r: bool)
        requires
            self.wf(),
        ensures
            r == line_starts_at(self.tokens@, self.pos as int),
    {
        self.pos == 0 || token_starts_line(self.tokens[self.pos - 1].token)
    }

    /// A warning of the rule being tried, at the current token.
    pub fn make_warn(&self, kind: ParseWarningKind) -> (r: ParseWarning)
        requires
            self.wf(),
        ensures
            r == warn_at(self.tokens@, self.pos as int, self.rule, kind),
    {
        let current = self.current();
        ParseWarning { token: current.token, rule: self.rule, span: current.span, kind }
    }

    /// Moves to the next token; fails at the end of the input.
    pub fn step(&mut self) -> (r: Result<(), ParseWarning>)
        requires
            old(self).wf(),
        ensures
            final(self).wf(),
            final(self).moved_from(old(self)),
            match r {
                Ok(_) => old(self).tokens@[old(self).pos as int].token != Token::InputEnd
                    && final(self).pos == old(self).pos + 1,
                Err(warning) => old(self).tokens@[old(self).pos as int].token == Token::InputEnd
                    && final(self).pos == old(self).pos && warning == warn_at(
                    old(self).tokens@,
                    old(self).pos as int,
                    old(self).rule,
                    ParseWarningKind::EndOfInput,
                ),
            },
    {
        if self.current().token == Token::InputEnd {
            Err(self.make_warn(ParseWarningKind::EndOfInput))
        } else {
            self.pos += 1;
            Ok(())
        }
    }

    /// Makes `count` steps; stops at the first that fails.
    pub fn step_n(&mut self, count: usize) -> (r: Result<(), ParseWarning>)
        requires
            old(self).wf(),
        ensures
            final(self).wf(),
            final(self).moved_from(old(self)),
            match r {
                Ok(_) => old(self).pos + count < old(self).tokens@.len() && final(self).pos
                    == old(self).pos + count,
                Err(warning) => old(self).pos + count >= old(self).tokens@.len()
                    && final(self).pos == old(self).tokens@.len() - 1 && warning == warn_at(
                    old(self).tokens@,
                    old(self).tokens@.len() - 1,
                    old(self).rule,
                    ParseWarningKind::EndOfInput,
                ),
            },
    {
        let mut done: usize = 0;
        while done < count
            invariant
                self.wf(),
                self.moved_from(old(self)),
                done <= count,
                self.pos == old(self).pos + done,
            decreases count - done,
        {
            match self.step() {
                Ok(_) => {},
                Err(warning) => {
                    return Err(warning);
                },
            }
            done += 1;
        }
        Ok(())
    }

    /// Takes over the position of `other`, a copy of this parser that was
    /// moved ahead.
    pub fn update(&mut self, other: &Parser<'t>)
        ensures
            *final(self) == (Parser { pos: other.pos, ..*old(self) }),
    {
        self.pos = other.pos;
    }

    /// Whether `condition` holds at the cursor.
    pub fn evaluate(&self, condition: ParseCondition) -> (r: bool)
        requires
            self.wf(),
        ensures
            r == condition.holds(self.tokens@, self.pos as int),
    {
        match condition {
            ParseCondition::CurrentToken(token) => self.current().token == token,
            ParseCondition::TokenPair(current, next) => {
                let (first, second) = self.next_two_tokens();
                first == current && second == Some(next)
            },
            ParseCondition::BlockEnd(kind) => end_tag_length(self.tokens, self.pos, kind).is_some(),
        }
    }

    /// Whether one of `conditions` holds at the cursor.
    pub fn evaluate_any(&self, conditions: &[ParseCondition]) -> (r: bool)
        requires
            self.wf(),
        ensures
            r == any_holds(conditions@, self.tokens@, self.pos as int),
    {
        let mut i: usize = 0;
        while i < conditions.len()
            invariant
                self.wf(),
                i <= conditions.len(),
                forall|j: int|
                    0 <= j < i ==> !(#[trigger] conditions@[j]).holds(
                        self.tokens@,
                        self.pos as int,
                    ),
            decreases conditions.len() - i,
        {
            if self.evaluate(conditions[i]) {
                return true;
            }
            i += 1;
        }
        false
    }
}

} // verus!
