use ftml::error::RenderError;
use ftml::render::html::builder::{attr, attr_map, push_escaped};
use ftml::render::html::element::user::render_user_info;
use ftml::render::html::{
    render_radio_button, render_user, ArticleHandle, FootnoteContext, HtmlContext, UserInfo,
};
use ftml::text::{has_char, replace_all_rescanning};
use ftml::tree::AttributeMap;
use std::collections::HashSet;
use std::sync::Arc;

struct Site;

impl ArticleHandle for Site {
    fn get_title(&self, id: u64) -> Result<String, RenderError> {
        if id == 0 {
            Err(RenderError::StaticMsg("no such article"))
        } else {
            Ok(format!("Article {}", id))
        }
    }

    fn get_rating(&self, id: u64) -> Result<Option<i32>, RenderError> {
        Ok(if id == 7 { Some(12) } else { None })
    }

    fn get_tags(&self, _id: u64) -> Result<HashSet<String>, RenderError> {
        Ok(HashSet::from([String::from("tale"), String::from("_cc")]))
    }

    fn get_user_info(&self, name: &str) -> Option<UserInfo> {
        if name == "alice" {
            Some(UserInfo {
                user_id: 1,
                user_name: String::from("Alice <A>"),
                user_avatar_data: String::from("data:a&b"),
                user_profile_url: String::from("/user/alice?x=\"1\""),
            })
        } else {
            None
        }
    }
}

fn context(id: u64) -> HtmlContext<Site> {
    HtmlContext::new(id, Arc::new(Site))
}

#[test]
fn footnote_context_counts() {
    let mut footnotes = FootnoteContext::new();
    assert_eq!(footnotes.contents(), "<div class=\"title\">Footnotes</div>");
    assert!(!footnotes.has_footnotes());
    assert!(!footnotes.needs_block());
    assert_eq!(footnotes.incr(), 1);
    assert_eq!(footnotes.incr(), 2);
    assert!(footnotes.has_footnotes());
    assert!(footnotes.needs_block());
    footnotes.set_block(true);
    assert!(!footnotes.needs_block());
    footnotes.buffer().push_str("<p>1</p>");
    assert_eq!(footnotes.contents(), "<div class=\"title\">Footnotes</div><p>1</p>");
}

#[test]
fn html_context_fields_and_host() {
    let mut ctx = context(7);
    assert_eq!(ctx.id(), 7);
    assert_eq!(ctx.get_title(), Ok(String::from("Article 7")));
    assert_eq!(ctx.get_rating(), Ok(Some(12)));
    assert_eq!(
        ctx.get_tags(),
        Ok(HashSet::from([String::from("_cc"), String::from("tale")]))
    );
    assert_eq!(ctx.handle().get_title(0), Err(RenderError::StaticMsg("no such article")));
    assert!(!ctx.footnotes().has_footnotes());
    assert_eq!(ctx.footnotes_mut().incr(), 1);
    assert!(ctx.footnotes().has_footnotes());
}

#[test]
fn html_context_buffers() {
    let mut ctx = context(1);
    ctx.push_str("a\u{e9}c");
    ctx.push('!');
    ctx.insert_str(3, "b");
    assert_eq!(ctx.buffer().as_str(), "a\u{e9}bc!");
    ctx.insert_str(0, "<");
    ctx.insert_str(7, ">");
    assert_eq!(ctx.buffer().as_str(), "<a\u{e9}bc!>");
    let result = ctx.write_footnote_block(|ctx| {
        ctx.push_str("note");
        ctx.push('.');
        Ok(())
    });
    assert_eq!(result, Ok(()));
    assert_eq!(ctx.buffer().as_str(), "<a\u{e9}bc!>");
    assert_eq!(ctx.footnotes().contents(), "<div class=\"title\">Footnotes</div>note.");
    let failed = ctx.write_footnote_block(|_| Err(RenderError::Msg(String::from("x"))));
    assert_eq!(failed, Err(RenderError::Msg(String::from("x"))));
    ctx.push('?');
    assert_eq!(ctx.buffer().as_str(), "<a\u{e9}bc!>?");
}

#[test]
fn html_context_styles() {
    let mut ctx = context(1);
    ctx.add_style("a { }");
    ctx.add_style("b { }");
    ctx.push_str("x");
    let output = ctx.into_output();
    assert_eq!(output.style, "a { }\nb { }");
    assert_eq!(output.html, "x");
}

#[test]
fn html_context_substitutes_footnote_block() {
    let mut ctx = context(1);
    ctx.push_str("a\0footnote-block\0b\0footnote-block\0");
    ctx.substitute_footnote_block();
    assert_eq!(ctx.buffer().as_str(), "ab");

    let mut ctx = context(1);
    ctx.push_str("a\0footnote-block\0b");
    let _ = ctx.footnotes_mut().incr();
    ctx.footnotes_mut().set_block(true);
    ctx.substitute_footnote_block();
    assert_eq!(ctx.buffer().as_str(), "a<div class=\"title\">Footnotes</div>b");
}

#[test]
fn html_context_substitutes_footnote_block_where_it_ends() {
    let mut ctx = context(1);
    ctx.push_str("a\0footnote-block\0b\0footnote-block\0");
    let _ = ctx.footnotes_mut().incr();
    ctx.footnotes_mut().set_block(true);
    ctx.footnotes_mut().buffer().push_str("<p>1</p>");
    assert!(ctx.try_substitute_footnote_block());
    assert_eq!(
        ctx.buffer().as_str(),
        "a<div class=\"title\">Footnotes</div><p>1</p>b<div class=\"title\">Footnotes</div><p>1</p>"
    );

    // A footnote block that holds the token would be put in without end.
    let mut ctx = context(1);
    ctx.push_str("a\0footnote-block\0b");
    let _ = ctx.footnotes_mut().incr();
    ctx.footnotes_mut().set_block(true);
    ctx.footnotes_mut().buffer().push_str("\0footnote-block\0");
    assert!(!ctx.try_substitute_footnote_block());
    assert_eq!(ctx.buffer().as_str(), "a\0footnote-block\0b");

    // The NUL character is held, but no footnote was counted: the block is empty.
    let mut ctx = context(1);
    ctx.push_str("a\0footnote-block\0b");
    ctx.footnotes_mut().buffer().push_str("\0");
    assert!(ctx.try_substitute_footnote_block());
    assert_eq!(ctx.buffer().as_str(), "ab");

    // A footnote is still waiting for its block.
    let mut ctx = context(1);
    ctx.push_str("a\0footnote-block\0b");
    let _ = ctx.footnotes_mut().incr();
    assert!(!ctx.try_substitute_footnote_block());
    assert_eq!(ctx.buffer().as_str(), "a\0footnote-block\0b");
}

#[test]
fn html_escaping_and_attributes() {
    let mut ctx = context(1);
    push_escaped(&mut ctx, "<a href=\"x\">Tom & 'Jerry'</a>");
    assert_eq!(
        ctx.buffer().as_str(),
        "&lt;a href=&quot;x&quot;&gt;Tom &amp; &#39;Jerry&#39;&lt;/a&gt;"
    );
    let mut ctx = context(1);
    attr(&mut ctx, "class", &["a", "<b>"]);
    attr(&mut ctx, "checked", &[]);
    let mut attributes = AttributeMap::new();
    attributes.insert("Style", String::from("x: \"y\""));
    attributes.insert("id", String::from("i"));
    attr_map(&mut ctx, &attributes);
    assert_eq!(
        ctx.buffer().as_str(),
        " class=\"a&lt;b&gt;\" checked id=\"i\" style=\"x: &quot;y&quot;\""
    );
}

#[test]
fn html_radio_button() {
    let mut ctx = context(1);
    let mut attributes = AttributeMap::new();
    attributes.insert("class", String::from("big"));
    render_radio_button(&mut ctx, "choice<1>", true, &attributes);
    render_radio_button(&mut ctx, "other", false, &AttributeMap::new());
    assert_eq!(
        ctx.buffer().as_str(),
        "<input name=\"choice&lt;1&gt;\" type=\"radio\" checked class=\"big\"><input name=\"other\" type=\"radio\">"
    );
}

#[test]
fn html_user() {
    let mut ctx = context(1);
    render_user(&mut ctx, "alice", true);
    assert_eq!(
        ctx.buffer().as_str(),
        "<span class=\"user-info\"><a href=\"/user/alice?x=&quot;1&quot;\"><img class=\"small\" src=\"data:a&amp;b\">Alice &lt;A&gt;</a></span>"
    );
    let mut ctx = context(1);
    render_user(&mut ctx, "alice", false);
    assert_eq!(
        ctx.buffer().as_str(),
        "<span class=\"user-info\"><a href=\"/user/alice?x=&quot;1&quot;\">Alice &lt;A&gt;</a></span>"
    );
    let mut ctx = context(1);
    render_user(&mut ctx, "b<o>b", true);
    assert_eq!(
        ctx.buffer().as_str(),
        "<span class=\"user-info\"><span class=\"error-inline\"><img class=\"small\" src=\"https://www.wikijump.com/avatars--common/missing/small.png\"><em>b&lt;o&gt;b</em></span></span>"
    );
    let mut ctx = context(1);
    render_user_info(&mut ctx, &None, "bob", false);
    assert_eq!(
        ctx.buffer().as_str(),
        "<span class=\"user-info\"><span class=\"error-inline\"><em>bob</em></span></span>"
    );
}

#[test]
fn replacing_rescans_until_nothing_is_left() {
    assert!(has_char("a\u{e9}b", 'b'));
    assert!(has_char("a\u{e9}b", '\u{e9}'));
    assert!(!has_char("abc", 'd'));
    assert!(!has_char("", 'a'));

    let mut text = String::from("aXbXX");
    replace_all_rescanning(&mut text, "X", "yy");
    assert_eq!(text, "ayybyyyy");

    // What is put in may make a new occurrence with what stands around it.
    let mut text = String::from("aab");
    replace_all_rescanning(&mut text, "ab", "b");
    assert_eq!(text, "b");

    let mut text = String::from("abc");
    replace_all_rescanning(&mut text, "x", "x");
    assert_eq!(text, "abc");
}
