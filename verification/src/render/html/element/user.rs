//! HTML rendering of a reference to a user.

use crate::render::html::builder::{escaped, push_escaped};
use crate::render::html::context::{ArticleHandle, HtmlContext, UserInfo};
use vstd::prelude::*;

verus! {

/// The avatar that is shown for a user that the host does not know.
pub const MISSING_AVATAR: &'static str =
    "https://www.wikijump.com/avatars--common/missing/small.png";

/// The `<img>` tag of an avatar.
pub open spec fn avatar_html(source: Seq<char>) -> Seq<char> {
    "<img class=\"small\" src=\""@ + escaped(source) + "\">"@
}

/// The HTML of a reference to the user `name`, of whom the host knows
/// `info`: a link to the profile of a known user, with the name that the
/// host gives; the name as it was written, marked as an error, for a user
/// that the host does not know. The avatar comes first where it is asked
/// for.
pub open spec fn user_html(info: Option<UserInfo>, name: Seq<char>, show_avatar: bool) -> Seq<char> {
    "<span class=\"user-info\">"@ + (match info {
        Some(info) => "<a href=\""@ + escaped(info.user_profile_url@) + "\">"@ + (if show_avatar {
            avatar_html(info.user_avatar_data@)
        } else {
            Seq::empty()
        }) + escaped(info.user_name@) + "</a>"@,
        None => "<span class=\"error-inline\">"@ + (if show_avatar {
            avatar_html(MISSING_AVATAR@)
        } else {
            Seq::empty()
        }) + "<em>"@ + escaped(name) + "</em>"@ + "</span>"@,
    }) + "</span>"@
}

/// Writes the `<img>` tag of an avatar.
fn render_avatar<H: ArticleHandle>(ctx: &mut HtmlContext<H>, source: &str)
    ensures
        final(ctx).current() == old(ctx).current() + avatar_html(source@),
        final(ctx).same_but_current(old(ctx)),
{
    ctx.push_str("<img class=\"small\" src=\"");
    push_escaped(ctx, source);
    ctx.push_str("\">");
    assert(ctx.current() =~= old(ctx).current() + avatar_html(source@));
}

/// Writes a reference to the user `name`, of whom the host knows `info`.
pub fn render_user_info<H: ArticleHandle>(
    ctx: &mut HtmlContext<H>,
    info: &Option<UserInfo>,
    name: &str,
    show_avatar: bool,
)
    ensures
        final(ctx).current() == old(ctx).current() + user_html(*info, name@, show_avatar),
        final(ctx).same_but_current(old(ctx)),
{
    ctx.push_str("<span class=\"user-info\">");
    let ghost opened = ctx.current();
    match info {
        Some(info) => {
            ctx.push_str("<a href=\"");
            push_escaped(ctx, info.user_profile_url.as_str());
            ctx.push_str("\">");
            let ghost linked = ctx.current();
            if show_avatar {
                render_avatar(ctx, info.user_avatar_data.as_str());
            } else {
                assert(linked + Seq::<char>::empty() =~= linked);
            }
            push_escaped(ctx, info.user_name.as_str());
            ctx.push_str("</a>");
            assert(ctx.current() =~= opened + ("<a href=\""@ + escaped(info.user_profile_url@)
                + "\">"@ + (if show_avatar {
                avatar_html(info.user_avatar_data@)
            } else {
                Seq::empty()
            }) + escaped(info.user_name@) + "</a>"@));
        },
        None => {
            ctx.push_str("<span class=\"error-inline\">");
            let ghost marked = ctx.current();
            if show_avatar {
                render_avatar(ctx, MISSING_AVATAR);
            } else {
                assert(marked + Seq::<char>::empty() =~= marked);
            }
            ctx.push_str("<em>");
            push_escaped(ctx, name);
            ctx.push_str("</em>");
            ctx.push_str("</span>");
            assert(ctx.current() =~= opened + ("<span class=\"error-inline\">"@ + (if show_avatar {
                avatar_html(MISSING_AVATAR@)
            } else {
                Seq::empty()
            }) + "<em>"@ + escaped(name@) + "</em>"@ + "</span>"@));
        },
    }
    ctx.push_str("</span>");
    assert(ctx.current() =~= old(ctx).current() + user_html(*info, name@, show_avatar));
}

/// Writes a reference to the user `name`: the host is asked what it knows of
/// the user, and the answer is rendered by [`render_user_info`].
pub fn render_user<H: ArticleHandle>(ctx: &mut HtmlContext<H>, name: &str, show_avatar: bool)
    ensures
        exists|info: Option<UserInfo>|
            final(ctx).current() == old(ctx).current() + #[trigger] user_html(
                info,
                name@,
                show_avatar,
            ),
        final(ctx).same_but_current(old(ctx)),
{
    let info = ctx.handle.get_user_info(name);
    render_user_info(ctx, &info, name, show_avatar);
}

} // verus!
