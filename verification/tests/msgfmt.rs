use coriander_bot::msgfmt::{
    bold, code_block, escape, escape_link_url, link, markup_username_with_link, plain_link,
};

#[test]
fn escape_marks_every_special_character() {
    assert_eq!(escape("a_b*c[d]e(f)g~h`i>j#k+l-m=n|o{p}q.r!s"), "a\\_b\\*c\\[d\\]e\\(f\\)g\\~h\\`i\\>j\\#k\\+l\\-m\\=n\\|o\\{p\\}q\\.r\\!s");
}

#[test]
fn escape_leaves_plain_text_alone() {
    assert_eq!(escape("hello world 你好"), "hello world 你好");
    assert_eq!(escape(""), "");
}

#[test]
fn escape_agrees_with_the_transport_helper() {
    for s in ["a.b!c", "plain", "_x_ *y*", "链接（全角）", "1+1=2"] {
        assert_eq!(escape(s), teloxide::utils::markdown::escape(s));
    }
}

#[test]
fn escape_link_url_only_touches_backtick_and_paren() {
    assert_eq!(escape_link_url("https://e.com/a(b)`c"), "https://e.com/a(b\\)\\`c");
    assert_eq!(
        escape_link_url("https://e.com/a(b)`c"),
        teloxide::utils::markdown::escape_link_url("https://e.com/a(b)`c")
    );
}

#[test]
fn bold_wraps_in_asterisks() {
    assert_eq!(bold("标题"), "*标题*");
    assert_eq!(bold("标题"), teloxide::utils::markdown::bold("标题"));
}

#[test]
fn code_block_fences_and_escapes() {
    assert_eq!(code_block("let x = `1`;\\"), "```\nlet x = \\`1\\`;\\\\\n```");
    assert_eq!(
        code_block("let x = `1`;\\"),
        teloxide::utils::markdown::code_block("let x = `1`;\\")
    );
}

#[test]
fn link_escapes_the_url_side_only() {
    assert_eq!(link("https://e.com/x(1)", "text.here"), "[text.here](https://e.com/x(1\\))");
    assert_eq!(
        link("https://e.com/x(1)", "text.here"),
        teloxide::utils::markdown::link("https://e.com/x(1)", "text.here")
    );
}

#[test]
fn plain_link_shows_the_escaped_url() {
    assert_eq!(plain_link("https://e.com/a_b"), "[https://e\\.com/a\\_b](https://e.com/a_b)");
}

#[test]
fn user_mention_links_name_to_id() {
    assert_eq!(
        markup_username_with_link("Ann.Lee", 12345),
        "[Ann\\.Lee](tg://user?id=12345)"
    );
    assert_eq!(markup_username_with_link("張三", 0), "[張三](tg://user?id=0)");
    assert_eq!(
        markup_username_with_link("x", u64::MAX),
        format!("[x](tg://user?id={})", u64::MAX)
    );
}
