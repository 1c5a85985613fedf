use coriander_bot::commands::CleanUrlCommand;
use coriander_bot::urlenhance::{
    clean_report, find_links, plan_clean_url, single_clean_reply, CleanOutcome, CleanUrlPlan,
};

fn cmd(url: &str) -> CleanUrlCommand {
    CleanUrlCommand { url: url.to_string() }
}

#[test]
fn finds_links_in_text() {
    let links = find_links("see https://example.com/a and http://b.org, ok?");
    assert_eq!(links, vec!["https://example.com/a".to_string(), "http://b.org".to_string()]);
}

#[test]
fn finds_no_links_in_plain_text() {
    let links = find_links("no links here");
    assert!(links.is_empty());
}

#[test]
fn plan_prefers_replied_text() {
    let plan = plan_clean_url(Some(Some("body https://x".to_string())), cmd("arg"));
    assert!(matches!(plan, CleanUrlPlan::CleanRepliedText(t) if t == "body https://x"));
}

#[test]
fn plan_rejects_reply_without_text() {
    let plan = plan_clean_url(Some(None), cmd("arg"));
    assert!(matches!(plan, CleanUrlPlan::ReplyCannotHandle));
}

#[test]
fn plan_rejects_empty_url() {
    let plan = plan_clean_url(None, cmd(""));
    assert!(matches!(plan, CleanUrlPlan::ReplyEmptyUrl));
}

#[test]
fn plan_cleans_single_url() {
    let plan = plan_clean_url(None, cmd("https://e.com"));
    assert!(matches!(plan, CleanUrlPlan::CleanSingleUrl(u) if u == "https://e.com"));
}

#[test]
fn report_lists_cleaned_and_failed_links() {
    let outcomes = vec![
        CleanOutcome {
            url: "https://a.com/x?t=1".to_string(),
            cleaned: Some("https://a.com/x?".to_string()),
        },
        CleanOutcome { url: "https://b.com/y".to_string(), cleaned: None },
    ];
    let report = clean_report(&outcomes);
    let expected = "*从回复文本中解析出的链接如下：*\n\n\\- [https://a\\.com/x](https://a.com/x)\n\\- [https://b\\.com/y](https://b.com/y) 解析失败";
    assert_eq!(report, expected);
}

#[test]
fn single_reply_trims_and_links() {
    let r = single_clean_reply(&Ok("https://a.com/x?".to_string()));
    assert_eq!(r, "清理后的 URL：[https://a\\.com/x](https://a.com/x)");
}

#[test]
fn single_reply_reports_error_in_code_block() {
    let r = single_clean_reply(&Err("time`out\\".to_string()));
    assert_eq!(r, "清理 URL 时出现错误：```\ntime\\`out\\\\\n```");
}
