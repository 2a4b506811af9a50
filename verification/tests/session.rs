use backend::ctx::Ctx;
use backend::error::Error;
use backend::session::{auth_token, parse_token, resolve_ctx, should_clear_session};
use regex::Regex;

fn parts(t: &str) -> Option<(String, String, String, String)> {
    parse_token(t.to_string()).ok()
}

fn regex_parts(t: &str) -> Option<(String, String, String, String)> {
    let re = Regex::new(r#"^minecraft-(.+)\.(.+)\.(.+)\.(.+)"#).unwrap();
    re.captures(t).map(|c| {
        (c[1].to_string(), c[2].to_string(), c[3].to_string(), c[4].to_string())
    })
}

#[test]
fn ctx_accessors() {
    let ctx = Ctx::new("id-1".to_string(), "Steve".to_string());
    assert_eq!(ctx.user_id(), "id-1");
    assert_eq!(ctx.username(), "Steve");
}

#[test]
fn parse_token_plain() {
    assert_eq!(
        parts("minecraft-069a79f444e94726a5befca90e38aaf5.Notch.exp.sign"),
        Some(("069a79f444e94726a5befca90e38aaf5".to_string(), "Notch".to_string(), "exp".to_string(), "sign".to_string()))
    );
}

#[test]
fn parse_token_is_greedy_from_the_left() {
    assert_eq!(
        parts("minecraft-a.b.c.d.e"),
        Some(("a.b".to_string(), "c".to_string(), "d".to_string(), "e".to_string()))
    );
}

#[test]
fn parse_token_rejects() {
    assert!(matches!(parse_token("minecraft-a.b.c".to_string()), Err(Error::AuthFailTokenWrongFormat)));
    assert!(matches!(parse_token("welcome-a.b.c.d".to_string()), Err(Error::AuthFailTokenWrongFormat)));
    assert!(matches!(parse_token("minecraft-.a.b.c".to_string()), Err(Error::AuthFailTokenWrongFormat)));
    assert!(matches!(parse_token("minecraft-a..b.c".to_string()), Err(Error::AuthFailTokenWrongFormat)));
    assert!(matches!(parse_token("".to_string()), Err(Error::AuthFailTokenWrongFormat)));
}

#[test]
fn parse_token_stops_at_line_break() {
    assert_eq!(
        parts("minecraft-a.b.c.d\n.e.f"),
        Some(("a".to_string(), "b".to_string(), "c".to_string(), "d".to_string()))
    );
    assert_eq!(parts("minecraft-a.b\n.c.d"), None);
}

#[test]
fn parse_token_agrees_with_the_regex() {
    let tokens = [
        "minecraft-a.b.c.d", "minecraft-a.b.c.d.e", "minecraft-..a.b.c", "minecraft-a...b.c",
        "minecraft-a.b.c.", "minecraft-a.b.c..", "minecraft-...........", "minecraft-x.y.z.w\nq",
        "minecraft-é.ü.ö.ß", "minecraft-a.b.c.d\r", "xminecraft-a.b.c.d", "minecraft-a.b..c.d",
        "minecraft-uuid.Steve.exp.sign", "minecraft-u.u.i.d.Alex.exp.sign", "minecraft-\n.a.b.c",
        "minecraft-ab.cd.ef.gh.ij.kl", "minecraft-a.b.c.d.", "minecraft-a.b.c.d..",
    ];
    for t in tokens.iter() {
        assert_eq!(parts(t), regex_parts(t), "token {:?}", t);
    }
}

#[test]
fn auth_token_format() {
    assert_eq!(auth_token("abc", "Steve"), "minecraft-abc.Steve.exp.sign");
}

#[test]
fn issued_token_resolves_to_the_user() {
    let token = auth_token("069a79f444e94726a5befca90e38aaf5", "Notch_2");
    let ctx = resolve_ctx(Some(token)).unwrap();
    assert_eq!(ctx.user_id(), "069a79f444e94726a5befca90e38aaf5");
    assert_eq!(ctx.username(), "Notch_2");
}

#[test]
fn resolve_ctx_errors() {
    assert!(matches!(resolve_ctx(None), Err(Error::AuthFailNoAuthTokenCookie)));
    assert!(matches!(resolve_ctx(Some("garbage".to_string())), Err(Error::AuthFailTokenWrongFormat)));
}

#[test]
fn session_cleared_only_for_bad_tokens() {
    assert!(!should_clear_session(&resolve_ctx(None)));
    assert!(should_clear_session(&resolve_ctx(Some("garbage".to_string()))));
    assert!(!should_clear_session(&resolve_ctx(Some("minecraft-a.b.c.d".to_string()))));
    assert!(should_clear_session(&Err(Error::AuthFailCtxNotInRequestExt)));
    assert!(should_clear_session(&Err(Error::ServerError("x".to_string()))));
}
