use backend::ctx::Ctx;
use backend::html::{
    auth_status_html, avatar_url, begin_login, finish_login, index_html, is_white_space_char,
    mojang_profile_url, offline_stats_html, personalize_index, replace_str, server_stats_html,
    username_is_blank, LoginStart, MojangLookup,
};
use backend::models::{MojangResponse, Players, ServerStats};
use backend::text::decimal_string;

#[test]
fn avatar_and_profile_urls() {
    assert_eq!(avatar_url("abc"), "https://crafatar.com/avatars/abc?size=50&overlay");
    assert_eq!(mojang_profile_url("Steve"), "https://api.mojang.com/users/profiles/minecraft/Steve");
}

#[test]
fn blank_usernames() {
    assert!(username_is_blank(""));
    assert!(username_is_blank("  \t\n"));
    assert!(username_is_blank("\u{3000}\u{a0}"));
    assert!(!username_is_blank(" Steve "));
    assert!(!username_is_blank("\u{200b}"));
}

#[test]
fn white_space_matches_std() {
    for code in 0u32..0x3100 {
        if let Some(c) = char::from_u32(code) {
            assert_eq!(is_white_space_char(c), c.is_whitespace(), "char {:x}", code);
        }
    }
    for s in ["", " x ", "\u{2028}", "\u{85}a", "\u{feff}"] {
        assert_eq!(username_is_blank(s), s.trim().is_empty());
    }
}

#[test]
fn begin_login_rejects_blank_names() {
    match begin_login("   ") {
        LoginStart::Rejected(html) => assert_eq!(html, format!(r#"
            <div id='auth-section'>
                <div class='error-message'>Username cannot be empty</div>
                <button id='login-btn' class='login-btn' hx-get='/api/login-form' hx-target='#login-modal-content' hx-trigger='click' onclick="document.getElementById('login-modal').style.display='block'">Login</button>
            </div>
        "#)),
        LoginStart::Lookup(_) => panic!("a blank name must not be looked up"),
    }
    match begin_login("Steve") {
        LoginStart::Lookup(url) => assert_eq!(url, "https://api.mojang.com/users/profiles/minecraft/Steve"),
        LoginStart::Rejected(_) => panic!("expected a lookup"),
    }
}

#[test]
fn finish_login_known_user() {
    let profile = MojangResponse { id: "069a79f4".to_string() };
    let r = finish_login("Notch", MojangLookup::Found(profile));
    let avatar_url = "https://crafatar.com/avatars/069a79f4?size=50&overlay";
    let expected = format!(r#"
        <div id='auth-section'>
            <div class="user-profile">
                <img src='{}' alt='User Avatar' class='user-avatar'>
                <span class='username'>{}</span>
                <div class='dropdown-content'>
                    <a href='#' hx-get='/api/logout' hx-target='#auth-section' hx-swap='outerHTML'>Logout</a>
                </div>
            </div>
        </div>
    "#, avatar_url, "Notch");
    assert_eq!(r.html, expected);
    assert_eq!(r.auth_token, Some("minecraft-069a79f4.Notch.exp.sign".to_string()));
}

#[test]
fn finish_login_failures() {
    let r = finish_login("Notch", MojangLookup::InvalidProfile);
    assert_eq!(r.html, format!(r#"
                            <div id='auth-section'>
                                <div class='error-message'>User not found</div>
                                <button id='login-btn' class='login-btn' hx-get='/api/login-form' hx-target='#login-modal-content' hx-trigger='click' onclick="document.getElementById('login-modal').style.display='block'">Login</button>
                            </div>
                        "#));
    assert_eq!(r.auth_token, None);
    let r = finish_login("Notch", MojangLookup::NotFound);
    assert_eq!(r.html, format!(r#"
                    <div id='auth-section'>
                        <div class='error-message'>User not found</div>
                        <button id='login-btn' class='login-btn' hx-get='/api/login-form' hx-target='#login-modal-content' hx-trigger='click' onclick="document.getElementById('login-modal').style.display='block'">Login</button>
                    </div>
                "#));
    assert_eq!(r.auth_token, None);
    let r = finish_login("Notch", MojangLookup::Unreachable);
    assert_eq!(r.html, format!(r#"
                <div id='auth-section'>
                    <div class='error-message'>Error connecting to Mojang API</div>
                    <button id='login-btn' class='login-btn' hx-get='/api/login-form' hx-target='#login-modal-content' hx-trigger='click' onclick="document.getElementById('login-modal').style.display='block'">Login</button>
                </div>
            "#));
    assert_eq!(r.auth_token, None);
}

#[test]
fn auth_status_for_users_and_visitors() {
    let ctx = Ctx::new("abc".to_string(), "Alex".to_string());
    let avatar_url = "https://crafatar.com/avatars/abc?size=50&overlay";
    assert_eq!(auth_status_html(Some(&ctx)), format!(r#"
                <div class="user-profile">
                    <img src='{}' alt='User Avatar' class='user-avatar'>
                    <span class='username'>{}</span>
                    <div class='dropdown-content'>
                        <a href='#' hx-get='/api/logout' hx-target='#auth-section' hx-swap='outerHTML'>Logout</a>
                    </div>
                </div>
            "#, avatar_url, "Alex"));
    assert_eq!(auth_status_html(None), r#"
            <button id='login-btn' class='login-btn' hx-get='/api/login-form' hx-target='#login-modal-content' hx-trigger='click' onclick="document.getElementById('login-modal').style.display='block'">Login</button>
        "#.to_string());
}

fn stats(online: bool, name: &str, on: u32, max: u32) -> ServerStats {
    ServerStats { online, protocol_name: name.to_string(), players: Players { online: on, max } }
}

#[test]
fn stats_panel_online() {
    let s = stats(true, "1.21.4", 3, 20);
    let expected = format!(r#"
                    <div class="stats-placeholder">
                        <div class="stat">
                            <h3>Version</h3>
                            <p>{}</p>
                        </div>
                        <div class="stat">
                            <h3>Players Online</h3>
                            <p>{}/{}</p>
                        </div>
                        <div class="stat">
                            <h3>Status</h3>
                            <p class="{}">{}</p>
                        </div>
                    </div>
                    "#, "1.21.4", 3, 20, "status-online", "Online");
    assert_eq!(server_stats_html(&s), expected);
}

#[test]
fn stats_panel_offline_flag() {
    let s = stats(false, "Unknown", 0, 4294967295);
    let expected = format!(r#"
                    <div class="stats-placeholder">
                        <div class="stat">
                            <h3>Version</h3>
                            <p>{}</p>
                        </div>
                        <div class="stat">
                            <h3>Players Online</h3>
                            <p>{}/{}</p>
                        </div>
                        <div class="stat">
                            <h3>Status</h3>
                            <p class="{}">{}</p>
                        </div>
                    </div>
                    "#, "Unknown", 0, 4294967295u32, "status-offline", "Offline");
    assert_eq!(server_stats_html(&s), expected);
}

#[test]
fn stats_panel_unreachable() {
    assert_eq!(offline_stats_html(), format!(r#"
                    <div class="stats-placeholder">
                        <div class="stat">
                            <h3>Version</h3>
                            <p>Unknown</p>
                        </div>
                        <div class="stat">
                            <h3>Players Online</h3>
                            <p>0/0</p>
                        </div>
                        <div class="stat">
                            <h3>Status</h3>
                            <p class="status-offline">Offline</p>
                        </div>
                    </div>
                    "#));
}

const INDEX_SECTION: &str = r#"<div id='auth-section'>
                <button id='login-btn' 
                        class='login-btn'
                        hx-get='/api/login-form'
                        hx-target='#login-modal-content'
                        hx-trigger='click' 
                        onclick="document.getElementById('login-modal').style.display='block'">
                            Login
                </button>
            </div>"#;

#[test]
fn index_personalized_for_user() {
    let page = format!("<html><body>{}<main>x</main>{}</body></html>", INDEX_SECTION, INDEX_SECTION);
    let ctx = Ctx::new("abc".to_string(), "Alex".to_string());
    let avatar_url = "https://crafatar.com/avatars/abc?size=50&overlay";
    let auth_html = format!(r#"<div id='auth-section'>
                        <div class='user-profile'>
                            <img src='{}' alt='User Avatar' class='user-avatar'>
                            <span class='username'>{}</span>
                            <div class='dropdown-content'>
                                <a href='#' id="logout-txt" hx-get='/api/logout' hx-target='#auth-section' hx-swap='outerHTML'>Logout</a>
                            </div>
                        </div>
                    </div>"#, avatar_url, "Alex");
    assert_eq!(personalize_index(&page, &ctx), page.replace(INDEX_SECTION, &auth_html));
    assert_eq!(index_html(page.clone(), Some(&ctx)), page.replace(INDEX_SECTION, &auth_html));
    assert!(!personalize_index(&page, &ctx).contains("login-btn"));
}

#[test]
fn index_unchanged_for_visitors() {
    let page = format!("<p>{}</p>", INDEX_SECTION);
    assert_eq!(index_html(page.clone(), None), page);
}

#[test]
fn replace_matches_std() {
    let cases = [("aaaa", "aa", "b"), ("abcabc", "bc", "X"), ("", "a", "b"), ("xyz", "xyzw", "q"),
        ("ééé", "é", "e"), ("abab", "aba", "_"), ("hello", "l", "")];
    for (s, p, r) in cases.iter() {
        assert_eq!(replace_str(s, p, r), s.replace(p, r));
    }
}

#[test]
fn decimal_matches_to_string() {
    for n in [0u64, 1, 9, 10, 99, 100, 12345, 4294967295, u64::MAX] {
        assert_eq!(decimal_string(n), n.to_string());
    }
}

#[test]
fn replace_with_empty_pattern_matches_std() {
    for s in ["", "a", "abc", "éü"] {
        assert_eq!(replace_str(s, "", "x"), s.replace("", "x"));
    }
}
