//! The HTML fragments that the handlers send back: the login answers, the
//! authentication status, the server stats panel, and the home page as a
//! logged-in user sees it.

use vstd::prelude::*;
use crate::ctx::Ctx;
use crate::models::{MojangResponse, ServerStats};
use crate::session::{auth_token, token_of};
use crate::text::{chars_of, decimal, push_char, push_decimal};
use vstd::string::StringExecFns;

verus! {

/// Mojang's profile lookup, to which the user name is appended.
pub const MOJANG_PROFILE_URL: &'static str = "https://api.mojang.com/users/profiles/minecraft/";

/// The avatar service, to which the user id is appended.
pub const AVATAR_URL_PREFIX: &'static str = "https://crafatar.com/avatars/";

/// What follows the user id in an avatar URL.
pub const AVATAR_URL_SUFFIX: &'static str = "?size=50&overlay";

/// The login answer when the user name is blank.
pub const EMPTY_USERNAME_HTML: &'static str = r#"
            <div id='auth-section'>
                <div class='error-message'>Username cannot be empty</div>
                <button id='login-btn' class='login-btn' hx-get='/api/login-form' hx-target='#login-modal-content' hx-trigger='click' onclick="document.getElementById('login-modal').style.display='block'">Login</button>
            </div>
        "#;

/// The login answer when Mojang answers without a readable profile.
pub const INVALID_PROFILE_HTML: &'static str = r#"
                            <div id='auth-section'>
                                <div class='error-message'>User not found</div>
                                <button id='login-btn' class='login-btn' hx-get='/api/login-form' hx-target='#login-modal-content' hx-trigger='click' onclick="document.getElementById('login-modal').style.display='block'">Login</button>
                            </div>
                        "#;

/// The login answer when Mojang knows no such user.
pub const USER_NOT_FOUND_HTML: &'static str = r#"
                    <div id='auth-section'>
                        <div class='error-message'>User not found</div>
                        <button id='login-btn' class='login-btn' hx-get='/api/login-form' hx-target='#login-modal-content' hx-trigger='click' onclick="document.getElementById('login-modal').style.display='block'">Login</button>
                    </div>
                "#;

/// The login answer when Mojang cannot be reached.
pub const MOJANG_UNREACHABLE_HTML: &'static str = r#"
                <div id='auth-section'>
                    <div class='error-message'>Error connecting to Mojang API</div>
                    <button id='login-btn' class='login-btn' hx-get='/api/login-form' hx-target='#login-modal-content' hx-trigger='click' onclick="document.getElementById('login-modal').style.display='block'">Login</button>
                </div>
            "#;

/// The login answer for a known user, before the avatar URL.
pub const LOGIN_SUCCESS_HTML_0: &'static str = r#"
        <div id='auth-section'>
            <div class="user-profile">
                <img src='"#;

/// The login answer for a known user, between the avatar URL and the name.
pub const LOGIN_SUCCESS_HTML_1: &'static str = r#"' alt='User Avatar' class='user-avatar'>
                <span class='username'>"#;

/// The login answer for a known user, after the name.
pub const LOGIN_SUCCESS_HTML_2: &'static str = r#"</span>
                <div class='dropdown-content'>
                    <a href='#' hx-get='/api/logout' hx-target='#auth-section' hx-swap='outerHTML'>Logout</a>
                </div>
            </div>
        </div>
    "#;

/// The profile shown to a logged-in user, before the avatar URL.
pub const AUTH_PROFILE_HTML_0: &'static str = r#"
                <div class="user-profile">
                    <img src='"#;

/// The profile shown to a logged-in user, between the avatar URL and the name.
pub const AUTH_PROFILE_HTML_1: &'static str = r#"' alt='User Avatar' class='user-avatar'>
                    <span class='username'>"#;

/// The profile shown to a logged-in user, after the name.
pub const AUTH_PROFILE_HTML_2: &'static str = r#"</span>
                    <div class='dropdown-content'>
                        <a href='#' hx-get='/api/logout' hx-target='#auth-section' hx-swap='outerHTML'>Logout</a>
                    </div>
                </div>
            "#;

/// The login button shown to a visitor who is not logged in.
pub const LOGIN_BUTTON_HTML: &'static str = r#"
            <button id='login-btn' class='login-btn' hx-get='/api/login-form' hx-target='#login-modal-content' hx-trigger='click' onclick="document.getElementById('login-modal').style.display='block'">Login</button>
        "#;

/// The stats panel of a server that answered, before the version.
pub const STATS_HTML_0: &'static str = r#"
                    <div class="stats-placeholder">
                        <div class="stat">
                            <h3>Version</h3>
                            <p>"#;

/// The stats panel of a server that answered, between the version and the players online.
pub const STATS_HTML_1: &'static str = r#"</p>
                        </div>
                        <div class="stat">
                            <h3>Players Online</h3>
                            <p>"#;

/// The stats panel of a server that answered, between the players online and the slots.
pub const STATS_HTML_2: &'static str = r#"/"#;

/// The stats panel of a server that answered, between the slots and the status class.
pub const STATS_HTML_3: &'static str = r#"</p>
                        </div>
                        <div class="stat">
                            <h3>Status</h3>
                            <p class=""#;

/// The stats panel of a server that answered, between the status class and the status text.
pub const STATS_HTML_4: &'static str = r#"">"#;

/// The stats panel of a server that answered, after the status text.
pub const STATS_HTML_5: &'static str = r#"</p>
                        </div>
                    </div>
                    "#;

/// The stats panel when the server could not be queried.
pub const OFFLINE_STATS_HTML: &'static str = r#"
                    <div class="stats-placeholder">
                        <div class="stat">
                            <h3>Version</h3>
                            <p>Unknown</p>
                        </div>
                        <div class="stat">
                            <h3>Players Online</h3>
                            <p>0/0</p>
                        </div>
                        <div class="stat">
                            <h3>Status</h3>
                            <p class="status-offline">Offline</p>
                        </div>
                    </div>
                    "#;

/// The authentication section of the home page for a logged-in user, before the avatar URL.
pub const INDEX_AUTH_HTML_0: &'static str = r#"<div id='auth-section'>
                        <div class='user-profile'>
                            <img src='"#;

/// The authentication section of the home page for a logged-in user, between the avatar URL and the name.
pub const INDEX_AUTH_HTML_1: &'static str = r#"' alt='User Avatar' class='user-avatar'>
                            <span class='username'>"#;

/// The authentication section of the home page for a logged-in user, after the name.
pub const INDEX_AUTH_HTML_2: &'static str = r#"</span>
                            <div class='dropdown-content'>
                                <a href='#' id="logout-txt" hx-get='/api/logout' hx-target='#auth-section' hx-swap='outerHTML'>Logout</a>
                            </div>
                        </div>
                    </div>"#;

/// The authentication section of the home page as it is served to visitors.
pub const INDEX_LOGIN_SECTION: &'static str = r#"<div id='auth-section'>
                <button id='login-btn' 
                        class='login-btn'
                        hx-get='/api/login-form'
                        hx-target='#login-modal-content'
                        hx-trigger='click' 
                        onclick="document.getElementById('login-modal').style.display='block'">
                            Login
                </button>
            </div>"#;

/// The URL of a user's avatar picture.
pub open spec fn avatar_url_of(user_id: Seq<char>) -> Seq<char> {
    AVATAR_URL_PREFIX@ + user_id + AVATAR_URL_SUFFIX@
}

/// The login answer for a known user.
pub open spec fn login_success_html(user_id: Seq<char>, username: Seq<char>) -> Seq<char> {
    LOGIN_SUCCESS_HTML_0@ + avatar_url_of(user_id) + LOGIN_SUCCESS_HTML_1@ + username
        + LOGIN_SUCCESS_HTML_2@
}

/// The profile shown to a logged-in user.
pub open spec fn auth_profile_html(user_id: Seq<char>, username: Seq<char>) -> Seq<char> {
    AUTH_PROFILE_HTML_0@ + avatar_url_of(user_id) + AUTH_PROFILE_HTML_1@ + username
        + AUTH_PROFILE_HTML_2@
}

/// The stats panel of a server that answered.
pub open spec fn stats_html(version: Seq<char>, online: nat, max: nat, up: bool) -> Seq<char> {
    STATS_HTML_0@ + version + STATS_HTML_1@ + decimal(online) + STATS_HTML_2@ + decimal(max)
        + STATS_HTML_3@ + (if up {
        "status-online"@
    } else {
        "status-offline"@
    }) + STATS_HTML_4@ + (if up {
        "Online"@
    } else {
        "Offline"@
    }) + STATS_HTML_5@
}

/// The authentication section of the home page for a logged-in user.
pub open spec fn index_auth_html(user_id: Seq<char>, username: Seq<char>) -> Seq<char> {
    INDEX_AUTH_HTML_0@ + avatar_url_of(user_id) + INDEX_AUTH_HTML_1@ + username
        + INDEX_AUTH_HTML_2@
}

/// `rep` before, between and after the characters of `s` (what
/// `str::replace` gives for an empty pattern, which matches at every position).
pub open spec fn interleave(s: Seq<char>, rep: Seq<char>) -> Seq<char>
    decreases s.len(),
{
    if s.len() == 0 {
        rep
    } else {
        rep + seq![s[0]] + interleave(s.drop_first(), rep)
    }
}

/// `s` with every occurrence of the pattern `pat` replaced by `rep`,
/// occurrences taken from the left and not overlapping (what `str::replace`
/// does); an empty pattern matches before, between and after all characters.
pub open spec fn replace_all(s: Seq<char>, pat: Seq<char>, rep: Seq<char>) -> Seq<char>
    decreases s.len(),
{
    if pat.len() == 0 {
        interleave(s, rep)
    } else if s.len() < pat.len() {
        s
    } else if s.take(pat.len() as int) == pat {
        rep + replace_all(s.skip(pat.len() as int), pat, rep)
    } else {
        seq![s[0]] + replace_all(s.drop_first(), pat, rep)
    }
}

/// Whether `c` has the Unicode White_Space property (what `char::is_whitespace` tests).
pub open spec fn is_white_space(c: char) -> bool {
    let u = c as u32;
    (9 <= u <= 13) || u == 32 || u == 0x85 || u == 0xA0 || u == 0x1680 || (0x2000 <= u <= 0x200A)
        || u == 0x2028 || u == 0x2029 || u == 0x202F || u == 0x205F || u == 0x3000
}

/// Whether `s` is empty once white space is trimmed from both ends.
pub open spec fn is_blank(s: Seq<char>) -> bool {
    forall|i: int| 0 <= i < s.len() ==> is_white_space(s[i])
}

/// Two stats panels that differ only in the players online differ only in
/// that number's digits; and the status shown follows the online flag alone:
/// `status-online">Online` for a server that is up, `status-offline">Offline`
/// for one that is not, whatever its player counts.
pub proof fn lemma_stats_status_follows_flag(version: Seq<char>, o1: nat, o2: nat, max: nat, up: bool)
    ensures
        ({
            let lead = STATS_HTML_0@ + version + STATS_HTML_1@;
            let h1 = stats_html(version, o1, max, up);
            let h2 = stats_html(version, o2, max, up);
            let at = (lead + decimal(o1) + STATS_HTML_2@ + decimal(max) + STATS_HTML_3@).len() as int;
            &&& h1.take(lead.len() as int) == h2.take(lead.len() as int)
            &&& h1.skip((lead + decimal(o1)).len() as int) == h2.skip((lead + decimal(o2)).len() as int)
            &&& up ==> h1.subrange(at, at + "status-online\">Online"@.len()) == "status-online\">Online"@
            &&& !up ==> h1.subrange(at, at + "status-offline\">Offline"@.len())
                == "status-offline\">Offline"@
        }),
{
    reveal_strlit("status-online");
    reveal_strlit("status-offline");
    reveal_strlit("Online");
    reveal_strlit("Offline");
    reveal_strlit(r#"">"#);
    reveal_strlit("status-online\">Online");
    reveal_strlit("status-offline\">Offline");
    let lead = STATS_HTML_0@ + version + STATS_HTML_1@;
    let rest = STATS_HTML_2@ + decimal(max) + STATS_HTML_3@;
    let tail = (if up {
        "status-online"@
    } else {
        "status-offline"@
    }) + STATS_HTML_4@ + (if up {
        "Online"@
    } else {
        "Offline"@
    }) + STATS_HTML_5@;
    let h1 = stats_html(version, o1, max, up);
    let h2 = stats_html(version, o2, max, up);
    assert(h1 =~= lead + decimal(o1) + (rest + tail));
    assert(h2 =~= lead + decimal(o2) + (rest + tail));
    assert(h1.take(lead.len() as int) =~= lead);
    assert(h2.take(lead.len() as int) =~= lead);
    assert(h1.skip((lead + decimal(o1)).len() as int) =~= rest + tail);
    assert(h2.skip((lead + decimal(o2)).len() as int) =~= rest + tail);
    let at = (lead + decimal(o1) + rest).len() as int;
    assert(h1 =~= (lead + decimal(o1) + rest) + tail);
    if up {
        assert(h1.subrange(at, at + "status-online\">Online"@.len()) =~= "status-online\">Online"@);
    } else {
        assert(h1.subrange(at, at + "status-offline\">Offline"@.len()) =~= "status-offline\">Offline"@);
    }
}

/// The login answer for a known user holds the user name exactly as given,
/// right after the avatar; two answers for the same user id and different
/// names agree everywhere else.
pub proof fn lemma_login_html_holds_name(user_id: Seq<char>, name: Seq<char>, other: Seq<char>)
    ensures
        ({
            let at = (LOGIN_SUCCESS_HTML_0@ + avatar_url_of(user_id) + LOGIN_SUCCESS_HTML_1@).len() as int;
            let h = login_success_html(user_id, name);
            let g = login_success_html(user_id, other);
            &&& h.subrange(at, at + name.len()) == name
            &&& h.take(at) == g.take(at)
            &&& h.skip(at + name.len()) == g.skip(at + other.len())
        }),
{
    let lead = LOGIN_SUCCESS_HTML_0@ + avatar_url_of(user_id) + LOGIN_SUCCESS_HTML_1@;
    let h = login_success_html(user_id, name);
    let g = login_success_html(user_id, other);
    assert(h =~= lead + name + LOGIN_SUCCESS_HTML_2@);
    assert(g =~= lead + other + LOGIN_SUCCESS_HTML_2@);
    assert(h.subrange(lead.len() as int, lead.len() as int + name.len()) =~= name);
    assert(h.take(lead.len() as int) =~= lead);
    assert(g.take(lead.len() as int) =~= lead);
    assert(h.skip(lead.len() as int + name.len()) =~= LOGIN_SUCCESS_HTML_2@);
    assert(g.skip(lead.len() as int + other.len()) =~= LOGIN_SUCCESS_HTML_2@);
}

/// The profile shown to a logged-in user holds the user name exactly as it
/// is in the context, right after the avatar; two profiles for the same user
/// id and different names agree everywhere else.
pub proof fn lemma_profile_html_holds_name(user_id: Seq<char>, name: Seq<char>, other: Seq<char>)
    ensures
        ({
            let at = (AUTH_PROFILE_HTML_0@ + avatar_url_of(user_id) + AUTH_PROFILE_HTML_1@).len() as int;
            let h = auth_profile_html(user_id, name);
            let g = auth_profile_html(user_id, other);
            &&& h.subrange(at, at + name.len()) == name
            &&& h.take(at) == g.take(at)
            &&& h.skip(at + name.len()) == g.skip(at + other.len())
        }),
{
    let lead = AUTH_PROFILE_HTML_0@ + avatar_url_of(user_id) + AUTH_PROFILE_HTML_1@;
    let h = auth_profile_html(user_id, name);
    let g = auth_profile_html(user_id, other);
    assert(h =~= lead + name + AUTH_PROFILE_HTML_2@);
    assert(g =~= lead + other + AUTH_PROFILE_HTML_2@);
    assert(h.subrange(lead.len() as int, lead.len() as int + name.len()) =~= name);
    assert(h.take(lead.len() as int) =~= lead);
    assert(g.take(lead.len() as int) =~= lead);
    assert(h.skip(lead.len() as int + name.len()) =~= AUTH_PROFILE_HTML_2@);
    assert(g.skip(lead.len() as int + other.len()) =~= AUTH_PROFILE_HTML_2@);
}

/// Whether `c` is white space.
pub fn is_white_space_char(c: char) -> (r: bool)
    ensures
        r == is_white_space(c),
{
    let u = c as u32;
    (9 <= u && u <= 13) || u == 32 || u == 0x85 || u == 0xA0 || u == 0x1680 || (0x2000 <= u && u
        <= 0x200A) || u == 0x2028 || u == 0x2029 || u == 0x202F || u == 0x205F || u == 0x3000
}

/// Whether the user name is empty once white space is trimmed (`trim().is_empty()`).
pub fn username_is_blank(username: &str) -> (r: bool)
    ensures
        r == is_blank(username@),
{
    let chars = chars_of(username);
    let mut i: usize = 0;
    while i < chars.len()
        invariant
            i <= chars@.len(),
            chars@ == username@,
            forall|j: int| 0 <= j < i ==> is_white_space(chars@[j]),
        decreases chars@.len() - i,
    {
        if !is_white_space_char(chars[i]) {
            return false;
        }
        i = i + 1;
    }
    true
}

/// The URL of a user's avatar picture.
pub fn avatar_url(user_id: &str) -> (r: String)
    ensures
        r@ == avatar_url_of(user_id@),
{
    let mut r = String::from_str(AVATAR_URL_PREFIX);
    r.append(user_id);
    r.append(AVATAR_URL_SUFFIX);
    r
}

/// The URL at which Mojang answers with the profile of the user of this name.
pub fn mojang_profile_url(username: &str) -> (r: String)
    ensures
        r@ == MOJANG_PROFILE_URL@ + username@,
{
    let mut r = String::from_str(MOJANG_PROFILE_URL);
    r.append(username);
    r
}

/// What Mojang's profile lookup gave.
pub enum MojangLookup {
    /// The lookup succeeded and answered with this profile.
    Found(MojangResponse),
    /// The lookup succeeded but its answer is not a profile.
    InvalidProfile,
    /// The lookup answered with a failure status.
    NotFound,
    /// The lookup could not be made.
    Unreachable,
}

/// How a login starts.
pub enum LoginStart {
    /// The login is refused at once; the answer to send.
    Rejected(String),
    /// The user must be looked up at this URL.
    Lookup(String),
}

/// How a login ends: the answer to send, and the session token to store in
/// the cookie when the user is logged in.
pub struct LoginResponse {
    pub html: String,
    pub auth_token: Option<String>,
}

/// The first step of a login: a blank user name is refused, any other is
/// looked up at Mojang.
pub fn begin_login(username: &str) -> (s: LoginStart)
    ensures
        is_blank(username@) ==> (s matches LoginStart::Rejected(h) && h@ == EMPTY_USERNAME_HTML@),
        !is_blank(username@) ==> (s matches LoginStart::Lookup(u) && u@ == MOJANG_PROFILE_URL@
            + username@),
{
    if username_is_blank(username) {
        LoginStart::Rejected(String::from_str(EMPTY_USERNAME_HTML))
    } else {
        LoginStart::Lookup(mojang_profile_url(username))
    }
}

/// The last step of a login, from what the lookup gave: a known user is
/// welcomed with a session token; otherwise the answer says what went wrong.
pub fn finish_login(username: &str, lookup: MojangLookup) -> (r: LoginResponse)
    ensures
        match lookup {
            MojangLookup::Found(profile) => r.html@ == login_success_html(profile.id@, username@)
                && (r.auth_token matches Some(t) && t@ == token_of(profile.id@, username@)),
            MojangLookup::InvalidProfile => r.html@ == INVALID_PROFILE_HTML@ && r.auth_token is None,
            MojangLookup::NotFound => r.html@ == USER_NOT_FOUND_HTML@ && r.auth_token is None,
            MojangLookup::Unreachable => r.html@ == MOJANG_UNREACHABLE_HTML@ && r.auth_token is None,
        },
{
    match lookup {
        MojangLookup::Found(profile) => {
            let token = auth_token(profile.id.as_str(), username);
            let url = avatar_url(profile.id.as_str());
            let mut html = String::from_str(LOGIN_SUCCESS_HTML_0);
            html.append(url.as_str());
            html.append(LOGIN_SUCCESS_HTML_1);
            html.append(username);
            html.append(LOGIN_SUCCESS_HTML_2);
            LoginResponse { html, auth_token: Some(token) }
        },
        MojangLookup::InvalidProfile => LoginResponse {
            html: String::from_str(INVALID_PROFILE_HTML),
            auth_token: None,
        },
        MojangLookup::NotFound => LoginResponse {
            html: String::from_str(USER_NOT_FOUND_HTML),
            auth_token: None,
        },
        MojangLookup::Unreachable => LoginResponse {
            html: String::from_str(MOJANG_UNREACHABLE_HTML),
            auth_token: None,
        },
    }
}

/// The authentication status: the profile of the logged-in user, or the login button.
pub fn auth_status_html(ctx: Option<&Ctx>) -> (r: String)
    ensures
        match ctx {
            Some(c) => r@ == auth_profile_html(c@.0, c@.1),
            None => r@ == LOGIN_BUTTON_HTML@,
        },
{
    match ctx {
        Some(c) => {
            let url = avatar_url(c.user_id());
            let mut html = String::from_str(AUTH_PROFILE_HTML_0);
            html.append(url.as_str());
            html.append(AUTH_PROFILE_HTML_1);
            html.append(c.username());
            html.append(AUTH_PROFILE_HTML_2);
            html
        },
        None => String::from_str(LOGIN_BUTTON_HTML),
    }
}

/// The stats panel of a server that answered.
pub fn server_stats_html(stats: &ServerStats) -> (r: String)
    ensures
        r@ == stats_html(
            stats.protocol_name@,
            stats.players.online as nat,
            stats.players.max as nat,
            stats.online,
        ),
{
    let mut html = String::from_str(STATS_HTML_0);
    html.append(stats.protocol_name.as_str());
    html.append(STATS_HTML_1);
    push_decimal(&mut html, stats.players.online as u64);
    html.append(STATS_HTML_2);
    push_decimal(&mut html, stats.players.max as u64);
    html.append(STATS_HTML_3);
    if stats.online {
        html.append("status-online");
    } else {
        html.append("status-offline");
    }
    html.append(STATS_HTML_4);
    if stats.online {
        html.append("Online");
    } else {
        html.append("Offline");
    }
    html.append(STATS_HTML_5);
    html
}

/// The stats panel when the server could not be queried.
pub fn offline_stats_html() -> (r: String)
    ensures
        r@ == OFFLINE_STATS_HTML@,
{
    String::from_str(OFFLINE_STATS_HTML)
}

/// Whether `pat` occurs in `chars` at `i`.
fn occurs_at(chars: &Vec<char>, i: usize, pat: &Vec<char>) -> (r: bool)
    requires
        i <= chars@.len(),
    ensures
        r == (i + pat@.len() <= chars@.len() && chars@.subrange(i as int, i + pat@.len()) == pat@),
{
    if chars.len() - i < pat.len() {
        return false;
    }
    let total = chars.len();
    let mut k: usize = 0;
    while k < pat.len()
        invariant
            total == chars@.len(),
            i + pat@.len() <= chars@.len(),
            k <= pat@.len(),
            forall|j: int| 0 <= j < k ==> chars@[i + j] == pat@[j],
        decreases pat@.len() - k,
    {
        if chars[i + k] != pat[k] {
            assert(chars@.subrange(i as int, i + pat@.len())[k as int] != pat@[k as int]);
            return false;
        }
        k = k + 1;
    }
    assert(chars@.subrange(i as int, i + pat@.len()) =~= pat@);
    true
}

proof fn lemma_replace_short(s: Seq<char>, pat: Seq<char>, rep: Seq<char>)
    requires
        s.len() < pat.len(),
    ensures
        replace_all(s, pat, rep) == s,
{
}

/// `rep` before, between and after the characters of `s` (`s.replace("", rep)`).
fn interleave_str(s: &str, rep: &str) -> (r: String)
    ensures
        r@ == interleave(s@, rep@),
{
    let chars = chars_of(s);
    let n = chars.len();
    let mut out = String::new();
    let mut i: usize = 0;
    assert(chars@.skip(0) =~= chars@);
    while i < n
        invariant
            i <= n,
            n == chars@.len(),
            chars@ == s@,
            out@ + interleave(chars@.skip(i as int), rep@) == interleave(s@, rep@),
        decreases n - i,
    {
        let ghost rest = chars@.skip(i as int);
        let ghost before = out@;
        out.append(rep);
        push_char(&mut out, chars[i]);
        i = i + 1;
        assert(rest.drop_first() =~= chars@.skip(i as int));
        assert(out@ + interleave(chars@.skip(i as int), rep@) =~= before + interleave(rest, rep@));
    }
    assert(chars@.skip(n as int) =~= Seq::<char>::empty());
    out.append(rep);
    out
}

/// `s` with every occurrence of `pat` replaced by `rep` (`s.replace(pat, rep)`).
pub fn replace_str(s: &str, pat: &str, rep: &str) -> (r: String)
    ensures
        r@ == replace_all(s@, pat@, rep@),
{
    if pat.is_empty() {
        return interleave_str(s, rep);
    }
    let chars = chars_of(s);
    let pchars = chars_of(pat);
    let n = chars.len();
    let m = pchars.len();
    let mut out = String::new();
    let mut i: usize = 0;
    assert(chars@.skip(0) =~= chars@);
    while i < n
        invariant
            i <= n,
            n == chars@.len(),
            m == pchars@.len(),
            m > 0,
            chars@ == s@,
            pchars@ == pat@,
            out@ + replace_all(chars@.skip(i as int), pat@, rep@) == replace_all(s@, pat@, rep@),
        decreases n - i,
    {
        let ghost rest = chars@.skip(i as int);
        let ghost before = out@;
        if occurs_at(&chars, i, &pchars) {
            assert(rest.take(m as int) =~= chars@.subrange(i as int, i + m));
            out.append(rep);
            i = i + m;
            assert(rest.skip(m as int) =~= chars@.skip(i as int));
            assert(out@ + replace_all(chars@.skip(i as int), pat@, rep@) =~= before + replace_all(
                rest,
                pat@,
                rep@,
            ));
        } else {
            let c = chars[i];
            push_char(&mut out, c);
            i = i + 1;
            proof {
                assert(rest.drop_first() =~= chars@.skip(i as int));
                if rest.len() < m {
                    lemma_replace_short(rest, pat@, rep@);
                    lemma_replace_short(rest.drop_first(), pat@, rep@);
                    assert(rest =~= seq![c] + rest.drop_first());
                } else {
                    assert(rest.take(m as int) =~= chars@.subrange((i - 1) as int, i - 1 + m));
                }
            }
            assert(out@ + replace_all(chars@.skip(i as int), pat@, rep@) =~= before + replace_all(
                rest,
                pat@,
                rep@,
            ));
        }
    }
    assert(chars@.skip(n as int) =~= Seq::<char>::empty());
    assert(out@ + Seq::<char>::empty() =~= out@);
    out
}

/// The home page for a logged-in user: its authentication section, wherever
/// it occurs, is replaced by the user's profile.
pub fn personalize_index(html: &str, ctx: &Ctx) -> (r: String)
    ensures
        r@ == replace_all(html@, INDEX_LOGIN_SECTION@, index_auth_html(ctx@.0, ctx@.1)),
{
    let url = avatar_url(ctx.user_id());
    let mut auth = String::from_str(INDEX_AUTH_HTML_0);
    auth.append(url.as_str());
    auth.append(INDEX_AUTH_HTML_1);
    auth.append(ctx.username());
    auth.append(INDEX_AUTH_HTML_2);
    replace_str(html, INDEX_LOGIN_SECTION, auth.as_str())
}

/// The home page as this request's visitor sees it: personalized for a
/// logged-in user, as it is for anyone else.
pub fn index_html(html: String, ctx: Option<&Ctx>) -> (r: String)
    ensures
        match ctx {
            Some(c) => r@ == replace_all(html@, INDEX_LOGIN_SECTION@, index_auth_html(c@.0, c@.1)),
            None => r@ == html@,
        },
{
    match ctx {
        Some(c) => personalize_index(html.as_str(), c),
        None => html,
    }
}

} // verus!
