//! The environment that a game is started with.

use uuid::Uuid;
use vstd::prelude::*;
use crate::launch::types::{LaunchMode, Mode};
use crate::number;
use crate::number::decimal_text;
use crate::text;
use crate::text::push_pair;

verus! {

/// What is known of the session when a game is started. A variable of the launcher's own
/// environment that is not set is `None`.
pub struct SessionInfo {
    /// The ID of this launch, which no other launch has.
    pub launch_id: String,
    /// `EAEntitlementSource`.
    pub entitlement_source: Option<String>,
    /// `EAExternalSource`.
    pub external_source: Option<String>,
    /// `EAGameLocale`.
    pub game_locale: Option<String>,
    /// `EALaunchOwner`.
    pub launch_owner: Option<String>,
    /// The locale of the launcher.
    pub locale: String,
    /// The name that the player is shown by, where the user has a player.
    pub player_name: Option<String>,
    pub user_id: String,
    /// The port that the game talks to the launcher on.
    pub lsx_port: u16,
    /// The answer to the game's handshake.
    pub rtp_code: String,
}

/// Whether a character is a hexadecimal digit in lower case.
pub open spec fn is_hex(c: char) -> bool {
    number::is_digit(c) || 0x61 <= c as u32 <= 0x66
}

/// Whether a text is a random UUID: 32 hexadecimal digits in five groups with hyphens between
/// them, of which one tells the version and one the variant.
pub open spec fn is_random_uuid(s: Seq<char>) -> bool {
    &&& s.len() == 36
    &&& s[8] == '-' && s[13] == '-' && s[18] == '-' && s[23] == '-'
    &&& forall|i: int|
        0 <= i < 36 && i != 8 && i != 13 && i != 18 && i != 23 ==> is_hex(#[trigger] s[i])
    &&& s[14] == '4'
    &&& s[19] == '8' || s[19] == '9' || s[19] == 'a' || s[19] == 'b'
}

/// Calls `Uuid::new_v4` and writes the UUID down with hyphens and in lower case. The system's
/// random numbers decide which one it is; only its form is stated.
#[verifier::external_body]
fn new_uuid() -> (r: String)
    ensures
        is_random_uuid(r@),
{
    Uuid::new_v4().to_string()
}

impl SessionInfo {
    /// The same with a launch ID of its own.
    pub fn with_new_launch_id(self) -> (r: Self)
        ensures
            is_random_uuid(r.launch_id@),
            r == (SessionInfo { launch_id: r.launch_id, ..self }),
    {
        SessionInfo { launch_id: new_uuid(), ..self }
    }
}

/// A variable's value, or the text that stands for it where it is not set.
pub open spec fn value_or(value: Option<String>, default: Seq<char>) -> Seq<char> {
    match value {
        Some(v) => v@,
        None => default,
    }
}

fn text_or(value: &Option<String>, default: &str) -> (r: String)
    ensures
        r@ == value_or(*value, default@),
{
    match value {
        Some(v) => v.clone(),
        None => default.to_owned(),
    }
}

/// The variables that every launch sets. The locale is fixed to American English: the
/// game's entitlement check fails with another one.
pub open spec fn session_env(
    session: SessionInfo,
    player_name: Seq<char>,
    access_token: Seq<char>,
    content_id: Seq<char>,
) -> Seq<(Seq<char>, Seq<char>)> {
    seq![
        ("LANG"@, "en_US.UTF-8"@),
        ("LC_ALL"@, "en_US.UTF-8"@),
        ("MXLaunchId"@, session.launch_id@),
        ("EAAuthCode"@, "unavailable"@),
        ("EAEgsProxyIpcPort"@, "0"@),
        ("EAEntitlementSource"@, value_or(session.entitlement_source, "EA"@)),
        ("EAExternalSource"@, value_or(session.external_source, "EA"@)),
        ("EAFreeTrialGame"@, "false"@),
        ("EAGameLocale"@, value_or(session.game_locale, session.locale@)),
        ("EAGenericAuthToken"@, access_token),
        ("EALaunchCode"@, "unavailable"@),
        ("EALaunchOwner"@, value_or(session.launch_owner, "EA"@)),
        ("EALaunchEAID"@, player_name),
        ("EALaunchEnv"@, "production"@),
        ("EALaunchOfflineMode"@, "false"@),
        ("EALsxPort"@, number::decimal(session.lsx_port as nat)),
        ("EARtPLaunchCode"@, session.rtp_code@),
        ("EASecureLaunchTokenTemp"@, session.user_id@),
        ("EASteamProxyIpcPort"@, "0"@),
        ("OriginSessionKey"@, session.launch_id@),
        ("ContentId"@, content_id),
        ("EAOnErrorExitRetCode"@, "1"@),
    ]
}

/// The variables that a mode adds. The short token is for the online mode alone.
pub open spec fn mode_env(mode: Mode, short_token: Seq<char>, access_token: Seq<char>) -> Seq<
    (Seq<char>, Seq<char>),
> {
    match mode {
        Mode::Offline(_) => seq![],
        Mode::Online(offer_id) => seq![
            ("EAConnectionId"@, offer_id),
            ("EALicenseToken"@, offer_id),
            ("EALaunchUserAuthToken"@, short_token),
            ("EAAccessTokenJWS"@, access_token),
        ],
        Mode::OnlineOffline(_, persona, password) => seq![
            ("EALaunchOOAUserEmail"@, persona),
            ("EALaunchOOAUserPass"@, password),
            ("EAOnErrorExitRetCode"@, "1"@),
        ],
    }
}

/// The variables that every launch sets.
pub fn session_variables(
    session: &SessionInfo,
    player_name: &str,
    access_token: &str,
    content_id: &str,
) -> (r: Vec<(String, String)>)
    ensures
        text::pair_views(r@) == session_env(*session, player_name@, access_token@, content_id@),
{
    let mut env: Vec<(String, String)> = Vec::new();
    let launch_id = session.launch_id.as_str();
    push_pair(&mut env, "LANG", "en_US.UTF-8");
    push_pair(&mut env, "LC_ALL", "en_US.UTF-8");
    push_pair(&mut env, "MXLaunchId", launch_id);
    push_pair(&mut env, "EAAuthCode", "unavailable");
    push_pair(&mut env, "EAEgsProxyIpcPort", "0");
    push_pair(&mut env, "EAEntitlementSource", text_or(&session.entitlement_source, "EA").as_str());
    push_pair(&mut env, "EAExternalSource", text_or(&session.external_source, "EA").as_str());
    push_pair(&mut env, "EAFreeTrialGame", "false");
    push_pair(
        &mut env,
        "EAGameLocale",
        text_or(&session.game_locale, session.locale.as_str()).as_str(),
    );
    push_pair(&mut env, "EAGenericAuthToken", access_token);
    push_pair(&mut env, "EALaunchCode", "unavailable");
    push_pair(&mut env, "EALaunchOwner", text_or(&session.launch_owner, "EA").as_str());
    push_pair(&mut env, "EALaunchEAID", player_name);
    push_pair(&mut env, "EALaunchEnv", "production");
    push_pair(&mut env, "EALaunchOfflineMode", "false");
    push_pair(&mut env, "EALsxPort", decimal_text(session.lsx_port as u64).as_str());
    push_pair(&mut env, "EARtPLaunchCode", session.rtp_code.as_str());
    push_pair(&mut env, "EASecureLaunchTokenTemp", session.user_id.as_str());
    push_pair(&mut env, "EASteamProxyIpcPort", "0");
    push_pair(&mut env, "OriginSessionKey", launch_id);
    push_pair(&mut env, "ContentId", content_id);
    push_pair(&mut env, "EAOnErrorExitRetCode", "1");
    assert(text::pair_views(env@) =~= session_env(
        *session,
        player_name@,
        access_token@,
        content_id@,
    ));
    env
}

/// Adds the variables of a mode.
pub fn add_mode_variables(
    env: &mut Vec<(String, String)>,
    mode: &LaunchMode,
    short_token: &str,
    access_token: &str,
)
    ensures
        text::pair_views(final(env)@) == text::pair_views(old(env)@) + mode_env(
            mode@,
            short_token@,
            access_token@,
        ),
{
    match mode {
        LaunchMode::Offline(_) => {},
        LaunchMode::Online(offer_id) => {
            push_pair(env, "EAConnectionId", offer_id.as_str());
            push_pair(env, "EALicenseToken", offer_id.as_str());
            push_pair(env, "EALaunchUserAuthToken", short_token);
            push_pair(env, "EAAccessTokenJWS", access_token);
        },
        LaunchMode::OnlineOffline(_, persona, password) => {
            push_pair(env, "EALaunchOOAUserEmail", persona.as_str());
            push_pair(env, "EALaunchOOAUserPass", password.as_str());
            push_pair(env, "EAOnErrorExitRetCode", "1");
        },
    }
    assert(text::pair_views(env@) =~= text::pair_views(old(env)@) + mode_env(
        mode@,
        short_token@,
        access_token@,
    ));
}

/// The request for the token that a game is given in the online mode.
pub struct TokenRequest {
    pub access_token: String,
    pub token_format: String,
    /// Seconds.
    pub expires_in: u32,
    pub scopes: Vec<String>,
}

/// The scopes that EA Desktop asks for.
pub open spec fn token_scopes() -> Seq<Seq<char>> {
    seq![
        "basic.commerce.cartv2"@,
        "service.atom"@,
        "dp.client.default"@,
        "signin"@,
        "social_recommendation_user"@,
        "basic.optin.write"@,
        "basic.commerce.cartv2.write"@,
        "basic.billing"@,
        "external.social_information_ups_admin"@,
    ]
}

/// The request for the token that a game is given in the online mode.
pub fn request_opaque_ooa_token(access_token: &str) -> (r: TokenRequest)
    ensures
        r.access_token@ == access_token@,
        r.token_format@ == "OPAQUE"@,
        r.expires_in == 550,
        text::views(r.scopes@) == token_scopes(),
{
    let scopes = vec![
        "basic.commerce.cartv2".to_owned(),
        "service.atom".to_owned(),
        "dp.client.default".to_owned(),
        "signin".to_owned(),
        "social_recommendation_user".to_owned(),
        "basic.optin.write".to_owned(),
        "basic.commerce.cartv2.write".to_owned(),
        "basic.billing".to_owned(),
        "external.social_information_ups_admin".to_owned(),
    ];
    assert(text::views(scopes@) =~= token_scopes());
    TokenRequest {
        access_token: access_token.to_owned(),
        token_format: "OPAQUE".to_owned(),
        expires_in: 550,
        scopes,
    }
}

/// Whether a list sets a variable, and which value it leaves it with: the last one counts.
pub open spec fn sets(env: Seq<(Seq<char>, Seq<char>)>, name: Seq<char>, value: Seq<char>) -> bool {
    exists|i: int|
        0 <= i < env.len() && #[trigger] env[i] == (name, value) && forall|j: int|
            i < j < env.len() ==> (#[trigger] env[j]).0 != name
}

/// A game is always started with the American English locale.
pub proof fn games_run_in_english(
    session: SessionInfo,
    player_name: Seq<char>,
    access_token: Seq<char>,
    content_id: Seq<char>,
    mode: Mode,
    short_token: Seq<char>,
)
    ensures
        sets(
            session_env(session, player_name, access_token, content_id) + mode_env(
                mode,
                short_token,
                access_token,
            ),
            "LANG"@,
            "en_US.UTF-8"@,
        ),
        sets(
            session_env(session, player_name, access_token, content_id) + mode_env(
                mode,
                short_token,
                access_token,
            ),
            "LC_ALL"@,
            "en_US.UTF-8"@,
        ),
{
    let common = session_env(session, player_name, access_token, content_id);
    let added = mode_env(mode, short_token, access_token);
    let env = common + added;
    reveal_strlit("LANG");
    reveal_strlit("LC_ALL");
    reveal_strlit("MXLaunchId");
    reveal_strlit("EAAuthCode");
    reveal_strlit("EAEgsProxyIpcPort");
    reveal_strlit("EAEntitlementSource");
    reveal_strlit("EAExternalSource");
    reveal_strlit("EAFreeTrialGame");
    reveal_strlit("EAGameLocale");
    reveal_strlit("EAGenericAuthToken");
    reveal_strlit("EALaunchCode");
    reveal_strlit("EALaunchOwner");
    reveal_strlit("EALaunchEAID");
    reveal_strlit("EALaunchEnv");
    reveal_strlit("EALaunchOfflineMode");
    reveal_strlit("EALsxPort");
    reveal_strlit("EARtPLaunchCode");
    reveal_strlit("EASecureLaunchTokenTemp");
    reveal_strlit("EASteamProxyIpcPort");
    reveal_strlit("OriginSessionKey");
    reveal_strlit("ContentId");
    reveal_strlit("EAOnErrorExitRetCode");
    reveal_strlit("EAConnectionId");
    reveal_strlit("EALicenseToken");
    reveal_strlit("EALaunchUserAuthToken");
    reveal_strlit("EAAccessTokenJWS");
    reveal_strlit("EALaunchOOAUserEmail");
    reveal_strlit("EALaunchOOAUserPass");
    assert forall|j: int| 2 <= j < env.len() implies (#[trigger] env[j]).0[0] != 'L' by {
        if j < common.len() {
            assert(env[j] == common[j]);
        } else {
            assert(env[j] == added[j - common.len()]);
        }
    }
    assert(env[0] == ("LANG"@, "en_US.UTF-8"@));
    assert(env[1] == ("LC_ALL"@, "en_US.UTF-8"@));
    assert forall|j: int| 0 < j < env.len() implies (#[trigger] env[j]).0 != "LANG"@ by {
        if j == 1 {
            assert("LC_ALL"@.len() != "LANG"@.len());
        } else {
            assert(env[j].0[0] != 'L');
        }
    }
    assert forall|j: int| 1 < j < env.len() implies (#[trigger] env[j]).0 != "LC_ALL"@ by {
        assert(env[j].0[0] != 'L');
    }
}

/// The environment of a game in a mode.
pub open spec fn game_env(
    session: SessionInfo,
    player_name: Seq<char>,
    access_token: Seq<char>,
    content_id: Seq<char>,
    mode: Mode,
    short_token: Seq<char>,
) -> Seq<(Seq<char>, Seq<char>)> {
    session_env(session, player_name, access_token, content_id) + mode_env(
        mode,
        short_token,
        access_token,
    )
}

/// A number that tells the names of the variables apart.
spec fn name_code(name: Seq<char>) -> int {
    name.len() * 0x100 + name[name.len() - 2] as int
}

proof fn lemma_sets(env: Seq<(Seq<char>, Seq<char>)>, i: int)
    requires
        0 <= i < env.len(),
        forall|j: int| i < j < env.len() ==> name_code((#[trigger] env[j]).0) != name_code(env[i].0),
    ensures
        sets(env, env[i].0, env[i].1),
{
    assert(env[i] == (env[i].0, env[i].1));
}

proof fn lemma_codes()
    ensures
        name_code("LANG"@) == 1102,
        name_code("LC_ALL"@) == 1612,
        name_code("MXLaunchId"@) == 2633,
        name_code("EAAuthCode"@) == 2660,
        name_code("EAEgsProxyIpcPort"@) == 4466,
        name_code("EAEntitlementSource"@) == 4963,
        name_code("EAExternalSource"@) == 4195,
        name_code("EAFreeTrialGame"@) == 3949,
        name_code("EAGameLocale"@) == 3180,
        name_code("EAGenericAuthToken"@) == 4709,
        name_code("EALaunchCode"@) == 3172,
        name_code("EALaunchOwner"@) == 3429,
        name_code("EALaunchEAID"@) == 3145,
        name_code("EALaunchEnv"@) == 2926,
        name_code("EALaunchOfflineMode"@) == 4964,
        name_code("EALsxPort"@) == 2418,
        name_code("EARtPLaunchCode"@) == 3940,
        name_code("EASecureLaunchTokenTemp"@) == 5997,
        name_code("EASteamProxyIpcPort"@) == 4978,
        name_code("OriginSessionKey"@) == 4197,
        name_code("ContentId"@) == 2377,
        name_code("EAOnErrorExitRetCode"@) == 5220,
        name_code("EAConnectionId"@) == 3657,
        name_code("EALicenseToken"@) == 3685,
        name_code("EALaunchUserAuthToken"@) == 5477,
        name_code("EAAccessTokenJWS"@) == 4183,
        name_code("EALaunchOOAUserEmail"@) == 5225,
        name_code("EALaunchOOAUserPass"@) == 4979,
{
    reveal_strlit("LANG");
    reveal_strlit("LC_ALL");
    reveal_strlit("MXLaunchId");
    reveal_strlit("EAAuthCode");
    reveal_strlit("EAEgsProxyIpcPort");
    reveal_strlit("EAEntitlementSource");
    reveal_strlit("EAExternalSource");
    reveal_strlit("EAFreeTrialGame");
    reveal_strlit("EAGameLocale");
    reveal_strlit("EAGenericAuthToken");
    reveal_strlit("EALaunchCode");
    reveal_strlit("EALaunchOwner");
    reveal_strlit("EALaunchEAID");
    reveal_strlit("EALaunchEnv");
    reveal_strlit("EALaunchOfflineMode");
    reveal_strlit("EALsxPort");
    reveal_strlit("EARtPLaunchCode");
    reveal_strlit("EASecureLaunchTokenTemp");
    reveal_strlit("EASteamProxyIpcPort");
    reveal_strlit("OriginSessionKey");
    reveal_strlit("ContentId");
    reveal_strlit("EAOnErrorExitRetCode");
    reveal_strlit("EAConnectionId");
    reveal_strlit("EALicenseToken");
    reveal_strlit("EALaunchUserAuthToken");
    reveal_strlit("EAAccessTokenJWS");
    reveal_strlit("EALaunchOOAUserEmail");
    reveal_strlit("EALaunchOOAUserPass");
}

/// What a game is told in every mode: who plays, with which token and which content, where the
/// launcher listens, and which launch this is. What the launcher's own environment says of the
/// sources, the locale and the owner is handed on; otherwise the game is told the default.
#[verifier::rlimit(60)]
pub proof fn game_is_told(
    session: SessionInfo,
    player_name: Seq<char>,
    access_token: Seq<char>,
    content_id: Seq<char>,
    mode: Mode,
    short_token: Seq<char>,
)
    ensures
        ({
            let env = game_env(session, player_name, access_token, content_id, mode, short_token);
            &&& sets(env, "LANG"@, "en_US.UTF-8"@)
            &&& sets(env, "LC_ALL"@, "en_US.UTF-8"@)
            &&& sets(env, "MXLaunchId"@, session.launch_id@)
            &&& sets(env, "EAAuthCode"@, "unavailable"@)
            &&& sets(env, "EAEgsProxyIpcPort"@, "0"@)
            &&& session.entitlement_source is Some ==> sets(env, "EAEntitlementSource"@, session.entitlement_source.unwrap()@)
            &&& session.entitlement_source is None ==> sets(env, "EAEntitlementSource"@, "EA"@)
            &&& session.external_source is Some ==> sets(env, "EAExternalSource"@, session.external_source.unwrap()@)
            &&& session.external_source is None ==> sets(env, "EAExternalSource"@, "EA"@)
            &&& sets(env, "EAFreeTrialGame"@, "false"@)
            &&& session.game_locale is Some ==> sets(env, "EAGameLocale"@, session.game_locale.unwrap()@)
            &&& session.game_locale is None ==> sets(env, "EAGameLocale"@, session.locale@)
            &&& sets(env, "EAGenericAuthToken"@, access_token)
            &&& sets(env, "EALaunchCode"@, "unavailable"@)
            &&& session.launch_owner is Some ==> sets(env, "EALaunchOwner"@, session.launch_owner.unwrap()@)
            &&& session.launch_owner is None ==> sets(env, "EALaunchOwner"@, "EA"@)
            &&& sets(env, "EALaunchEAID"@, player_name)
            &&& sets(env, "EALaunchEnv"@, "production"@)
            &&& sets(env, "EALaunchOfflineMode"@, "false"@)
            &&& sets(env, "EALsxPort"@, number::decimal(session.lsx_port as nat))
            &&& sets(env, "EARtPLaunchCode"@, session.rtp_code@)
            &&& sets(env, "EASecureLaunchTokenTemp"@, session.user_id@)
            &&& sets(env, "EASteamProxyIpcPort"@, "0"@)
            &&& sets(env, "OriginSessionKey"@, session.launch_id@)
            &&& sets(env, "ContentId"@, content_id)
            &&& sets(env, "EAOnErrorExitRetCode"@, "1"@)
        }),
{
    let common = session_env(session, player_name, access_token, content_id);
    let added = mode_env(mode, short_token, access_token);
    let env = common + added;
    let codes = seq![
        1102int,
        1612int,
        2633int,
        2660int,
        4466int,
        4963int,
        4195int,
        3949int,
        3180int,
        4709int,
        3172int,
        3429int,
        3145int,
        2926int,
        4964int,
        2418int,
        3940int,
        5997int,
        4978int,
        4197int,
        2377int,
        5220int,
    ];
    lemma_codes();
    assert(common.len() == 22);
    assert(added.len() <= 4);
    assert forall|j: int| 0 <= j < 22 implies name_code((#[trigger] common[j]).0) == codes[j] by {}
    assert forall|j: int| 0 <= j < 21 implies codes[j] != 5220 by {}
    assert forall|j: int| 0 <= j < added.len() implies {
        let code = name_code((#[trigger] added[j]).0);
        code == 3657 || code == 3685 || code == 5477 || code == 4183 || code == 5225 || code == 4979 || code == 5220
    } by {}
    assert forall|i: int| 0 <= i < 21 implies sets(env, (#[trigger] common[i]).0, common[i].1) by {
        assert(env[i] == common[i]);
        assert forall|j: int| i < j < env.len() implies name_code((#[trigger] env[j]).0) != name_code(
            env[i].0,
        ) by {
            if j < 22 {
                assert(env[j] == common[j]);
                assert(codes[i] != codes[j]);
            } else {
                assert(env[j] == added[j - 22]);
            }
        }
        lemma_sets(env, i);
    }
    assert(common[0].0 == "LANG"@);
    assert(common[1].0 == "LC_ALL"@);
    assert(common[2].0 == "MXLaunchId"@);
    assert(common[3].0 == "EAAuthCode"@);
    assert(common[4].0 == "EAEgsProxyIpcPort"@);
    assert(common[5].0 == "EAEntitlementSource"@);
    assert(common[6].0 == "EAExternalSource"@);
    assert(common[7].0 == "EAFreeTrialGame"@);
    assert(common[8].0 == "EAGameLocale"@);
    assert(common[9].0 == "EAGenericAuthToken"@);
    assert(common[10].0 == "EALaunchCode"@);
    assert(common[11].0 == "EALaunchOwner"@);
    assert(common[12].0 == "EALaunchEAID"@);
    assert(common[13].0 == "EALaunchEnv"@);
    assert(common[14].0 == "EALaunchOfflineMode"@);
    assert(common[15].0 == "EALsxPort"@);
    assert(common[16].0 == "EARtPLaunchCode"@);
    assert(common[17].0 == "EASecureLaunchTokenTemp"@);
    assert(common[18].0 == "EASteamProxyIpcPort"@);
    assert(common[19].0 == "OriginSessionKey"@);
    assert(common[20].0 == "ContentId"@);
    if mode is OnlineOffline {
        assert(env[24] == added[2]);
        lemma_sets(env, 24);
    } else {
        assert(env[21] == common[21]);
        assert forall|j: int| 21 < j < env.len() implies name_code((#[trigger] env[j]).0)
            != name_code(env[21].0) by {
            assert(env[j] == added[j - 22]);
        }
        lemma_sets(env, 21);
    }
}

/// Online, a game is told the offer for its connection and its license, the short token for
/// the user and the access token. With a persona of its own it is told that and the password.
/// No mode tells what belongs to another.
pub proof fn game_is_told_its_mode(
    session: SessionInfo,
    player_name: Seq<char>,
    access_token: Seq<char>,
    content_id: Seq<char>,
    mode: Mode,
    short_token: Seq<char>,
)
    ensures
        ({
            let env = game_env(session, player_name, access_token, content_id, mode, short_token);
            match mode {
                Mode::Offline(_) => env.len() == 22,
                Mode::Online(offer_id) => {
                    &&& env.len() == 26
                    &&& sets(env, "EAConnectionId"@, offer_id)
                    &&& sets(env, "EALicenseToken"@, offer_id)
                    &&& sets(env, "EALaunchUserAuthToken"@, short_token)
                    &&& sets(env, "EAAccessTokenJWS"@, access_token)
                },
                Mode::OnlineOffline(_, persona, password) => {
                    &&& env.len() == 25
                    &&& sets(env, "EALaunchOOAUserEmail"@, persona)
                    &&& sets(env, "EALaunchOOAUserPass"@, password)
                },
            }
        }),
{
    let common = session_env(session, player_name, access_token, content_id);
    let added = mode_env(mode, short_token, access_token);
    let env = common + added;
    lemma_codes();
    assert(common.len() == 22);
    match mode {
        Mode::Offline(_) => {},
        Mode::Online(_) => {
            assert(env[22] == added[0] && env[23] == added[1] && env[24] == added[2] && env[25]
                == added[3]);
            lemma_sets(env, 22);
            lemma_sets(env, 23);
            lemma_sets(env, 24);
            lemma_sets(env, 25);
        },
        Mode::OnlineOffline(_, _, _) => {
            assert(env[22] == added[0] && env[23] == added[1] && env[24] == added[2]);
            lemma_sets(env, 22);
            lemma_sets(env, 23);
        },
    }
}

/// The token is asked for with every scope that EA Desktop asks for.
pub proof fn token_has_every_scope()
    ensures
        token_scopes().len() == 9,
        token_scopes().contains("basic.commerce.cartv2"@),
        token_scopes().contains("service.atom"@),
        token_scopes().contains("dp.client.default"@),
        token_scopes().contains("signin"@),
        token_scopes().contains("social_recommendation_user"@),
        token_scopes().contains("basic.optin.write"@),
        token_scopes().contains("basic.commerce.cartv2.write"@),
        token_scopes().contains("basic.billing"@),
        token_scopes().contains("external.social_information_ups_admin"@),
{
    let all = token_scopes();
    assert forall|i: int| 0 <= i < all.len() implies all.contains(#[trigger] all[i]) by {}
    assert(all[0] == "basic.commerce.cartv2"@ && all[1] == "service.atom"@ && all[2]
        == "dp.client.default"@);
    assert(all[3] == "signin"@ && all[4] == "social_recommendation_user"@ && all[5]
        == "basic.optin.write"@);
    assert(all[6] == "basic.commerce.cartv2.write"@ && all[7] == "basic.billing"@ && all[8]
        == "external.social_information_ups_admin"@);
}

} // verus!
